use npnc::bounded;
use npnc::buffer::Buffer;
use npnc::ring::{advance, advance_by, distance, is_power_of_two, slot_index};
use npnc::unbounded;
use npnc::unbounded::list::List;
use npnc::unbounded::mpmc::take_one;
use npnc::{ConsumeError, ProduceError};

#[test]
fn power_of_two_sizes() {
    assert!(is_power_of_two(1));
    assert!(is_power_of_two(2));
    assert!(is_power_of_two(1024));
    assert!(!is_power_of_two(0));
    assert!(!is_power_of_two(3));
    assert!(!is_power_of_two(12));
}

#[test]
fn cursor_arithmetic_wraps() {
    assert_eq!(advance(5), 6);
    assert_eq!(advance(u64::MAX), 0);
    assert_eq!(advance_by(u64::MAX, 3), 2);
    assert_eq!(distance(u64::MAX, 1), 2);
    assert_eq!(distance(3, 3), 0);
    assert_eq!(slot_index(13, 8), 5);
    assert_eq!(slot_index(u64::MAX, 4), 3);
}

#[test]
fn buffer_cells() {
    let mut buffer = Buffer::<String>::new(4);
    assert_eq!(buffer.size(), 4);
    buffer.set(1, "a".to_string());
    buffer.wrapping_set(6, "b".to_string());
    assert_eq!(buffer.get(1), "a");
    assert_eq!(buffer.wrapping_get(10), "b");
    buffer.set(1, "c".to_string());
    assert_eq!(buffer.wrapping_get(5), "c");
}

#[test]
fn error_items_and_descriptions() {
    assert_eq!(ProduceError::Full(3).item(), 3);
    assert_eq!(ProduceError::Disconnected("x").item(), "x");
    assert_eq!(ProduceError::Full(0).description(), "the queue was full");
    assert_eq!(
        ProduceError::Disconnected(0).description(),
        "the queue had no remaining consumers"
    );
    assert_eq!(ConsumeError::Empty.description(), "the queue was empty");
    assert_eq!(
        ConsumeError::Disconnected.description(),
        "the queue was empty and had no remaining producers"
    );
    assert_ne!(ConsumeError::Empty, ConsumeError::Disconnected);
}

#[test]
fn bounded_spsc_queue_model() {
    let mut queue = bounded::spsc::Queue::<i32>::new(2);
    assert_eq!(queue.capacity(), 2);
    assert_eq!(queue.consume(1), Err(ConsumeError::Empty));
    assert_eq!(queue.consume(0), Err(ConsumeError::Disconnected));
    assert_eq!(queue.produce(1, 1), Ok(()));
    assert_eq!(queue.produce(2, 0), Err(ProduceError::Disconnected(2)));
    assert_eq!(queue.produce(2, 1), Ok(()));
    assert_eq!(queue.len(), 2);
    assert_eq!(queue.produce(3, 1), Err(ProduceError::Full(3)));
    assert_eq!(queue.consume(0), Ok(1));
    assert_eq!(queue.produce(3, 1), Ok(()));
    assert_eq!(queue.consume(1), Ok(2));
    assert_eq!(queue.consume(1), Ok(3));
    assert_eq!(queue.len(), 0);
}

#[test]
fn bounded_mpmc_queue_model() {
    let mut queue = bounded::mpmc::Queue::<i32>::new(4);
    assert_eq!(queue.capacity(), 4);
    for item in 0..4 {
        assert_eq!(queue.produce(item, 2), Ok(()));
    }
    assert_eq!(queue.produce(9, 2), Err(ProduceError::Full(9)));
    for item in 0..4 {
        assert_eq!(queue.consume(1), Ok(item));
    }
    assert_eq!(queue.consume(1), Err(ConsumeError::Empty));
    assert_eq!(queue.consume(0), Err(ConsumeError::Disconnected));
    assert_eq!(queue.produce(9, 0), Err(ProduceError::Disconnected(9)));
}

#[test]
fn slot_sequences_and_difference() {
    let mut slot = bounded::mpmc::Slot::<i32>::new(6);
    slot.set(4);
    assert_eq!(slot.get(), 4);
    assert_eq!(bounded::mpmc::difference(5, 3), 2);
    assert_eq!(bounded::mpmc::difference(3, 5), -2);
    assert_eq!(bounded::mpmc::difference(0, u64::MAX), 1);
    assert_eq!(bounded::mpmc::difference(u64::MAX, 0), -1);
}

#[test]
fn exchange_compares_then_sets() {
    let mut cursor: u64 = 4;
    assert!(bounded::mpmc::exchange(&mut cursor, 4, 5));
    assert_eq!(cursor, 5);
    assert!(!bounded::mpmc::exchange(&mut cursor, 4, 9));
    assert_eq!(cursor, 5);
}

#[test]
fn sentinel_list() {
    let mut list = List::<i32>::new();
    assert!(list.is_empty());
    list.push(1);
    list.push(2);
    assert!(!list.is_empty());
    assert_eq!(list.pop(), 1);
    list.push(3);
    assert_eq!(list.pop(), 2);
    assert_eq!(list.pop(), 3);
    assert!(list.is_empty());
}

#[test]
fn unbounded_queue_models() {
    let mut queue = unbounded::spsc::Queue::<i32>::new();
    assert_eq!(queue.consume(1), Err(ConsumeError::Empty));
    assert_eq!(queue.produce(1, 1), Ok(()));
    assert_eq!(queue.produce(2, 0), Err(ProduceError::Disconnected(2)));
    assert_eq!(queue.consume(0), Ok(1));
    assert_eq!(queue.consume(0), Err(ConsumeError::Disconnected));

    let mut queue = unbounded::mpmc::Queue::<i32>::new();
    assert_eq!(queue.produce(5, 3), Ok(()));
    assert_eq!(queue.produce(6, 3), Ok(()));
    assert_eq!(queue.consume(2), Ok(5));
    assert_eq!(queue.consume(2), Ok(6));
    assert_eq!(queue.consume(2), Err(ConsumeError::Empty));
}

#[test]
fn clone_slot_take() {
    assert_eq!(take_one(3), Some(2));
    assert_eq!(take_one(1), Some(0));
    assert_eq!(take_one(0), None);
}

#[test]
fn produce_errors_compare_by_kind() {
    assert_eq!(ProduceError::Full(1), ProduceError::Full(2));
    assert_ne!(ProduceError::Full(1), ProduceError::Disconnected(1));
    assert_eq!(ProduceError::Disconnected("a"), ProduceError::Disconnected("b"));
}

#[test]
fn bounded_mpmc_single_slot() {
    let mut queue = bounded::mpmc::Queue::<i32>::new(1);
    assert_eq!(queue.consume(1), Err(ConsumeError::Empty));
    assert_eq!(queue.produce(1, 1), Ok(()));
    assert_eq!(queue.produce(2, 1), Err(ProduceError::Full(2)));
    assert_eq!(queue.consume(1), Ok(1));
    assert_eq!(queue.produce(2, 1), Ok(()));
    assert_eq!(queue.produce(3, 1), Err(ProduceError::Full(3)));
    assert_eq!(queue.consume(0), Ok(2));
    assert_eq!(queue.consume(0), Err(ConsumeError::Disconnected));
}
