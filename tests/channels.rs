use npnc::bounded;
use npnc::unbounded;
use npnc::{ConsumeError, ProduceError};

#[test]
fn bounded_spsc_drain() {
    let (producer, consumer) = bounded::spsc::channel::<i32>(4);
    for item in [1, 2, 3, 4] {
        assert_eq!(producer.produce(item), Ok(()));
    }
    drop(producer);
    assert_eq!(consumer.consume(), Ok(1));
    assert_eq!(consumer.consume(), Ok(2));
    assert_eq!(consumer.consume(), Ok(3));
    assert_eq!(consumer.consume(), Ok(4));
    assert_eq!(consumer.consume(), Err(ConsumeError::Disconnected));
}

#[test]
fn bounded_spsc_full() {
    let (producer, consumer) = bounded::spsc::channel::<i32>(2);
    assert_eq!(producer.produce(10), Ok(()));
    assert_eq!(producer.produce(20), Ok(()));
    assert_eq!(producer.produce(30), Err(ProduceError::Full(30)));
    assert_eq!(consumer.consume(), Ok(10));
    assert_eq!(producer.produce(30), Ok(()));
    assert_eq!(consumer.consume(), Ok(20));
    assert_eq!(consumer.consume(), Ok(30));
    assert_eq!(consumer.consume(), Err(ConsumeError::Empty));
}

#[test]
fn bounded_spsc_len_and_capacity() {
    let (producer, consumer) = bounded::spsc::channel::<u8>(8);
    assert_eq!(producer.capacity(), 8);
    assert_eq!(consumer.capacity(), 8);
    assert!(producer.is_empty());
    assert_eq!(producer.produce(1), Ok(()));
    assert_eq!(producer.produce(2), Ok(()));
    assert_eq!(producer.len(), 2);
    assert_eq!(consumer.len(), 2);
    assert!(!consumer.is_empty());
    assert_eq!(consumer.consume(), Ok(1));
    assert_eq!(consumer.len(), 1);
}

#[test]
fn bounded_spsc_consumer_gone() {
    let (producer, consumer) = bounded::spsc::channel::<u8>(2);
    drop(consumer);
    assert_eq!(producer.produce(5), Err(ProduceError::Disconnected(5)));
}

#[test]
fn bounded_spsc_wraps_many_times() {
    let (producer, consumer) = bounded::spsc::channel::<u32>(4);
    for round in 0..100u32 {
        for k in 0..3u32 {
            assert_eq!(producer.produce(round * 3 + k), Ok(()));
        }
        for k in 0..3u32 {
            assert_eq!(consumer.consume(), Ok(round * 3 + k));
        }
    }
    assert_eq!(consumer.consume(), Err(ConsumeError::Empty));
}

#[test]
fn bounded_mpmc_two_producers() {
    let (a, consumer) = bounded::mpmc::channel::<u32>(8);
    let b = a.clone();
    assert_eq!(a.produce(1), Ok(()));
    assert_eq!(b.produce(100), Ok(()));
    assert_eq!(a.produce(2), Ok(()));
    assert_eq!(b.produce(101), Ok(()));
    assert_eq!(b.produce(102), Ok(()));
    assert_eq!(a.produce(3), Ok(()));
    drop(a);
    drop(b);
    let mut seen = Vec::new();
    while let Ok(item) = consumer.consume() {
        seen.push(item);
    }
    assert_eq!(consumer.consume(), Err(ConsumeError::Disconnected));
    assert_eq!(seen.len(), 6);
    let from_a: Vec<u32> = seen.iter().copied().filter(|x| *x < 100).collect();
    let from_b: Vec<u32> = seen.iter().copied().filter(|x| *x >= 100).collect();
    assert_eq!(from_a, vec![1, 2, 3]);
    assert_eq!(from_b, vec![100, 101, 102]);
}

#[test]
fn bounded_mpmc_one_slot_channel() {
    let (producer, consumer) = bounded::mpmc::channel::<i32>(1);
    assert_eq!(producer.produce(1), Ok(()));
    assert_eq!(producer.produce(2), Err(ProduceError::Full(2)));
    assert_eq!(consumer.consume(), Ok(1));
    assert_eq!(consumer.consume(), Err(ConsumeError::Empty));
}

#[test]
fn bounded_spsc_starts_empty() {
    let (producer, consumer) = bounded::spsc::channel::<i32>(4);
    assert_eq!(producer.len(), 0);
    assert!(producer.is_empty());
    assert!(consumer.is_empty());
    assert_eq!(consumer.consume(), Err(ConsumeError::Empty));
}

#[test]
fn bounded_mpmc_disconnect_with_pending() {
    let (producer, consumer) = bounded::mpmc::channel::<i32>(4);
    assert_eq!(producer.produce(7), Ok(()));
    drop(producer);
    assert_eq!(consumer.consume(), Ok(7));
    assert_eq!(consumer.consume(), Err(ConsumeError::Disconnected));
    assert_eq!(consumer.consume(), Err(ConsumeError::Disconnected));
}

#[test]
fn bounded_mpmc_full_and_clones() {
    let (producer, consumer) = bounded::mpmc::channel::<i32>(2);
    let second = consumer.clone();
    assert_eq!(producer.produce(1), Ok(()));
    assert_eq!(producer.produce(2), Ok(()));
    assert_eq!(producer.produce(3), Err(ProduceError::Full(3)));
    assert_eq!(second.consume(), Ok(1));
    assert_eq!(consumer.consume(), Ok(2));
    assert_eq!(second.consume(), Err(ConsumeError::Empty));
    drop(consumer);
    assert_eq!(producer.produce(4), Ok(()));
    drop(second);
    assert_eq!(producer.produce(5), Err(ProduceError::Disconnected(5)));
}

#[test]
fn unbounded_spsc_accepts_everything() {
    let (producer, consumer) = unbounded::spsc::channel::<u64>();
    for item in 0..1_000_000u64 {
        assert_eq!(producer.produce(item), Ok(()));
    }
    for item in 0..1_000_000u64 {
        assert_eq!(consumer.consume(), Ok(item));
    }
    assert_eq!(consumer.consume(), Err(ConsumeError::Empty));
}

#[test]
fn unbounded_spsc_disconnects() {
    let (producer, consumer) = unbounded::spsc::channel::<i32>();
    assert_eq!(producer.produce(1), Ok(()));
    drop(producer);
    assert_eq!(consumer.consume(), Ok(1));
    assert_eq!(consumer.consume(), Err(ConsumeError::Disconnected));
    let (producer, consumer) = unbounded::spsc::channel::<i32>();
    drop(consumer);
    assert_eq!(producer.produce(2), Err(ProduceError::Disconnected(2)));
}

#[test]
fn unbounded_mpmc_clone_limit() {
    let (producer, consumer) = unbounded::mpmc::channel::<i32>(2);
    let producer_clone = producer.try_clone();
    assert!(producer_clone.is_some());
    let consumer_clone = consumer.try_clone();
    assert!(consumer_clone.is_some());
    assert!(producer.try_clone().is_none());
    assert!(consumer.try_clone().is_none());
    drop(producer_clone);
    let third = consumer.try_clone();
    assert!(third.is_some());
    assert!(producer.try_clone().is_none());
    drop(third);
    drop(consumer_clone);
    assert!(producer.try_clone().is_some());
}

#[test]
fn unbounded_mpmc_no_clones() {
    let (producer, consumer) = unbounded::mpmc::channel::<i32>(0);
    assert!(producer.try_clone().is_none());
    assert!(consumer.try_clone().is_none());
}

#[test]
fn unbounded_mpmc_order_and_disconnect() {
    let (producer, consumer) = unbounded::mpmc::channel::<i32>(4);
    let other = producer.try_clone().unwrap();
    assert_eq!(producer.produce(1), Ok(()));
    assert_eq!(other.produce(2), Ok(()));
    assert_eq!(producer.produce(3), Ok(()));
    drop(producer);
    assert_eq!(consumer.consume(), Ok(1));
    assert_eq!(consumer.consume(), Ok(2));
    assert_eq!(consumer.consume(), Ok(3));
    assert_eq!(consumer.consume(), Err(ConsumeError::Empty));
    drop(other);
    assert_eq!(consumer.consume(), Err(ConsumeError::Disconnected));
}

#[test]
fn dropping_both_sides_drops_pending_items() {
    let item = std::sync::Arc::new(5);
    let (producer, consumer) = bounded::spsc::channel(4);
    assert!(producer.produce(item.clone()).is_ok());
    assert!(producer.produce(item.clone()).is_ok());
    let (mpmc_producer, mpmc_consumer) = bounded::mpmc::channel(4);
    assert!(mpmc_producer.produce(item.clone()).is_ok());
    let (list_producer, list_consumer) = unbounded::mpmc::channel(1);
    assert!(list_producer.produce(item.clone()).is_ok());
    assert_eq!(std::sync::Arc::strong_count(&item), 5);
    drop(producer);
    drop(consumer);
    drop(mpmc_producer);
    drop(mpmc_consumer);
    drop(list_producer);
    drop(list_consumer);
    assert_eq!(std::sync::Arc::strong_count(&item), 1);
}
