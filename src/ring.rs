//! Arithmetic on wrapping ring cursors and power-of-two masks.
use vstd::arithmetic::power2::{lemma_pow2_pos, lemma_pow2_strictly_increases, lemma_pow2_unfold, pow2};
use vstd::prelude::*;

verus! {

/// The number of distinct values of a cursor: cursors wrap modulo this.
pub open spec fn word() -> int {
    0x1_0000_0000_0000_0000
}

/// `n` is a power of two.
pub open spec fn power_of_two(n: usize) -> bool {
    exists|k: nat| pow2(k) == n
}

/// The bit form of a power of two: one bit set, so none in common with its predecessor.
pub open spec fn single_bit(n: usize) -> bool {
    n != 0 && n & ((n - 1) as usize) == 0
}

/// The cursor after `c` (wrapping).
pub open spec fn next(c: u64) -> u64 {
    ((c as int + 1) % word()) as u64
}

/// The cursor `k` steps after `c` (wrapping).
pub open spec fn ahead(c: u64, k: int) -> u64 {
    ((c as int + k) % word()) as u64
}

/// How far `to` is ahead of `from` when cursors wrap.
pub open spec fn dist(from: u64, to: u64) -> nat {
    ((to as int - from as int) % word()) as nat
}

/// The physical index of cursor `c` in a ring of `size` slots.
pub open spec fn mask(c: u64, size: usize) -> int {
    (c & ((size - 1) as u64)) as int
}

/// The physical index of `index` in a buffer of `size` cells.
pub open spec fn index_mask(index: usize, size: usize) -> int {
    (index & ((size - 1) as usize)) as int
}

/// Returns whether `n` is a power of two, by doubling 1 until it reaches `n`.
pub fn is_power_of_two(n: usize) -> (r: bool)
    ensures
        r == power_of_two(n),
{
    let mut p: usize = 1;
    let ghost mut k: nat = 0;
    proof {
        vstd::arithmetic::power2::lemma2_to64();
    }
    while p < n && p <= usize::MAX / 2
        invariant
            p == pow2(k),
            p >= 1,
            forall|j: nat| j < k ==> pow2(j) < n,
        decreases usize::MAX - p,
    {
        proof {
            lemma_pow2_unfold(k + 1);
            lemma_pow2_pos(k);
        }
        p = p * 2;
        proof {
            k = k + 1;
        }
    }
    proof {
        if p != n {
            assert forall|j: nat| pow2(j) != n by {
                if j > k {
                    lemma_pow2_strictly_increases(k, j);
                    if p < n {
                        lemma_pow2_unfold(k + 1);
                        if j > k + 1 {
                            lemma_pow2_strictly_increases(k + 1, j);
                        }
                    }
                }
            }
        }
    }
    p == n
}

/// A power of two has a single bit set.
pub proof fn lemma_power_of_two_bits(n: usize)
    requires
        power_of_two(n),
    ensures
        single_bit(n),
{
    let k = choose|k: nat| pow2(k) == n;
    vstd::layout::unsigned_int_max_values();
    let bits = usize::BITS as nat;
    if k >= bits {
        if k > bits {
            lemma_pow2_strictly_increases(bits, k);
        }
        assert(false);
    }
    lemma_pow2_pos(k);
    let s = k as usize;
    vstd::bits::lemma_usize_shl_is_mul(1, s);
    assert(1usize << s == n);
    assert((1usize << s) != 0 ==> (1usize << s) & (((1usize << s) - 1) as usize) == 0)
        by (bit_vector);
}

/// Returns the cursor after `c`, wrapping at the word size.
pub fn advance(c: u64) -> (r: u64)
    ensures
        r == next(c),
{
    c.wrapping_add(1)
}

/// Returns how far `to` is ahead of `from`, wrapping at the word size.
pub fn distance(from: u64, to: u64) -> (r: u64)
    ensures
        r == dist(from, to),
{
    to.wrapping_sub(from)
}

/// Returns the cursor `k` steps after `c`, wrapping at the word size.
pub fn advance_by(c: u64, k: u64) -> (r: u64)
    ensures
        r == ahead(c, k as int),
{
    c.wrapping_add(k)
}

/// Returns the physical index of cursor `c` in a ring of `size` slots.
pub fn slot_index(c: u64, size: usize) -> (r: usize)
    requires
        power_of_two(size),
    ensures
        r as int == mask(c, size),
        r < size,
{
    proof {
        lemma_mask_bound(c, size);
    }
    (c & ((size - 1) as u64)) as usize
}

pub proof fn lemma_mask_bound(c: u64, size: usize)
    requires
        power_of_two(size),
    ensures
        0 <= mask(c, size) < size,
{
    lemma_power_of_two_bits(size);
    let s = size as u64;
    assert(s == size);
    assert(s != 0 ==> c & ((s - 1) as u64) < s) by (bit_vector);
}

pub proof fn lemma_index_mask_bound(index: usize, size: usize)
    requires
        power_of_two(size),
    ensures
        0 <= index_mask(index, size) < size,
{
    lemma_power_of_two_bits(size);
    assert(size != 0 ==> index & ((size - 1) as usize) < size) by (bit_vector);
}

/// Stepping a cursor moves its physical index one slot forward around the ring.
pub proof fn lemma_mask_next(c: u64, size: usize)
    requires
        power_of_two(size),
    ensures
        mask(next(c), size) == (mask(c, size) + 1) % (size as int),
{
    lemma_power_of_two_bits(size);
    let s = size as u64;
    let m = (size - 1) as u64;
    assert(s != 0 && (s & ((s - 1) as u64)) == 0 <==> size != 0 && size & ((size - 1) as usize)
        == 0) by (bit_vector)
        requires
            s == size,
    ;
    lemma_mask_bound(c, size);
    assert(m == (s - 1) as u64);
    if mask(c, size) + 1 < size {
        vstd::arithmetic::div_mod::lemma_small_mod((mask(c, size) + 1) as nat, size as nat);
    } else {
        vstd::arithmetic::div_mod::lemma_mod_self_0(size as int);
    }
    if c == 0xffff_ffff_ffff_ffffu64 {
        assert(next(c) == 0);
        assert(s != 0 && (s & ((s - 1) as u64)) == 0 ==> (0xffff_ffff_ffff_ffffu64 & ((s - 1)
            as u64)) == (s - 1) as u64) by (bit_vector);
        assert(s != 0 ==> (0u64 & ((s - 1) as u64)) == 0) by (bit_vector);
    } else {
        assert(next(c) == c + 1);
        assert(next(c) == (c + 1) as u64);
        assert(s != 0 && (s & ((s - 1) as u64)) == 0 && c < 0xffff_ffff_ffff_ffffu64 ==> ((c + 1)
            as u64) & ((s - 1) as u64) == if c & ((s - 1) as u64) == (s - 1) as u64 {
            0
        } else {
            ((c & ((s - 1) as u64)) + 1) as u64
        }) by (bit_vector);
    }
}

/// A power of two that fits in a `usize` is at most half of the cursor range.
pub proof fn lemma_power_of_two_half(size: usize)
    requires
        power_of_two(size),
    ensures
        2 * (size as int) <= word(),
{
    lemma_power_of_two_bits(size);
    let s = size as u64;
    assert(s != 0 && (s & ((s - 1) as u64)) == 0 <==> size != 0 && size & ((size - 1) as usize)
        == 0) by (bit_vector)
        requires
            s == size,
    ;
    assert(s != 0 && (s & ((s - 1) as u64)) == 0 ==> s <= 0x8000_0000_0000_0000u64)
        by (bit_vector);
}

/// Distinct offsets below `size` from one head land on distinct slots.
pub proof fn lemma_offset_distinct(h: int, i: int, j: int, size: int)
    requires
        size > 0,
        0 <= i < size,
        0 <= j < size,
        i != j,
    ensures
        (h + i) % size != (h + j) % size,
{
    vstd::arithmetic::div_mod::lemma_fundamental_div_mod(h + i, size);
    vstd::arithmetic::div_mod::lemma_fundamental_div_mod(h + j, size);
    let qi = (h + i) / size;
    let qj = (h + j) / size;
    if (h + i) % size == (h + j) % size {
        assert(i - j == (qi - qj) * size) by (nonlinear_arith)
            requires
                h + i == size * qi + (h + i) % size,
                h + j == size * qj + (h + j) % size,
                (h + i) % size == (h + j) % size,
        ;
        if qi > qj {
            assert((qi - qj) * size >= size) by (nonlinear_arith)
                requires
                    qi - qj >= 1,
                    size > 0,
            ;
        } else if qi < qj {
            assert((qj - qi) * size >= size) by (nonlinear_arith)
                requires
                    qj - qi >= 1,
                    size > 0,
            ;
            assert(j - i == (qj - qi) * size) by (nonlinear_arith)
                requires
                    i - j == (qi - qj) * size,
            ;
        } else {
            assert((qi - qj) * size == 0) by (nonlinear_arith)
                requires
                    qi == qj,
            ;
        }
    }
}

/// Moving the head one slot forward shifts every offset by one.
pub proof fn lemma_offset_shift(h: int, i: int, size: int)
    requires
        size > 0,
        0 <= i,
    ensures
        ((h + 1) % size + i) % size == (h + 1 + i) % size,
{
    vstd::arithmetic::div_mod::lemma_add_mod_noop(h + 1, i, size);
    vstd::arithmetic::div_mod::lemma_mod_twice(i, size);
    vstd::arithmetic::div_mod::lemma_add_mod_noop((h + 1) % size, i, size);
    vstd::arithmetic::div_mod::lemma_mod_twice(h + 1, size);
}

/// An offset of a whole ring lands on the head again.
pub proof fn lemma_offset_full(h: int, size: int)
    requires
        size > 0,
        0 <= h < size,
    ensures
        (h + size) % size == h,
{
    vstd::arithmetic::div_mod::lemma_mod_add_multiples_vanish(h, size);
    vstd::arithmetic::div_mod::lemma_small_mod(h as nat, size as nat);
}

/// Stepping past `c` and then `k` more is stepping `k + 1` past `c`.
pub proof fn lemma_ahead_next(c: u64, k: int)
    requires
        0 <= k,
    ensures
        ahead(next(c), k) == ahead(c, k + 1),
{
    lemma_offset_shift(c as int, k, word());
}

/// A cursor lies as many steps ahead of another as their distance.
pub proof fn lemma_ahead_dist(from: u64, to: u64)
    ensures
        to == ahead(from, dist(from, to) as int),
{
}

/// The slot at physical index `p` lies `(p - h) % size` slots past the head `h`.
pub proof fn lemma_offset_inverse(h: int, p: int, size: int)
    requires
        size > 0,
        0 <= p < size,
    ensures
        0 <= (p - h) % size < size,
        (h + (p - h) % size) % size == p,
{
    vstd::arithmetic::div_mod::lemma_add_mod_noop_right(h, p - h, size);
    vstd::arithmetic::div_mod::lemma_small_mod(p as nat, size as nat);
}

pub proof fn lemma_dist_next_to(from: u64, to: u64)
    requires
        dist(from, to) + 1 < word(),
    ensures
        dist(from, next(to)) == dist(from, to) + 1,
{
}

pub proof fn lemma_dist_next_from(from: u64, to: u64)
    requires
        dist(from, to) > 0,
    ensures
        dist(next(from), to) == dist(from, to) - 1,
{
}

} // verus!
