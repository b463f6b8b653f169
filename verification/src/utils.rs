//! Bit-field helpers on machine words.

use vstd::prelude::*;

verus! {

/// The `len`-bit field of `bits` that starts at bit `off`.
pub open spec fn spec_bit_extract(bits: usize, off: usize, len: usize) -> usize {
    (bits >> off) & (((1usize << len) - 1) as usize)
}

/// Bit `off` of `bits`, as 0 or 1.
pub open spec fn spec_bit_get(bits: usize, off: usize) -> usize {
    (bits >> off) & 1
}

/// `bits` with bit `off` set.
pub open spec fn spec_bit_set(bits: usize, off: usize) -> usize {
    bits | (1usize << off)
}

/// Whether bit `i` of a 64-bit map has the value `set`.
pub open spec fn bit_matches(bitmap: u64, i: int, set: bool) -> bool {
    ((bitmap >> (i as u64)) & 1 == 1) == set
}

/// How many of the bits `start..end` of `bitmap` have the value `set`.
pub open spec fn count_matches(bitmap: u64, start: int, end: int, set: bool) -> nat
    decreases end - start,
{
    if end <= start {
        0
    } else {
        count_matches(bitmap, start, end - 1, set) + if bit_matches(bitmap, end - 1, set) {
            1nat
        } else {
            0nat
        }
    }
}

/// Whether `i` is the position of the `nth` bit with value `set` among the
/// bits `start..start + size` of `bitmap`, counting from one.
pub open spec fn is_nth_match(bitmap: u64, start: int, size: int, nth: int, set: bool, i: int) -> bool {
    &&& start <= i < start + size
    &&& bit_matches(bitmap, i, set)
    &&& count_matches(bitmap, start, i, set) + 1 == nth
}

/// The scan behind [`bitmap_find_nth`]: the position of the `need`-th bit with
/// value `set` among the bits `i..end`.
pub open spec fn find_nth_from(bitmap: u64, i: int, end: int, need: int, set: bool) -> Option<usize>
    decreases end - i,
{
    if i >= end {
        None
    } else if bit_matches(bitmap, i, set) {
        if need == 1 {
            Some(i as usize)
        } else {
            find_nth_from(bitmap, i + 1, end, need - 1, set)
        }
    } else {
        find_nth_from(bitmap, i + 1, end, need, set)
    }
}

/// What [`bitmap_find_nth`] returns.
pub open spec fn spec_bitmap_find_nth(bitmap: u64, start: usize, size: usize, nth: usize, set: bool) -> Option<
    usize,
> {
    if start + size > 64 {
        None
    } else {
        find_nth_from(bitmap, start as int, start + size, nth as int, set)
    }
}

/// The lowest of the bits `0..n` of `bitmap` that is set, if any.
pub open spec fn first_set_bit(bitmap: u64, n: usize) -> Option<usize> {
    spec_bitmap_find_nth(bitmap, 0, n, 1, true)
}

/// The interrupt id in the low ten bits of `int_id`.
pub open spec fn spec_int_id_field(int_id: usize) -> usize {
    spec_bit_extract(int_id, 0, 10)
}

/// The source CPU in bits 10..15 of `int_id`.
pub open spec fn spec_source_field(int_id: usize) -> usize {
    spec_bit_extract(int_id, 10, 5)
}

/// Extracts the interrupt id from the low ten bits of `int_id`.
pub fn int_id_field(int_id: usize) -> (r: usize)
    ensures
        r == spec_int_id_field(int_id),
        r < 1024,
{
    let r = bit_extract(int_id, 0, 10);
    assert(r < 1024) by (bit_vector)
        requires
            r == (int_id >> 0usize) & (((1usize << 10usize) - 1) as usize),
    ;
    r
}

/// Extracts the source CPU from bits 10..15 of `int_id`.
pub fn source_field(int_id: usize) -> (r: usize)
    ensures
        r == spec_source_field(int_id),
        r < 32,
{
    let r = bit_extract(int_id, 10, 5);
    assert(r < 32) by (bit_vector)
        requires
            r == (int_id >> 10usize) & (((1usize << 5usize) - 1) as usize),
    ;
    r
}

/// Extracts the `len`-bit field of `bits` that starts at bit `off`.
#[inline(always)]
pub fn bit_extract(bits: usize, off: usize, len: usize) -> (r: usize)
    requires
        off < usize::BITS,
        len < usize::BITS,
    ensures
        r == spec_bit_extract(bits, off, len),
{
    assert((1usize << len) >= 1) by (bit_vector)
        requires
            len < usize::BITS,
    ;
    (bits >> off) & ((1usize << len) - 1)
}

/// Reads bit `off` of `bits`.
#[inline(always)]
pub fn bit_get(bits: usize, off: usize) -> (r: usize)
    requires
        off < usize::BITS,
    ensures
        r == spec_bit_get(bits, off),
        r == 0 || r == 1,
{
    assert(((bits >> off) & 1) == 0 || ((bits >> off) & 1) == 1) by (bit_vector);
    (bits >> off) & 1
}

/// Sets bit `off` of `bits`.
#[inline(always)]
pub fn bit_set(bits: usize, off: usize) -> (r: usize)
    requires
        off < usize::BITS,
    ensures
        r == spec_bit_set(bits, off),
{
    bits | (1usize << off)
}

/// Finds the `nth` bit (counting from one) with value `set` among the bits
/// `start..start + size` of `bitmap`.
///
/// A window that does not fit into the 64-bit map yields `None`.
pub fn bitmap_find_nth(bitmap: u64, start: usize, size: usize, nth: usize, set: bool) -> (r: Option<
    usize,
>)
    requires
        start + size <= usize::MAX,
    ensures
        r == spec_bitmap_find_nth(bitmap, start, size, nth, set),
        start + size > 64 ==> r.is_none(),
        r matches Some(i) ==> is_nth_match(bitmap, start as int, size as int, nth as int, set, i as int),
        r.is_none() && start + size <= 64 ==> forall|i: int|
            !is_nth_match(bitmap, start as int, size as int, nth as int, set, i),
{
    if size + start > 64 {
        return None;
    }
    let mut count: usize = 0;
    let end = start + size;
    let mut i = start;
    while i < end
        invariant
            start <= i <= end,
            end == start + size,
            end <= 64,
            count == count_matches(bitmap, start as int, i as int, set),
            count <= i - start,
            count < nth || nth == 0,
            find_nth_from(bitmap, start as int, end as int, nth as int, set) == find_nth_from(
                bitmap,
                i as int,
                end as int,
                nth - count,
                set,
            ),
            forall|j: int| start <= j < i ==> !is_nth_match(bitmap, start as int, size as int, nth as int, set, j),
        decreases end - i,
    {
        let hit = ((bitmap >> (i as u64)) & 1 == 1) == set;
        if hit {
            count = count + 1;
            if count == nth {
                return Some(i);
            }
        }
        i = i + 1;
    }
    None
}

/// The first set bit is set, lies below `n`, and no lower bit is set; and
/// where there is none, no bit below `n` is set.
pub proof fn lemma_first_set_bit(bitmap: u64, n: usize)
    requires
        n <= 64,
    ensures
        first_set_bit(bitmap, n) matches Some(i) ==> i < n && bit_matches(bitmap, i as int, true)
            && forall|j: int| 0 <= j < i ==> !bit_matches(bitmap, j, true),
        first_set_bit(bitmap, n).is_none() ==> forall|j: int|
            0 <= j < n ==> !bit_matches(bitmap, j, true),
{
    lemma_first_from(bitmap, 0, n as int);
}

/// The first set bit among the bits `i..end` is set and no bit before it is;
/// and where there is none, no bit of them is set.
proof fn lemma_first_from(bitmap: u64, i: int, end: int)
    requires
        0 <= i <= end <= 64,
    ensures
        find_nth_from(bitmap, i, end, 1, true) matches Some(k) ==> i <= k < end && bit_matches(
            bitmap,
            k as int,
            true,
        ) && forall|j: int| i <= j < k ==> !bit_matches(bitmap, j, true),
        find_nth_from(bitmap, i, end, 1, true).is_none() ==> forall|j: int|
            i <= j < end ==> !bit_matches(bitmap, j, true),
    decreases end - i,
{
    if i < end {
        lemma_first_from(bitmap, i + 1, end);
    }
}

/// A map whose set bits below `n` are all set in another map has no more set
/// bits below `n` than the other.
pub proof fn lemma_count_subset(a: u64, b: u64, n: int)
    requires
        0 <= n <= 64,
        forall|j: int| 0 <= j < n ==> (#[trigger] bit_matches(a, j, true) ==> bit_matches(b, j, true)),
    ensures
        count_matches(a, 0, n, true) <= count_matches(b, 0, n, true),
    decreases n,
{
    if n > 0 {
        lemma_count_subset(a, b, n - 1);
    }
}

/// A map whose set bits below `n` are all set in another map, and which
/// lacks a bit below `n` that the other has, has fewer set bits below `n`.
pub proof fn lemma_count_strict_subset(a: u64, b: u64, n: int, k: int)
    requires
        0 <= k < n <= 64,
        forall|j: int| 0 <= j < n ==> (#[trigger] bit_matches(a, j, true) ==> bit_matches(b, j, true)),
        bit_matches(b, k, true),
        !bit_matches(a, k, true),
    ensures
        count_matches(a, 0, n, true) < count_matches(b, 0, n, true),
    decreases n,
{
    if k == n - 1 {
        lemma_count_subset(a, b, n - 1);
    } else {
        lemma_count_strict_subset(a, b, n - 1, k);
    }
}

} // verus!
