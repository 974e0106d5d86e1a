//! Machine words read as sets of bit positions.

use vstd::prelude::*;

verus! {

/// Whether bit `i` of a 16-bit word is set.
pub open spec fn in16(w: u16, i: int) -> bool {
    0 <= i < 16 && w & (1u16 << (i as u16)) != 0
}

/// The positions of the set bits of a 16-bit word.
pub open spec fn set16(w: u16) -> Set<int> {
    Set::new(|i: int| in16(w, i))
}

/// Whether bit `i` of a 64-bit word is set.
pub open spec fn in64(w: u64, i: int) -> bool {
    0 <= i < 64 && w & (1u64 << (i as u64)) != 0
}

/// The positions of the set bits of a 64-bit word.
pub open spec fn set64(w: u64) -> Set<int> {
    Set::new(|i: int| in64(w, i))
}

/// The positions `lo <= i < hi`.
pub open spec fn range(lo: int, hi: int) -> Set<int> {
    Set::new(|i: int| lo <= i < hi)
}

/// No bit of the zero word is set, and every other word has one.
pub proof fn lemma_zero16(w: u16)
    ensures
        w == 0 <==> set16(w) == Set::<int>::empty(),
{
    assert(forall|j: u16| #![trigger 1u16 << j] j < 16 ==> 0u16 & (1u16 << j) == 0) by (bit_vector);
    if w == 0 {
        assert(set16(w) =~= Set::<int>::empty());
    } else {
        assert(exists|j: u16| #![trigger 1u16 << j] j < 16 && w & (1u16 << j) != 0) by {
            assert(w & (1u16 << 0) != 0 || w & (1u16 << 1) != 0 || w & (1u16 << 2) != 0 || w & (
            1u16 << 3) != 0 || w & (1u16 << 4) != 0 || w & (1u16 << 5) != 0 || w & (1u16 << 6) != 0
                || w & (1u16 << 7) != 0 || w & (1u16 << 8) != 0 || w & (1u16 << 9) != 0 || w & (1u16
                << 10) != 0 || w & (1u16 << 11) != 0 || w & (1u16 << 12) != 0 || w & (1u16 << 13)
                != 0 || w & (1u16 << 14) != 0 || w & (1u16 << 15) != 0) by (bit_vector)
                requires
                    w != 0,
            ;
        }
        let j = choose|j: u16| #![trigger 1u16 << j] j < 16 && w & (1u16 << j) != 0;
        assert(set16(w).contains(j as int));
    }
}

/// Set union and difference on 16-bit words.
pub proof fn lemma_join16(v: u16, w: u16)
    ensures
        set16(v | w) == set16(v).union(set16(w)),
        set16(v & !w) == set16(v).difference(set16(w)),
{
    assert(forall|j: u16| #![trigger 1u16 << j]
        j < 16 ==> ((v | w) & (1u16 << j) != 0 <==> (v & (1u16 << j) != 0 || w & (1u16 << j) != 0))
            && ((v & !w) & (1u16 << j) != 0 <==> (v & (1u16 << j) != 0 && w & (1u16 << j) == 0)))
        by (bit_vector);
    assert(set16(v | w) =~= set16(v).union(set16(w)));
    assert(set16(v & !w) =~= set16(v).difference(set16(w)));
}

/// A one-bit word holds its one position.
pub proof fn lemma_single16(i: u16)
    requires
        i < 16,
    ensures
        set16(1u16 << i) == set![i as int],
{
    assert(forall|j: u16| #![trigger 1u16 << j]
        j < 16 ==> ((1u16 << i) & (1u16 << j) != 0 <==> i == j)) by (bit_vector)
        requires
            i < 16,
    ;
    assert(set16(1u16 << i) =~= set![i as int]);
}

/// Whether bit `i` of `w` is set.
pub fn contains16(w: u16, i: usize) -> (r: bool)
    requires
        i < 16,
    ensures
        r == set16(w).contains(i as int),
{
    w & (1u16 << i) != 0
}

/// `w` with bit `i` set.
pub fn insert16(w: u16, i: usize) -> (r: u16)
    requires
        i < 16,
    ensures
        set16(r) == set16(w).insert(i as int),
{
    proof {
        lemma_single16(i as u16);
        lemma_join16(w, 1u16 << (i as u16));
        assert(set16(w).union(set![i as int]) =~= set16(w).insert(i as int));
    }
    w | (1u16 << i)
}

/// `w` with bit `i` cleared.
pub fn remove16(w: u16, i: usize) -> (r: u16)
    requires
        i < 16,
    ensures
        set16(r) == set16(w).remove(i as int),
{
    proof {
        lemma_single16(i as u16);
        lemma_join16(w, 1u16 << (i as u16));
        assert(set16(w).difference(set![i as int]) =~= set16(w).remove(i as int));
    }
    w & !(1u16 << i)
}

/// The word with no bit set.
pub proof fn lemma_zero64()
    ensures
        set64(0) == Set::<int>::empty(),
{
    assert(forall|j: u64| #![trigger 1u64 << j] j < 64 ==> 0u64 & (1u64 << j) == 0) by (bit_vector);
    assert(set64(0) =~= Set::<int>::empty());
}

/// Set union and difference on 64-bit words, and when two of them meet.
pub proof fn lemma_join64(v: u64, w: u64)
    ensures
        set64(v | w) == set64(v).union(set64(w)),
        set64(v & !w) == set64(v).difference(set64(w)),
        v & w == 0 <==> set64(v).disjoint(set64(w)),
{
    assert(forall|j: u64| #![trigger 1u64 << j]
        j < 64 ==> ((v | w) & (1u64 << j) != 0 <==> (v & (1u64 << j) != 0 || w & (1u64 << j) != 0))
            && ((v & !w) & (1u64 << j) != 0 <==> (v & (1u64 << j) != 0 && w & (1u64 << j) == 0))
            && ((v & w) & (1u64 << j) != 0 <==> (v & (1u64 << j) != 0 && w & (1u64 << j) != 0)))
        by (bit_vector);
    assert(set64(v | w) =~= set64(v).union(set64(w)));
    assert(set64(v & !w) =~= set64(v).difference(set64(w)));
    assert(set64(v & w) =~= set64(v).intersect(set64(w)));
    if v & w == 0 {
        lemma_zero64();
        assert forall|i: int| !(set64(v).contains(i) && set64(w).contains(i)) by {
            assert(!set64(v & w).contains(i));
        }
    }
    if set64(v).disjoint(set64(w)) && v & w != 0 {
        let x = v & w;
        let j = lemma_some_bit64(x);
        assert(set64(v & w).contains(j as int));
        assert(set64(v).contains(j as int) && set64(w).contains(j as int));
    }
}

/// A nonzero 64-bit word has a set bit.
proof fn lemma_some_bit64(x: u64) -> (j: u64)
    requires
        x != 0,
    ensures
        j < 64,
        x & (1u64 << j) != 0,
{
    lemma_some_bit64_below(x, 64)
}

proof fn lemma_some_bit64_below(x: u64, n: u64) -> (j: u64)
    requires
        x != 0,
        n <= 64,
        n < 64 ==> x < (1u64 << n),
    ensures
        j < 64,
        x & (1u64 << j) != 0,
    decreases n,
{
    assert(n == 0 ==> 1u64 << n == 1) by (bit_vector);
    let k = (n - 1) as u64;
    if x & (1u64 << k) != 0 {
        k
    } else {
        assert(x < (1u64 << k)) by (bit_vector)
            requires
                0 < n <= 64,
                n < 64 ==> x < (1u64 << n),
                k == n - 1,
                x & (1u64 << k) == 0,
        ;
        lemma_some_bit64_below(x, k)
    }
}

/// A run of low bits, shifted up, holds a range of positions.
pub proof fn lemma_run64(start: u64, count: u64)
    requires
        count < 64,
        start < 64,
        start + count <= 64,
    ensures
        (1u64 << count) >= 1,
        set64((((1u64 << count) - 1) as u64) << start) == range(start as int, start + count),
{
    assert(1u64 << count >= 1) by (bit_vector)
        requires
            count < 64,
    ;
    let low = ((1u64 << count) - 1) as u64;
    assert(forall|j: u64| #![trigger 1u64 << j]
        j < 64 ==> ((low << start) & (1u64 << j) != 0 <==> (start <= j && j < start + count)))
        by (bit_vector)
        requires
            count < 64,
            start < 64,
            start + count <= 64,
            low == (1u64 << count) - 1,
    ;
    assert(set64(low << start) =~= range(start as int, start + count));
}

} // verus!
