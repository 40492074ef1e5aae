//! Facts on the bits that stand for the members of a modifier set, and on
//! lists of members.

use vstd::prelude::*;

verus! {

/// Whether exactly one bit of `b` is set.
pub open spec fn single_bit(b: u8) -> bool {
    b == 1 || b == 2 || b == 4 || b == 8 || b == 16 || b == 32 || b == 64 || b == 128
}

/// A bit is set in `bits | mask` exactly when it is set in `bits` or is the
/// one bit of `mask`.
pub proof fn lemma_bit_added(bits: u8, mask: u8, b: u8)
    requires
        single_bit(b),
        single_bit(mask),
    ensures
        ((bits | mask) & b == b) == (bits & b == b || mask == b),
{
    assert(((bits | mask) & b == b) == (bits & b == b || mask & b == b)) by (bit_vector)
        requires
            b == 1 || b == 2 || b == 4 || b == 8 || b == 16 || b == 32 || b == 64 || b == 128,
    ;
    assert((mask & b == b) == (mask == b)) by (bit_vector)
        requires
            b == 1 || b == 2 || b == 4 || b == 8 || b == 16 || b == 32 || b == 64 || b == 128,
            mask == 1 || mask == 2 || mask == 4 || mask == 8 || mask == 16 || mask == 32 || mask
                == 64 || mask == 128,
    ;
}

/// No bit is set in 0.
pub proof fn lemma_no_bit(b: u8)
    requires
        b != 0,
    ensures
        0u8 & b != b,
{
    assert(0u8 & b != b) by (bit_vector)
        requires
            b != 0,
    ;
}

/// Two lists one after the other hold what either of them holds.
pub proof fn lemma_concat_contains<T>(a: Seq<T>, b: Seq<T>, x: T)
    ensures
        (a + b).contains(x) <==> a.contains(x) || b.contains(x),
{
    if a.contains(x) {
        let k = choose|k: int| 0 <= k < a.len() && a[k] == x;
        assert((a + b)[k] == x);
    }
    if b.contains(x) {
        let k = choose|k: int| 0 <= k < b.len() && b[k] == x;
        assert((a + b)[a.len() + k] == x);
    }
    if (a + b).contains(x) {
        let k = choose|k: int| 0 <= k < (a + b).len() && (a + b)[k] == x;
        if k < a.len() {
            assert(a[k] == x);
        } else {
            assert(b[k - a.len()] == x);
        }
    }
}

} // verus!
