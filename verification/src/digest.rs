//! The order on 32-byte digests by which siblings are sorted before hashing.

use vstd::prelude::*;

verus! {

/// `a` and `b` hold the same bytes at every index below `k`.
pub open spec fn agree_before(a: Seq<u8>, b: Seq<u8>, k: int) -> bool {
    forall|j: int| 0 <= j < k ==> #[trigger] a[j] == b[j]
}

/// `a` comes strictly before `b` in lexicographic order: at the first index
/// where they differ, the byte of `a` is the smaller one.
pub open spec fn lex_lt(a: Seq<u8>, b: Seq<u8>) -> bool {
    exists|k: int|
        0 <= k < a.len() && k < b.len() && agree_before(a, b, k) && #[trigger] a[k] < b[k]
}

/// Lexicographic order on two byte strings of one length.
pub open spec fn lex_le(a: Seq<u8>, b: Seq<u8>) -> bool {
    a =~= b || lex_lt(a, b)
}

/// From any index at which two strings differ, a first such index is found,
/// and it puts one of them strictly before the other.
proof fn lemma_first_difference(a: Seq<u8>, b: Seq<u8>, k: int)
    requires
        a.len() == b.len(),
        0 <= k < a.len(),
        a[k] != b[k],
    ensures
        lex_lt(a, b) || lex_lt(b, a),
    decreases k,
{
    if agree_before(a, b, k) {
        assert(agree_before(b, a, k));
        if a[k] < b[k] {
            assert(lex_lt(a, b));
        } else {
            assert(b[k] < a[k]);
            assert(lex_lt(b, a));
        }
    } else {
        let j: int = choose|j: int| 0 <= j < k && #[trigger] a[j] != b[j];
        lemma_first_difference(a, b, j);
    }
}

/// The order is total: of two strings of one length, one comes before the
/// other or equals it.
pub proof fn lemma_order_total(a: Seq<u8>, b: Seq<u8>)
    requires
        a.len() == b.len(),
    ensures
        lex_le(a, b) || lex_le(b, a),
{
    if !(a =~= b) {
        let k: int = choose|k: int| 0 <= k < a.len() && #[trigger] a[k] != b[k];
        lemma_first_difference(a, b, k);
    }
}

/// The order is antisymmetric: two strings that each come before or equal
/// the other are the same string.
pub proof fn lemma_order_antisymmetric(a: Seq<u8>, b: Seq<u8>)
    requires
        lex_le(a, b),
        lex_le(b, a),
    ensures
        a == b,
{
    if !(a =~= b) {
        let k: int = choose|k: int|
            0 <= k < a.len() && k < b.len() && agree_before(a, b, k) && #[trigger] a[k] < b[k];
        let m: int = choose|m: int|
            0 <= m < b.len() && m < a.len() && agree_before(b, a, m) && #[trigger] b[m] < a[m];
        if k < m {
            assert(b[k] == a[k]);
        } else if m < k {
            assert(a[m] == b[m]);
        }
    }
}

/// Whether `a` comes before `b`, or equals it, in lexicographic byte order.
pub fn digest_le(a: &[u8; 32], b: &[u8; 32]) -> (r: bool)
    ensures
        r == lex_le(a@, b@),
{
    let mut i: usize = 0;
    while i < 32
        invariant
            0 <= i <= 32,
            agree_before(a@, b@, i as int),
        decreases 32 - i,
    {
        if a[i] != b[i] {
            proof {
                let k: int = i as int;
                if a[k] < b[k] {
                    assert(lex_lt(a@, b@));
                } else {
                    assert(a@[k] != b@[k]);
                    assert(!lex_lt(a@, b@)) by {
                        if lex_lt(a@, b@) {
                            let w: int = choose|w: int|
                                0 <= w < a@.len() && w < b@.len() && agree_before(a@, b@, w)
                                    && #[trigger] a@[w] < b@[w];
                            if w < k {
                                assert(a@[w] == b@[w]);
                            } else if w > k {
                                assert(a@[k] == b@[k]);
                            }
                        }
                    }
                }
            }
            return a[i] < b[i];
        }
        i += 1;
    }
    proof {
        assert(a@ =~= b@);
    }
    true
}

/// Whether two digests hold the same bytes.
pub fn digest_eq(a: &[u8; 32], b: &[u8; 32]) -> (r: bool)
    ensures
        r == (*a == *b),
{
    let mut i: usize = 0;
    while i < 32
        invariant
            0 <= i <= 32,
            agree_before(a@, b@, i as int),
        decreases 32 - i,
    {
        if a[i] != b[i] {
            proof {
                assert(a@[i as int] != b@[i as int]);
            }
            return false;
        }
        i += 1;
    }
    proof {
        assert(*a =~= *b);
    }
    true
}

} // verus!
