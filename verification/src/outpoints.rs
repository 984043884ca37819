//! A set of outpoints (transaction id and output index), held in a vector without duplicates.

use vstd::prelude::*;
use crate::model::Txid;

verus! {

/// An output of a transaction: its transaction's id and its index.
pub type Outpoint = (Txid, u32);

/// Whether the set holds the outpoint.
pub fn outpoints_contain(v: &Vec<Outpoint>, x: Outpoint) -> (r: bool)
    ensures
        r == v@.contains(x),
{
    let n = v.len();
    for i in 0..n
        invariant
            n == v@.len(),
            forall|k: int| 0 <= k < i ==> v@[k] != x,
    {
        if v[i].0 == x.0 && v[i].1 == x.1 {
            assert(v@[i as int] == x);
            return true;
        }
    }
    false
}

/// Removes an outpoint from the set, returning whether it was present (as `HashSet::take`
/// reports it).
pub fn take_outpoint(v: &mut Vec<Outpoint>, x: Outpoint) -> (r: bool)
    requires
        old(v)@.no_duplicates(),
    ensures
        r == old(v)@.to_set().contains(x),
        final(v)@.no_duplicates(),
        final(v)@.to_set() == old(v)@.to_set().remove(x),
{
    let ghost s0 = v@;
    let n = v.len();
    for i in 0..n
        invariant
            n == v@.len(),
            v@ == s0,
            s0 == old(v)@,
            s0.no_duplicates(),
            forall|k: int| 0 <= k < i ==> s0[k] != x,
    {
        if v[i].0 == x.0 && v[i].1 == x.1 {
            assert(s0[i as int] == x);
            assert(s0.contains(x));
            v.remove(i);
            proof {
                let s1 = v@;
                assert(s1 =~= s0.remove(i as int));
                assert forall|a: int, b: int| 0 <= a < b < s1.len() implies s1[a] != s1[b] by {
                    let a0 = if a < i { a } else { a + 1 };
                    let b0 = if b < i { b } else { b + 1 };
                    assert(s1[a] == s0[a0]);
                    assert(s1[b] == s0[b0]);
                }
                assert forall|y: Outpoint| s1.to_set().contains(y) == s0.to_set().remove(x).contains(y) by {
                    if s1.contains(y) {
                        let k = choose|k: int| 0 <= k < s1.len() && s1[k] == y;
                        let k0 = if k < i { k } else { k + 1 };
                        assert(s0[k0] == y);
                        assert(y != x);
                    }
                    if s0.contains(y) && y != x {
                        let k = choose|k: int| 0 <= k < s0.len() && s0[k] == y;
                        assert(k != i);
                        let k1 = if k < i { k } else { k - 1 };
                        assert(s1[k1] == y);
                    }
                }
                assert(s1.to_set() =~= s0.to_set().remove(x));
            }
            return true;
        }
    }
    proof {
        assert(!s0.contains(x));
        assert(s0.to_set() =~= s0.to_set().remove(x));
    }
    false
}

/// Adds an outpoint to the set.
pub fn insert_outpoint(v: &mut Vec<Outpoint>, x: Outpoint)
    requires
        old(v)@.no_duplicates(),
    ensures
        final(v)@.no_duplicates(),
        final(v)@.to_set() == old(v)@.to_set().insert(x),
{
    if outpoints_contain(v, x) {
        proof {
            assert(v@.to_set() =~= v@.to_set().insert(x));
        }
    } else {
        let ghost s0 = v@;
        v.push(x);
        proof {
            let s1 = v@;
            assert(s1 =~= s0.push(x));
            assert forall|a: int, b: int| 0 <= a < b < s1.len() implies s1[a] != s1[b] by {
                if b == s0.len() {
                    assert(s0.contains(s1[a]));
                }
            }
            assert forall|y: Outpoint| s1.to_set().contains(y) == s0.to_set().insert(x).contains(y) by {
                if s1.contains(y) {
                    let k = choose|k: int| 0 <= k < s1.len() && s1[k] == y;
                    if k < s0.len() {
                        assert(s0[k] == y);
                    }
                }
                if s0.contains(y) {
                    let k = choose|k: int| 0 <= k < s0.len() && s0[k] == y;
                    assert(s1[k] == y);
                }
                if y == x {
                    assert(s1[s0.len() as int] == x);
                }
            }
            assert(s1.to_set() =~= s0.to_set().insert(x));
        }
    }
}

/// A vector is empty exactly when the set of its elements is.
pub proof fn lemma_to_set_empty(v: Seq<Outpoint>)
    ensures
        (v.len() == 0) == (v.to_set() == Set::<Outpoint>::empty()),
{
    if v.len() == 0 {
        assert(v.to_set() =~= Set::<Outpoint>::empty());
    } else {
        assert(v.to_set().contains(v[0]));
    }
}

} // verus!
