//! Verified helpers on duplicate-free `u64` vectors and on the reverse
//! ownership index (a map from account to the sorted set of owned spaces).

use vstd::prelude::*;
use std::collections::HashMap;
use crate::types::{strictly_increasing, unique};

verus! {

/// Membership of `x` decides `b`.
#[verifier::loop_isolation(false)]
pub fn vec_contains(v: &Vec<u64>, x: u64) -> (b: bool)
    ensures
        b == v@.contains(x),
{
    let mut i: usize = 0;
    while i < v.len()
        invariant
            i <= v@.len(),
            forall|k: int| 0 <= k < i ==> v@[k] != x,
        decreases v@.len() - i,
    {
        if v[i] == x {
            assert(v@.contains(x)) by {
                assert(v@[i as int] == x);
            }
            return true;
        }
        i += 1;
    }
    false
}

/// Decides whether no element of `v` occurs twice.
#[verifier::loop_isolation(false)]
pub fn vec_is_unique(v: &Vec<u64>) -> (b: bool)
    ensures
        b == unique(v@),
{
    let mut i: usize = 0;
    while i < v.len()
        invariant
            i <= v@.len(),
            forall|p: int, q: int| 0 <= p < q < i ==> v@[p] != v@[q],
        decreases v@.len() - i,
    {
        let mut j: usize = 0;
        while j < i
            invariant
                j <= i,
                forall|p: int| 0 <= p < j ==> v@[p] != v@[i as int],
            decreases i - j,
        {
            if v[j] == v[i] {
                assert(!unique(v@)) by {
                    assert(v@[j as int] == v@[i as int]);
                }
                return false;
            }
            j += 1;
        }
        i += 1;
    }
    true
}

/// Returns a fresh vector with the same contents.
#[verifier::loop_isolation(false)]
pub fn copy_vec(v: &Vec<u64>) -> (r: Vec<u64>)
    ensures
        r@ == v@,
{
    let mut r: Vec<u64> = Vec::new();
    let mut i: usize = 0;
    while i < v.len()
        invariant
            i <= v@.len(),
            r@ == v@.take(i as int),
        decreases v@.len() - i,
    {
        r.push(v[i]);
        assert(r@ =~= v@.take(i as int + 1));
        i += 1;
    }
    assert(r@ =~= v@);
    r
}

/// Inserting at position `i` adds exactly `x` to the members.
pub proof fn lemma_insert_membership(s: Seq<u64>, i: int, x: u64)
    requires
        0 <= i <= s.len(),
    ensures
        forall|y: u64| s.insert(i, x).contains(y) <==> (s.contains(y) || y == x),
{
    let t = s.insert(i, x);
    assert forall|y: u64| t.contains(y) implies (s.contains(y) || y == x) by {
        let k = choose|k: int| 0 <= k < t.len() && t[k] == y;
        if k < i {
            assert(s[k] == y);
        } else if k > i {
            assert(s[k - 1] == y);
        }
    }
    assert forall|y: u64| s.contains(y) || y == x implies t.contains(y) by {
        if y == x {
            assert(t[i] == y);
        } else {
            let k = choose|k: int| 0 <= k < s.len() && s[k] == y;
            if k < i {
                assert(t[k] == y);
            } else {
                assert(t[k + 1] == y);
            }
        }
    }
}

/// Removing position `i` of a strictly increasing sequence removes exactly
/// the member standing there.
pub proof fn lemma_remove_membership(s: Seq<u64>, i: int)
    requires
        strictly_increasing(s),
        0 <= i < s.len(),
    ensures
        forall|y: u64| s.remove(i).contains(y) <==> (s.contains(y) && y != s[i]),
{
    let t = s.remove(i);
    assert forall|y: u64| t.contains(y) implies (s.contains(y) && y != s[i]) by {
        let k = choose|k: int| 0 <= k < t.len() && t[k] == y;
        if k < i {
            assert(s[k] == y);
        } else {
            assert(s[k + 1] == y);
        }
    }
    assert forall|y: u64| s.contains(y) && y != s[i] implies t.contains(y) by {
        let k = choose|k: int| 0 <= k < s.len() && s[k] == y;
        if k < i {
            assert(t[k] == y);
        } else {
            assert(k > i);
            assert(t[k - 1] == y);
        }
    }
}

/// Adds `x` to a sorted duplicate-free vector, keeping it sorted; a no-op
/// when `x` is already present.
#[verifier::loop_isolation(false)]
pub fn insert_sorted(v: &mut Vec<u64>, x: u64)
    requires
        strictly_increasing(old(v)@),
    ensures
        strictly_increasing(final(v)@),
        forall|y: u64| final(v)@.contains(y) <==> (old(v)@.contains(y) || y == x),
{
    let mut i: usize = 0;
    while i < v.len() && v[i] < x
        invariant
            i <= v@.len(),
            forall|k: int| 0 <= k < i ==> v@[k] < x,
        decreases v@.len() - i,
    {
        i += 1;
    }
    if i < v.len() && v[i] == x {
        assert(v@.contains(x)) by {
            assert(v@[i as int] == x);
        }
        return ;
    }
    let ghost s = v@;
    v.insert(i, x);
    proof {
        lemma_insert_membership(s, i as int, x);
        assert(v@ == s.insert(i as int, x));
        assert forall|y: u64| v@.contains(y) <==> (s.contains(y) || y == x) by {
            assert(v@.contains(y) == s.insert(i as int, x).contains(y));
        }
        assert(forall|y: u64| #[trigger] v@.contains(y) <==> (s.contains(y) || y == x));
        assert forall|p: int, q: int| 0 <= p < q < v@.len() implies v@[p] < v@[q] by {
            if q < i {
                assert(v@[p] == s[p] && v@[q] == s[q]);
            } else if p > i {
                assert(v@[p] == s[p - 1] && v@[q] == s[q - 1]);
            } else if p < i && q == i {
                assert(v@[p] == s[p] && v@[q] == x);
            } else if p < i && q > i {
                assert(v@[p] == s[p] && v@[q] == s[q - 1]);
                assert(s[i as int] > x);
                if q - 1 > i {
                    assert(s[q - 1] > s[i as int]);
                }
            } else {
                assert(p == i && q > i);
                assert(v@[p] == x && v@[q] == s[q - 1]);
                assert(s[i as int] > x);
                if q - 1 > i {
                    assert(s[q - 1] > s[i as int]);
                }
            }
        }
    }
}

/// Removes `x` from a sorted duplicate-free vector; a no-op when `x` is
/// absent.
#[verifier::loop_isolation(false)]
pub fn remove_value_sorted(v: &mut Vec<u64>, x: u64)
    requires
        strictly_increasing(old(v)@),
    ensures
        strictly_increasing(final(v)@),
        forall|y: u64| final(v)@.contains(y) <==> (old(v)@.contains(y) && y != x),
{
    let mut i: usize = 0;
    while i < v.len() && v[i] < x
        invariant
            i <= v@.len(),
            forall|k: int| 0 <= k < i ==> v@[k] < x,
        decreases v@.len() - i,
    {
        i += 1;
    }
    if i < v.len() && v[i] == x {
        let ghost s = v@;
        v.remove(i);
        proof {
            lemma_remove_membership(s, i as int);
            assert forall|p: int, q: int| 0 <= p < q < v@.len() implies v@[p] < v@[q] by {
                if q < i {
                    assert(v@[p] == s[p] && v@[q] == s[q]);
                } else if p >= i {
                    assert(v@[p] == s[p + 1] && v@[q] == s[q + 1]);
                } else {
                    assert(v@[p] == s[p] && v@[q] == s[q + 1]);
                }
            }
        }
        return ;
    }
    assert forall|y: u64| v@.contains(y) implies y != x by {
        let k = choose|k: int| 0 <= k < v@.len() && v@[k] == y;
        if k >= i {
            assert(v@[i as int] <= v@[k]);
        }
    }
}

/// In a strictly increasing sequence the entry at position `i` is at least
/// `i`, so such a sequence of ids below a bound is shorter than the bound.
pub proof fn lemma_strictly_increasing_index(s: Seq<u64>, i: int)
    requires
        strictly_increasing(s),
        0 <= i < s.len(),
    ensures
        s[i] >= i,
    decreases i,
{
    if i > 0 {
        lemma_strictly_increasing_index(s, i - 1);
        assert(s[i - 1] < s[i]);
    }
}

/// The reverse index maps an account to the spaces it owns.
pub open spec fn owned_map_owns(m: Map<u64, Vec<u64>>, a: u64, sid: u64) -> bool {
    m.contains_key(a) && m[a]@.contains(sid)
}

/// Every per-account space list of the reverse index is sorted and
/// duplicate-free.
pub open spec fn owned_map_sorted(m: Map<u64, Vec<u64>>) -> bool {
    forall|a: u64| #[trigger] m.contains_key(a) ==> strictly_increasing(m[a]@)
}

/// Records in the reverse index that account `a` owns space `sid`.
pub fn owned_index_insert(owned: &mut HashMap<u64, Vec<u64>>, a: u64, sid: u64)
    requires
        owned_map_sorted(old(owned)@),
    ensures
        owned_map_sorted(final(owned)@),
        forall|x: u64, s: u64|
            #![trigger owned_map_owns(final(owned)@, x, s)]
            #![trigger owned_map_owns(old(owned)@, x, s)]
            owned_map_owns(final(owned)@, x, s) <==> (owned_map_owns(old(owned)@, x, s) || (x == a
                && s == sid)),
{
    let ghost m0 = owned@;
    let mut v: Vec<u64> = match owned.remove(&a) {
        Some(v) => v,
        None => Vec::new(),
    };
    let ghost v0 = v;
    insert_sorted(&mut v, sid);
    let ghost v1 = v;
    owned.insert(a, v);
    proof {
        assert(owned@ =~= m0.insert(a, v1));
        assert forall|x: u64, s: u64|
            owned_map_owns(owned@, x, s) <==> (owned_map_owns(m0, x, s) || (x == a
                && s == sid)) by {
            if x == a {
                assert(owned@[a] == v1);
                if m0.contains_key(a) {
                    assert(v0 == m0[a]);
                } else {
                    assert(v0@.len() == 0);
                }
            } else {
                assert(owned@.contains_key(x) == m0.contains_key(x));
                if m0.contains_key(x) {
                    assert(owned@[x] == m0[x]);
                }
            }
        }
        assert forall|x: u64| #[trigger] owned@.contains_key(x) implies strictly_increasing(
            owned@[x]@,
        ) by {
            if x != a {
                assert(owned@[x] == m0[x]);
            }
        }
    }
}

/// Removes from the reverse index the record that account `a` owns space
/// `sid`.
pub fn owned_index_remove(owned: &mut HashMap<u64, Vec<u64>>, a: u64, sid: u64)
    requires
        owned_map_sorted(old(owned)@),
    ensures
        owned_map_sorted(final(owned)@),
        forall|x: u64, s: u64|
            #![trigger owned_map_owns(final(owned)@, x, s)]
            #![trigger owned_map_owns(old(owned)@, x, s)]
            owned_map_owns(final(owned)@, x, s) <==> (owned_map_owns(old(owned)@, x, s) && !(x == a
                && s == sid)),
{
    let ghost m0 = owned@;
    let mut v: Vec<u64> = match owned.remove(&a) {
        Some(v) => v,
        None => {
            proof {
                assert(owned@ =~= m0);
            }
            return ;
        },
    };
    let ghost v0 = v;
    remove_value_sorted(&mut v, sid);
    let ghost v1 = v;
    owned.insert(a, v);
    proof {
        assert(owned@ =~= m0.insert(a, v1));
        assert(v0 == m0[a]);
        assert forall|x: u64, s: u64|
            owned_map_owns(owned@, x, s) <==> (owned_map_owns(m0, x, s) && !(x == a
                && s == sid)) by {
            if x == a {
                assert(owned@[a] == v1);
            } else {
                assert(owned@.contains_key(x) == m0.contains_key(x));
                if m0.contains_key(x) {
                    assert(owned@[x] == m0[x]);
                }
            }
        }
        assert forall|x: u64| #[trigger] owned@.contains_key(x) implies strictly_increasing(
            owned@[x]@,
        ) by {
            if x != a {
                assert(owned@[x] == m0[x]);
            }
        }
    }
}

} // verus!
