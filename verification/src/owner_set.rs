//! The owner-set delta: applying a proposal's additions and removals to a
//! space's current owner set, `(owners ∪ add_owners) \ remove_owners`, with
//! the current order kept and fresh owners appended in proposal order.

use vstd::prelude::*;
use crate::types::unique;
use crate::util::vec_contains;

verus! {

/// `s` with every member of `remove` dropped, order kept.
pub open spec fn remove_all(s: Seq<u64>, remove: Seq<u64>) -> Seq<u64>
    decreases s.len(),
{
    if s.len() == 0 {
        Seq::empty()
    } else {
        let prefix = remove_all(s.drop_last(), remove);
        if remove.contains(s.last()) {
            prefix
        } else {
            prefix.push(s.last())
        }
    }
}

/// `base` with every member of `add` appended, in order, that is neither in
/// `remove` nor already present.
pub open spec fn add_missing(base: Seq<u64>, add: Seq<u64>, remove: Seq<u64>) -> Seq<u64>
    decreases add.len(),
{
    if add.len() == 0 {
        base
    } else {
        let prefix = add_missing(base, add.drop_last(), remove);
        if remove.contains(add.last()) || prefix.contains(add.last()) {
            prefix
        } else {
            prefix.push(add.last())
        }
    }
}

/// The owner set after a change executes: `(owners ∪ add) \ remove`.
pub open spec fn new_owner_seq(owners: Seq<u64>, add: Seq<u64>, remove: Seq<u64>) -> Seq<u64> {
    add_missing(remove_all(owners, remove), add, remove)
}

/// The threshold a proposal asks for: the replacement if present, else the
/// space's current one.
pub open spec fn effective_threshold(new_threshold: Option<u16>, current: u16) -> u16 {
    match new_threshold {
        Some(t) => t,
        None => current,
    }
}

/// The proposal touches the owner set: some addition is not yet an owner, or
/// some removal is one.
pub open spec fn updates_owners(owners: Seq<u64>, add: Seq<u64>, remove: Seq<u64>) -> bool {
    ||| exists|i: int| 0 <= i < add.len() && !owners.contains(#[trigger] add[i])
    ||| exists|i: int| 0 <= i < remove.len() && owners.contains(#[trigger] remove[i])
}

/// The proposal changes something: the owner set, or the threshold.
pub open spec fn updates_fields(
    owners: Seq<u64>,
    add: Seq<u64>,
    remove: Seq<u64>,
    new_threshold: Option<u16>,
    current: u16,
) -> bool {
    ||| updates_owners(owners, add, remove)
    ||| (new_threshold matches Some(t) && t != current)
}

pub proof fn lemma_push_membership(t: Seq<u64>, e: u64)
    ensures
        forall|y: u64| t.push(e).contains(y) <==> (t.contains(y) || y == e),
{
    assert forall|y: u64| t.push(e).contains(y) implies (t.contains(y) || y == e) by {
        let k = choose|k: int| 0 <= k < t.push(e).len() && t.push(e)[k] == y;
        if k < t.len() {
            assert(t[k] == y);
        }
    }
    assert forall|y: u64| t.contains(y) || y == e implies t.push(e).contains(y) by {
        if y == e {
            assert(t.push(e)[t.len() as int] == y);
        } else {
            let k = choose|k: int| 0 <= k < t.len() && t[k] == y;
            assert(t.push(e)[k] == y);
        }
    }
}

pub proof fn lemma_push_unique(t: Seq<u64>, e: u64)
    requires
        unique(t),
        !t.contains(e),
    ensures
        unique(t.push(e)),
{
    assert forall|p: int, q: int| 0 <= p < q < t.push(e).len() implies t.push(e)[p] != t.push(
        e,
    )[q] by {
        if q < t.len() {
            assert(t[p] != t[q]);
        } else {
            assert(t.push(e)[q] == e);
            assert(t.push(e)[p] == t[p]);
            assert(t.contains(t[p]));
        }
    }
}

pub proof fn lemma_drop_last_membership(s: Seq<u64>)
    requires
        s.len() > 0,
    ensures
        forall|y: u64| s.contains(y) <==> (s.drop_last().contains(y) || s.last() == y),
{
    assert forall|y: u64| s.contains(y) implies (s.drop_last().contains(y) || s.last() == y) by {
        let k = choose|k: int| 0 <= k < s.len() && s[k] == y;
        if k < s.len() - 1 {
            assert(s.drop_last()[k] == y);
        }
    }
    assert forall|y: u64| s.drop_last().contains(y) || s.last() == y implies s.contains(y) by {
        if s.drop_last().contains(y) {
            let k = choose|k: int| 0 <= k < s.drop_last().len() && s.drop_last()[k] == y;
            assert(s[k] == y);
        } else {
            assert(s[s.len() - 1] == y);
        }
    }
}

/// What `remove_all` keeps: exactly the members of `s` outside `remove`;
/// a duplicate-free input stays duplicate-free.
pub proof fn lemma_remove_all_membership(s: Seq<u64>, remove: Seq<u64>)
    ensures
        forall|y: u64| remove_all(s, remove).contains(y) <==> (s.contains(y) && !remove.contains(
            y,
        )),
        unique(s) ==> unique(remove_all(s, remove)),
    decreases s.len(),
{
    if s.len() == 0 {
        assert(forall|y: u64| !s.contains(y));
        assert(forall|y: u64| !remove_all(s, remove).contains(y));
    } else {
        let d = s.drop_last();
        let e = s.last();
        let prefix = remove_all(d, remove);
        lemma_remove_all_membership(d, remove);
        lemma_drop_last_membership(s);
        if !remove.contains(e) {
            lemma_push_membership(prefix, e);
        }
        if unique(s) {
            assert(unique(d)) by {
                assert(forall|p: int, q: int| 0 <= p < q < d.len() ==> s[p] == d[p] && s[q] == d[q]);
            }
            if !remove.contains(e) {
                assert(!d.contains(e)) by {
                    if d.contains(e) {
                        let k = choose|k: int| 0 <= k < d.len() && d[k] == e;
                        assert(s[k] == s[s.len() - 1]);
                    }
                }
                lemma_push_unique(prefix, e);
            }
        }
    }
}

/// What `add_missing` produces: the members of `base` plus those of `add`
/// outside `remove`; a duplicate-free base stays duplicate-free.
pub proof fn lemma_add_missing_membership(base: Seq<u64>, add: Seq<u64>, remove: Seq<u64>)
    ensures
        forall|y: u64| add_missing(base, add, remove).contains(y) <==> (base.contains(y) || (
        add.contains(y) && !remove.contains(y))),
        unique(base) ==> unique(add_missing(base, add, remove)),
    decreases add.len(),
{
    if add.len() == 0 {
        assert(forall|y: u64| !add.contains(y));
    } else {
        let d = add.drop_last();
        let e = add.last();
        let prefix = add_missing(base, d, remove);
        lemma_add_missing_membership(base, d, remove);
        lemma_drop_last_membership(add);
        if !remove.contains(e) && !prefix.contains(e) {
            lemma_push_membership(prefix, e);
            if unique(base) {
                lemma_push_unique(prefix, e);
            }
        }
    }
}

/// Combined form for `new_owner_seq`.
pub proof fn lemma_new_owner_seq_membership(owners: Seq<u64>, add: Seq<u64>, remove: Seq<u64>)
    ensures
        forall|y: u64| new_owner_seq(owners, add, remove).contains(y) <==> ((owners.contains(y)
            || add.contains(y)) && !remove.contains(y)),
        unique(owners) ==> unique(new_owner_seq(owners, add, remove)),
{
    lemma_remove_all_membership(owners, remove);
    lemma_add_missing_membership(remove_all(owners, remove), add, remove);
}

/// A proposal that touches no owner (every addition already an owner, no
/// removal an owner) leaves the owner sequence exactly as it stands.
pub proof fn lemma_new_owner_seq_noop(owners: Seq<u64>, add: Seq<u64>, remove: Seq<u64>)
    requires
        forall|i: int| 0 <= i < add.len() ==> owners.contains(#[trigger] add[i]),
        forall|i: int| 0 <= i < remove.len() ==> !owners.contains(#[trigger] remove[i]),
    ensures
        new_owner_seq(owners, add, remove) == owners,
{
    lemma_remove_all_noop(owners, remove);
    lemma_add_missing_noop(owners, add, remove);
}

proof fn lemma_remove_all_noop(s: Seq<u64>, remove: Seq<u64>)
    requires
        forall|i: int| 0 <= i < remove.len() ==> !s.contains(#[trigger] remove[i]),
    ensures
        remove_all(s, remove) == s,
    decreases s.len(),
{
    if s.len() > 0 {
        let d = s.drop_last();
        lemma_drop_last_membership(s);
        assert forall|i: int| 0 <= i < remove.len() implies !d.contains(#[trigger] remove[i]) by {
            assert(!s.contains(remove[i]));
        }
        lemma_remove_all_noop(d, remove);
        assert(!remove.contains(s.last())) by {
            if remove.contains(s.last()) {
                let k = choose|k: int| 0 <= k < remove.len() && remove[k] == s.last();
                assert(s.contains(s.last()));
            }
        }
        assert(remove_all(s, remove) =~= s);
    } else {
        assert(remove_all(s, remove) =~= s);
    }
}

proof fn lemma_add_missing_noop(base: Seq<u64>, add: Seq<u64>, remove: Seq<u64>)
    requires
        forall|i: int| 0 <= i < add.len() ==> base.contains(#[trigger] add[i]),
    ensures
        add_missing(base, add, remove) == base,
    decreases add.len(),
{
    if add.len() > 0 {
        let d = add.drop_last();
        assert forall|i: int| 0 <= i < d.len() implies base.contains(#[trigger] d[i]) by {
            assert(d[i] == add[i]);
        }
        lemma_add_missing_noop(base, d, remove);
        assert(base.contains(add.last())) by {
            assert(base.contains(add[add.len() - 1]));
        }
    }
}

/// Computes `new_owner_seq` of the three vectors.
#[verifier::loop_isolation(false)]
pub fn compute_new_owners(owners: &Vec<u64>, add: &Vec<u64>, remove: &Vec<u64>) -> (r: Vec<u64>)
    ensures
        r@ == new_owner_seq(owners@, add@, remove@),
{
    let mut r: Vec<u64> = Vec::new();
    let mut i: usize = 0;
    while i < owners.len()
        invariant
            i <= owners@.len(),
            r@ == remove_all(owners@.take(i as int), remove@),
        decreases owners@.len() - i,
    {
        proof {
            assert(owners@.take(i as int + 1).drop_last() =~= owners@.take(i as int));
            assert(owners@.take(i as int + 1).last() == owners@[i as int]);
        }
        if !vec_contains(remove, owners[i]) {
            r.push(owners[i]);
        }
        i += 1;
    }
    assert(owners@.take(owners@.len() as int) =~= owners@);
    let ghost base = remove_all(owners@, remove@);
    let mut j: usize = 0;
    while j < add.len()
        invariant
            j <= add@.len(),
            r@ == add_missing(base, add@.take(j as int), remove@),
        decreases add@.len() - j,
    {
        proof {
            assert(add@.take(j as int + 1).drop_last() =~= add@.take(j as int));
            assert(add@.take(j as int + 1).last() == add@[j as int]);
        }
        let a = add[j];
        if !vec_contains(remove, a) && !vec_contains(&r, a) {
            r.push(a);
        }
        j += 1;
    }
    assert(add@.take(add@.len() as int) =~= add@);
    r
}

/// Decides whether the proposal touches the owner set.
#[verifier::loop_isolation(false)]
pub fn updates_owner_set(owners: &Vec<u64>, add: &Vec<u64>, remove: &Vec<u64>) -> (b: bool)
    ensures
        b == updates_owners(owners@, add@, remove@),
{
    let mut i: usize = 0;
    while i < add.len()
        invariant
            i <= add@.len(),
            forall|k: int| 0 <= k < i ==> owners@.contains(#[trigger] add@[k]),
        decreases add@.len() - i,
    {
        if !vec_contains(owners, add[i]) {
            return true;
        }
        i += 1;
    }
    let mut j: usize = 0;
    while j < remove.len()
        invariant
            j <= remove@.len(),
            forall|k: int| 0 <= k < j ==> !owners@.contains(#[trigger] remove@[k]),
        decreases remove@.len() - j,
    {
        if vec_contains(owners, remove[j]) {
            return true;
        }
        j += 1;
    }
    false
}

} // verus!
