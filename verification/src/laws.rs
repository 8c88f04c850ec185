//! The engine's governing laws, proved once and for all states: uniqueness of
//! the pending change, the exact success condition of space creation, the
//! rejection of empty proposals and repeated work, single execution, and the
//! finality of cancellation.

use vstd::prelude::*;
use crate::types::{Error, unique};
use crate::state::MultiOwnership;
use crate::create::create_space_owners_err;
use crate::propose::propose_change_err;
use crate::confirm::{
    confirm_change_err, confirm_change_executed_ok, confirm_change_recorded_ok, confirm_executes,
};
use crate::cancel::{cancel_change_err, cancel_change_ok};
use crate::owner_set::{lemma_new_owner_seq_noop, lemma_push_membership};

verus! {

/// On a fresh space, under the least owner count of 1, `create_space_owners`
/// succeeds exactly when `1 <= threshold <= |owners| <= max_space_owners` and
/// the owner list is duplicate-free.
pub proof fn lemma_create_space_owners_succeeds_iff(
    s: MultiOwnership,
    space_id: u64,
    owners: Seq<u64>,
    threshold: u16,
)
    requires
        s.wf(),
        !s.spaces@.contains_key(space_id),
        s.config.min_space_owners == 1,
    ensures
        create_space_owners_err(s, space_id, owners, threshold) is None <==> (1 <= threshold
            && threshold as int <= owners.len() && owners.len()
            <= s.config.max_space_owners as int && unique(owners)),
{
}

/// A space has at most one pending change: two pending changes that target
/// the same space are the same change.
pub proof fn lemma_at_most_one_pending_per_space(s: MultiOwnership, c1: u64, c2: u64)
    requires
        s.wf(),
        s.pending_ids@.contains(c1),
        s.pending_ids@.contains(c2),
        s.changes@[c1].space_id == s.changes@[c2].space_id,
    ensures
        c1 == c2,
{
    let k1 = choose|k: int| 0 <= k < s.pending_ids@.len() && s.pending_ids@[k] == c1;
    let k2 = choose|k: int| 0 <= k < s.pending_ids@.len() && s.pending_ids@[k] == c2;
    assert(s.pending_by_space@[s.changes@[c1].space_id] == c1);
    assert(s.pending_by_space@[s.changes@[c2].space_id] == c2);
}

/// While a space has a pending change, every further proposal by an owner
/// fails `PendingChangeAlreadyExists`.
pub proof fn lemma_second_propose_fails(
    s: MultiOwnership,
    caller: u64,
    space_id: u64,
    add_owners: Seq<u64>,
    remove_owners: Seq<u64>,
    new_threshold: Option<u16>,
    notes: Seq<u8>,
)
    requires
        s.wf(),
        s.is_space_owner(caller, space_id),
        s.pending_by_space@.contains_key(space_id),
    ensures
        propose_change_err(s, caller, space_id, add_owners, remove_owners, new_threshold, notes)
            == Some(Error::PendingChangeAlreadyExists),
{
}

/// A proposal that leaves the owner set untouched (every addition already an
/// owner, no removal an owner) and carries no new threshold — or the current
/// one — always fails `NoFieldsUpdatedOnProposal`.
pub proof fn lemma_noop_propose_fails(
    s: MultiOwnership,
    caller: u64,
    space_id: u64,
    add_owners: Seq<u64>,
    remove_owners: Seq<u64>,
    new_threshold: Option<u16>,
    notes: Seq<u8>,
)
    requires
        s.wf(),
        s.is_space_owner(caller, space_id),
        !s.pending_by_space@.contains_key(space_id),
        forall|i: int|
            0 <= i < add_owners.len() ==> s.spaces@[space_id].owners@.contains(
                #[trigger] add_owners[i],
            ),
        forall|i: int|
            0 <= i < remove_owners.len() ==> !s.spaces@[space_id].owners@.contains(
                #[trigger] remove_owners[i],
            ),
        new_threshold is Some ==> new_threshold == Some(s.spaces@[space_id].threshold),
    ensures
        propose_change_err(s, caller, space_id, add_owners, remove_owners, new_threshold, notes)
            == Some(Error::NoFieldsUpdatedOnProposal),
{
    let so = s.spaces@[space_id];
    assert(so.wf(s.config, space_id));
    lemma_new_owner_seq_noop(so.owners@, add_owners, remove_owners);
}

/// Confirming the same change twice with the same caller fails: after a
/// recorded (non-executing) confirmation, the same caller's next attempt
/// fails `ChangeAlreadyConfirmed`.
pub proof fn lemma_confirm_twice_fails(
    pre: MultiOwnership,
    mid: MultiOwnership,
    caller: u64,
    space_id: u64,
    change_id: u64,
)
    requires
        pre.wf(),
        confirm_change_err(pre, caller, space_id, change_id) is None,
        confirm_change_recorded_ok(pre, mid, caller, space_id, change_id),
    ensures
        confirm_change_err(mid, caller, space_id, change_id) == Some(
            Error::ChangeAlreadyConfirmed,
        ),
{
    assert(mid.pending_of(space_id) == Some(change_id));
    lemma_push_membership(pre.changes@[change_id].confirmed_by@, caller);
    assert(mid.changes@[change_id].confirmed_by@.contains(caller));
}

/// The confirmation count of a pending change is monotone: a recorded
/// confirmation raises it by exactly one.
pub proof fn lemma_confirm_count_monotone(
    pre: MultiOwnership,
    post: MultiOwnership,
    caller: u64,
    space_id: u64,
    change_id: u64,
)
    requires
        confirm_change_recorded_ok(pre, post, caller, space_id, change_id),
    ensures
        post.changes@[change_id].confirmed_by@.len() == pre.changes@[change_id].confirmed_by@.len()
            + 1,
{
}

/// A change executes exactly once, at the confirmation that first reaches the
/// space's current threshold. Afterwards the record stays retrievable by id
/// but is gone from the pending index, stands in the space's executed
/// history — and no further confirmation of it can succeed against any space.
pub proof fn lemma_change_executes_once(
    pre: MultiOwnership,
    post: MultiOwnership,
    caller: u64,
    space_id: u64,
    change_id: u64,
)
    requires
        pre.wf(),
        confirm_change_err(pre, caller, space_id, change_id) is None,
        confirm_executes(pre, space_id, change_id),
        confirm_change_executed_ok(pre, post, caller, space_id, change_id),
    ensures
        post.changes@.contains_key(change_id),
        !post.pending_ids@.contains(change_id),
        post.executed_ids(space_id).contains(change_id),
        forall|c: u64, s: u64| #[trigger]
            confirm_change_err(post, c, s, change_id) is Some,
{
    lemma_push_membership(pre.executed_ids(space_id), change_id);
    assert(post.executed_ids(space_id).contains(change_id));
    assert forall|c: u64, s: u64| #[trigger]
        confirm_change_err(post, c, s, change_id) is Some by {
        if post.pending_of(s) == Some(change_id) {
            assert(post.pending_by_space@.contains_key(s));
            assert(s != space_id);
            assert(pre.pending_by_space@.contains_key(s));
            assert(pre.pending_by_space@[s] == change_id);
            assert(pre.changes@[change_id].space_id == s);
            assert(pre.changes@[change_id].space_id == space_id);
        }
    }
}

/// Cancelling is the proposer's alone: any other owner's attempt fails
/// `NotAChangeCreator`.
pub proof fn lemma_cancel_only_proposer(
    s: MultiOwnership,
    caller: u64,
    space_id: u64,
    change_id: u64,
)
    requires
        s.wf(),
        s.pending_of(space_id) == Some(change_id),
        s.spaces@[space_id].owners@.contains(caller),
        s.changes@[change_id].confirmed_by@[0] != caller,
    ensures
        cancel_change_err(s, caller, space_id, change_id) == Some(Error::NotAChangeCreator),
{
}

/// After a cancel the change id is unresolvable: the record is deleted, the
/// id absent from the pending set and from every space's executed history.
pub proof fn lemma_cancel_deletes_change(
    pre: MultiOwnership,
    post: MultiOwnership,
    caller: u64,
    space_id: u64,
    change_id: u64,
)
    requires
        pre.wf(),
        cancel_change_err(pre, caller, space_id, change_id) is None,
        cancel_change_ok(pre, post, space_id, change_id),
    ensures
        !post.changes@.contains_key(change_id),
        !post.pending_ids@.contains(change_id),
        forall|sid: u64| !#[trigger] post.executed_ids(sid).contains(change_id),
{
    assert(pre.pending_by_space@.contains_key(space_id));
    assert(pre.pending_ids@.contains(change_id));
    assert(pre.changes@[change_id].space_id == space_id);
    assert forall|sid: u64| !#[trigger] post.executed_ids(sid).contains(change_id) by {
        assert(post.executed_ids(sid) == pre.executed_ids(sid));
        if pre.executed_ids(sid).contains(change_id) {
            assert(pre.changes@.contains_key(change_id));
            assert(pre.changes@[change_id].space_id == sid);
            assert(sid == space_id);
            assert(!pre.executed_ids(space_id).contains(change_id));
        }
    }
}

} // verus!
