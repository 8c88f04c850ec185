//! Confirming a pending change, and executing it once the space's current
//! threshold is reached.

use vstd::prelude::*;
use std::collections::HashMap;
use crate::types::{Change, Error, strictly_increasing, unique};
use crate::state::MultiOwnership;
use crate::owner_set::{
    compute_new_owners, effective_threshold, lemma_new_owner_seq_membership, lemma_push_membership,
    new_owner_seq,
};
use crate::util::{
    lemma_strictly_increasing_index, owned_index_insert, owned_index_remove, owned_map_owns,
    owned_map_sorted, remove_value_sorted, vec_contains,
};

verus! {

/// The error `confirm_change` returns on the given state and input, or `None`
/// where it succeeds. Checks run in this order, and the first failing one
/// decides.
pub open spec fn confirm_change_err(
    s: MultiOwnership,
    caller: u64,
    space_id: u64,
    change_id: u64,
) -> Option<Error> {
    if s.pending_of(space_id) != Some(change_id) {
        Some(Error::ChangeNotRelatedToSpace)
    } else if !s.spaces@[space_id].owners@.contains(caller) {
        Some(Error::NotASpaceOwner)
    } else if s.changes@[change_id].confirmed_by@.contains(caller) {
        Some(Error::ChangeAlreadyConfirmed)
    } else {
        None
    }
}

/// This confirmation is the one that reaches the space's current threshold,
/// so the change executes now.
pub open spec fn confirm_executes(
    s: MultiOwnership,
    space_id: u64,
    change_id: u64,
) -> bool {
    s.changes@[change_id].confirmed_by@.len() + 1 >= s.spaces@[space_id].threshold
}

/// `b` is `a` with `caller` appended to `confirmed_by` and every other field
/// untouched.
pub open spec fn confirmed_appended(a: Change, b: Change, caller: u64) -> bool {
    &&& b.id == a.id
    &&& b.space_id == a.space_id
    &&& b.add_owners == a.add_owners
    &&& b.remove_owners == a.remove_owners
    &&& b.new_threshold == a.new_threshold
    &&& b.notes == a.notes
    &&& b.confirmed_by@ == a.confirmed_by@.push(caller)
    &&& b.created_at == a.created_at
    &&& b.expires_at == a.expires_at
}

/// How a successful, non-executing `confirm_change` call relates the state
/// after (`post`) to the state before (`pre`): the caller joins the change's
/// confirmations, and nothing else moves.
pub open spec fn confirm_change_recorded_ok(
    pre: MultiOwnership,
    post: MultiOwnership,
    caller: u64,
    space_id: u64,
    change_id: u64,
) -> bool {
    &&& post.config == pre.config
    &&& post.block_number == pre.block_number
    &&& post.next_id == pre.next_id
    &&& post.spaces@ == pre.spaces@
    &&& post.owned@ == pre.owned@
    &&& post.executed@ == pre.executed@
    &&& post.pending_by_space@ == pre.pending_by_space@
    &&& post.pending_ids@ == pre.pending_ids@
    &&& post.changes@.dom() == pre.changes@.dom()
    &&& forall|c: u64|
        c != change_id && pre.changes@.contains_key(c) ==> post.changes@[c] == pre.changes@[c]
    &&& confirmed_appended(pre.changes@[change_id], post.changes@[change_id], caller)
}

/// How a successful, executing `confirm_change` call relates the state after
/// (`post`) to the state before (`pre`): the caller joins the confirmations;
/// the proposed owner set and threshold replace the space's; the change
/// leaves the pending set and pointer but stays retrievable, its id appended
/// to the space's executed history; the reverse index follows the new owner
/// set.
pub open spec fn confirm_change_executed_ok(
    pre: MultiOwnership,
    post: MultiOwnership,
    caller: u64,
    space_id: u64,
    change_id: u64,
) -> bool {
    let so = pre.spaces@[space_id];
    let ch = pre.changes@[change_id];
    let result_owners = new_owner_seq(so.owners@, ch.add_owners@, ch.remove_owners@);
    let t = effective_threshold(ch.new_threshold, so.threshold);
    &&& post.config == pre.config
    &&& post.block_number == pre.block_number
    &&& post.next_id == pre.next_id
    &&& post.changes@.dom() == pre.changes@.dom()
    &&& forall|c: u64|
        c != change_id && pre.changes@.contains_key(c) ==> post.changes@[c] == pre.changes@[c]
    &&& confirmed_appended(ch, post.changes@[change_id], caller)
    &&& post.spaces@.dom() == pre.spaces@.dom()
    &&& forall|s: u64|
        s != space_id && pre.spaces@.contains_key(s) ==> post.spaces@[s] == pre.spaces@[s]
    &&& post.spaces@[space_id].space_id == space_id
    &&& post.spaces@[space_id].owners@ == result_owners
    &&& post.spaces@[space_id].threshold == t
    &&& post.spaces@[space_id].changes_count == so.changes_count + 1
    &&& post.pending_by_space@ == pre.pending_by_space@.remove(space_id)
    &&& strictly_increasing(post.pending_ids@)
    &&& forall|c: u64|
        #![trigger post.pending_ids@.contains(c)]
        #![trigger pre.pending_ids@.contains(c)]
        post.pending_ids@.contains(c) <==> (pre.pending_ids@.contains(c) && c != change_id)
    &&& post.executed_ids(space_id) == pre.executed_ids(space_id).push(change_id)
    &&& forall|s: u64|
        #![trigger post.executed_ids(s)]
        s != space_id ==> post.executed_ids(s) == pre.executed_ids(s)
    &&& forall|a: u64, s: u64|
        s != space_id ==> (#[trigger] post.owns(a, s) <==> pre.owns(a, s))
    &&& forall|a: u64| #[trigger] post.owns(a, space_id) <==> result_owners.contains(a)
}

/// Rewrites the reverse index of `sid` from one owner set to another, leaving
/// every other space's records alone.
#[verifier::loop_isolation(false)]
fn update_owned_for_space(
    owned: &mut HashMap<u64, Vec<u64>>,
    old_owners: &Vec<u64>,
    new_owners: &Vec<u64>,
    sid: u64,
)
    requires
        owned_map_sorted(old(owned)@),
        forall|a: u64| #[trigger]
            owned_map_owns(old(owned)@, a, sid) ==> old_owners@.contains(a),
    ensures
        owned_map_sorted(final(owned)@),
        forall|a: u64, s: u64|
            s != sid ==> (#[trigger] owned_map_owns(final(owned)@, a, s) <==> owned_map_owns(
                old(owned)@,
                a,
                s,
            )),
        forall|a: u64| #[trigger]
            owned_map_owns(final(owned)@, a, sid) <==> new_owners@.contains(a),
{
    let ghost m0 = owned@;
    let mut i: usize = 0;
    while i < old_owners.len()
        invariant
            owned_map_sorted(owned@),
            i <= old_owners@.len(),
            forall|a: u64, s: u64|
                s != sid ==> (#[trigger] owned_map_owns(owned@, a, s) <==> owned_map_owns(
                    m0,
                    a,
                    s,
                )),
            forall|a: u64| #[trigger]
                owned_map_owns(owned@, a, sid) <==> (owned_map_owns(m0, a, sid) && !(
                old_owners@.take(i as int).contains(a) && !new_owners@.contains(a))),
        decreases old_owners@.len() - i,
    {
        let a = old_owners[i];
        let keep = vec_contains(new_owners, a);
        if !keep {
            owned_index_remove(owned, a, sid);
        }
        proof {
            lemma_push_membership(old_owners@.take(i as int), a);
            assert(old_owners@.take(i as int + 1) =~= old_owners@.take(i as int).push(a));
        }
        i += 1;
    }
    assert(old_owners@.take(old_owners@.len() as int) =~= old_owners@);
    let ghost m1 = owned@;
    let mut j: usize = 0;
    while j < new_owners.len()
        invariant
            owned_map_sorted(owned@),
            j <= new_owners@.len(),
            forall|a: u64, s: u64|
                s != sid ==> (#[trigger] owned_map_owns(owned@, a, s) <==> owned_map_owns(
                    m1,
                    a,
                    s,
                )),
            forall|a: u64| #[trigger]
                owned_map_owns(owned@, a, sid) <==> (owned_map_owns(m1, a, sid)
                    || new_owners@.take(j as int).contains(a)),
        decreases new_owners@.len() - j,
    {
        let a = new_owners[j];
        owned_index_insert(owned, a, sid);
        proof {
            lemma_push_membership(new_owners@.take(j as int), a);
            assert(new_owners@.take(j as int + 1) =~= new_owners@.take(j as int).push(a));
        }
        j += 1;
    }
    assert(new_owners@.take(new_owners@.len() as int) =~= new_owners@);
    assert forall|a: u64| #[trigger]
        owned_map_owns(owned@, a, sid) <==> new_owners@.contains(a) by {
        if owned_map_owns(m1, a, sid) {
            assert(owned_map_owns(m0, a, sid));
            assert(old_owners@.contains(a));
        }
    }
}

impl MultiOwnership {
    /// Confirms the pending change `change_id` of `space_id`. The change must
    /// be the space's pending one, the caller a current owner who has not
    /// confirmed yet. When the confirmations reach the space's current
    /// threshold the change executes: the owner set and threshold are
    /// replaced, the executed count grows, the change leaves the pending
    /// index but stays retrievable, and its id joins the space's history.
    /// Below the threshold it simply records the confirmation. On failure
    /// nothing changes.
    pub fn confirm_change(&mut self, caller: u64, space_id: u64, change_id: u64) -> (r: Result<
        (),
        Error,
    >)
        requires
            old(self).wf(),
        ensures
            final(self).wf(),
            match r {
                Ok(()) => confirm_change_err(*old(self), caller, space_id, change_id) is None && (
                if confirm_executes(*old(self), space_id, change_id) {
                    confirm_change_executed_ok(*old(self), *final(self), caller, space_id,
                    change_id)
                } else {
                    confirm_change_recorded_ok(*old(self), *final(self), caller, space_id,
                    change_id)
                }),
                Err(e) => confirm_change_err(*old(self), caller, space_id, change_id) == Some(e)
                    && *final(self) == *old(self),
            },
    {
        match self.pending_by_space.get(&space_id) {
            Some(cid) => {
                if *cid != change_id {
                    return Err(Error::ChangeNotRelatedToSpace);
                }
            },
            None => {
                return Err(Error::ChangeNotRelatedToSpace);
            },
        }
        let current_threshold = match self.spaces.get(&space_id) {
            Some(so) => {
                if !vec_contains(&so.owners, caller) {
                    return Err(Error::NotASpaceOwner);
                }
                so.threshold
            },
            None => {
                assert(false);
                return Err(Error::ChangeNotRelatedToSpace);
            },
        };
        match self.changes.get(&change_id) {
            Some(ch) => {
                if vec_contains(&ch.confirmed_by, caller) {
                    return Err(Error::ChangeAlreadyConfirmed);
                }
            },
            None => {
                assert(false);
                return Err(Error::ChangeNotRelatedToSpace);
            },
        }
        let ghost pre = *self;
        let mut ch = match self.changes.remove(&change_id) {
            Some(c) => c,
            None => {
                assert(false);
                return Err(Error::ChangeNotRelatedToSpace);
            },
        };
        ch.confirmed_by.push(caller);
        proof {
            lemma_push_membership(pre.changes@[change_id].confirmed_by@, caller);
            crate::owner_set::lemma_push_unique(pre.changes@[change_id].confirmed_by@, caller);
        }
        if ch.confirmed_by.len() >= current_threshold as usize {
            self.execute_change(Ghost(pre), ch, caller, space_id, change_id);
        } else {
            self.changes.insert(change_id, ch);
            proof {
                let post = *self;
                assert(post.changes@.dom() =~= pre.changes@.dom());
                assert(forall|sid: u64| #[trigger] post.executed_ids(sid) == pre.executed_ids(
                    sid,
                ));
                assert forall|a: u64, s: u64| #[trigger]
                    post.owns(a, s) implies post.is_space_owner(a, s) by {
                    assert(pre.owns(a, s));
                }
                assert forall|a: u64, s: u64| #[trigger]
                    post.is_space_owner(a, s) implies post.owns(a, s) by {
                    assert(pre.is_space_owner(a, s));
                    assert(pre.owns(a, s));
                }
                assert forall|sid: u64| #[trigger]
                    post.pending_by_space@.contains_key(sid) implies post.pending_executable(
                    sid,
                ) by {
                    assert(pre.pending_executable(sid));
                    assert(post.executed_ids(sid) == pre.executed_ids(sid));
                    if pre.pending_by_space@[sid] != change_id {
                        assert(post.changes@[pre.pending_by_space@[sid]] == pre.changes@[
                        pre.pending_by_space@[sid]]);
                    }
                }
                assert forall|c: u64| #[trigger]
                    post.changes@.contains_key(c) implies (post.pending_ids@.contains(c)
                    <==> !post.executed_ids(post.changes@[c].space_id).contains(c)) by {
                    assert(pre.changes@.contains_key(c));
                    assert(post.changes@[c].space_id == pre.changes@[c].space_id);
                    assert(post.executed_ids(post.changes@[c].space_id) == pre.executed_ids(
                        pre.changes@[c].space_id,
                    ));
                }
                assert forall|sid: u64| #[trigger]
                    post.spaces@.contains_key(sid) implies post.spaces@[sid].changes_count
                    == post.executed_ids(sid).len() by {
                    assert(post.executed_ids(sid) == pre.executed_ids(sid));
                }
                assert forall|sid: u64| strictly_increasing(#[trigger] post.executed_ids(
                    sid,
                )) by {
                    assert(post.executed_ids(sid) == pre.executed_ids(sid));
                }
                assert forall|sid: u64, j: int|
                    0 <= j < post.executed_ids(sid).len() implies {
                    let c = #[trigger] post.executed_ids(sid)[j];
                    &&& post.changes@.contains_key(c)
                    &&& post.changes@[c].space_id == sid
                } by {
                    assert(post.executed_ids(sid) == pre.executed_ids(sid));
                    let c = pre.executed_ids(sid)[j];
                    assert(pre.changes@.contains_key(c) && pre.changes@[c].space_id == sid);
                    assert(c != change_id || post.changes@[c].space_id == pre.changes@[
                    c].space_id);
                }
            }
        }
        Ok(())
    }

    /// Applies an executing change: installs the new owner set and threshold,
    /// moves the change from the pending index to the executed history, and
    /// rewrites the reverse index.
    #[verifier::loop_isolation(false)]
    fn execute_change(
        &mut self,
        Ghost(pre): Ghost<MultiOwnership>,
        ch: Change,
        caller: u64,
        space_id: u64,
        change_id: u64,
    )
        requires
            pre.wf(),
            pre.pending_of(space_id) == Some(change_id),
            confirmed_appended(pre.changes@[change_id], ch, caller),
            !pre.changes@[change_id].confirmed_by@.contains(caller),
            old(self).config == pre.config,
            old(self).block_number == pre.block_number,
            old(self).next_id == pre.next_id,
            old(self).spaces == pre.spaces,
            old(self).owned == pre.owned,
            old(self).pending_ids == pre.pending_ids,
            old(self).pending_by_space == pre.pending_by_space,
            old(self).executed == pre.executed,
            old(self).changes@ == pre.changes@.remove(change_id),
        ensures
            final(self).wf(),
            confirm_change_executed_ok(pre, *final(self), caller, space_id, change_id),
    {
        let mut so = match self.spaces.remove(&space_id) {
            Some(so) => so,
            None => {
                assert(false);
                vstd::pervasive::unreached()
            },
        };
        let new_owners = compute_new_owners(&so.owners, &ch.add_owners, &ch.remove_owners);
        proof {
            assert(pre.pending_executable(space_id));
            lemma_new_owner_seq_membership(so.owners@, ch.add_owners@, ch.remove_owners@);
            assert forall|a: u64| #[trigger]
                owned_map_owns(self.owned@, a, space_id) implies so.owners@.contains(a) by {
                assert(pre.owns(a, space_id));
                assert(pre.is_space_owner(a, space_id));
            }
        }
        update_owned_for_space(&mut self.owned, &so.owners, &new_owners, space_id);
        let new_threshold = match ch.new_threshold {
            Some(t) => t,
            None => so.threshold,
        };
        proof {
            // the history is strictly increasing below change_id, so its
            // length (the executed count) stays below the id range
            let hist = pre.executed_ids(space_id);
            if hist.len() > 0 {
                lemma_strictly_increasing_index(hist, hist.len() - 1);
                assert(hist[hist.len() - 1] < change_id);
            }
            assert(so.changes_count == hist.len());
            assert(so.changes_count < u64::MAX);
        }
        let ghost old_so = so;
        so.owners = new_owners;
        so.threshold = new_threshold;
        so.changes_count = so.changes_count + 1;
        self.spaces.insert(space_id, so);
        self.pending_by_space.remove(&space_id);
        remove_value_sorted(&mut self.pending_ids, change_id);
        let mut hist = match self.executed.remove(&space_id) {
            Some(v) => v,
            None => Vec::new(),
        };
        let ghost hist0 = hist@;
        hist.push(change_id);
        self.executed.insert(space_id, hist);
        self.changes.insert(change_id, ch);
        proof {
            let post = *self;
            assert(hist0 == pre.executed_ids(space_id)) by {
                if !pre.executed@.contains_key(space_id) {
                    assert(pre.executed_ids(space_id) == Seq::<u64>::empty());
                }
            }
            assert(post.executed_ids(space_id) == pre.executed_ids(space_id).push(change_id));
            assert forall|s: u64|
                s != space_id implies #[trigger] post.executed_ids(s) == pre.executed_ids(s) by {}
            assert(post.changes@.dom() =~= pre.changes@.dom());
            assert(post.spaces@.dom() =~= pre.spaces@.dom());
            assert(post.pending_by_space@ =~= pre.pending_by_space@.remove(space_id));
            let so_pre = pre.spaces@[space_id];
            let ch_pre = pre.changes@[change_id];
            let result_owners = new_owner_seq(so_pre.owners@, ch_pre.add_owners@,
            ch_pre.remove_owners@);
            let t = effective_threshold(ch_pre.new_threshold, so_pre.threshold);
            assert(pre.pending_executable(space_id));
            lemma_push_membership(pre.executed_ids(space_id), change_id);
            // the new record is a well-formed space for its key
            assert(unique(result_owners)) by {
                lemma_new_owner_seq_membership(so_pre.owners@, ch_pre.add_owners@,
                ch_pre.remove_owners@);
            }
            assert(post.spaces@[space_id].wf(post.config, space_id));
            // owner index mirrors the new owner sets
            assert forall|a: u64, s: u64| #[trigger]
                post.owns(a, s) implies post.is_space_owner(a, s) by {
                if s != space_id {
                    assert(owned_map_owns(pre.owned@, a, s));
                    assert(pre.owns(a, s));
                    assert(pre.is_space_owner(a, s));
                    assert(post.spaces@[s] == pre.spaces@[s]);
                } else {
                    assert(owned_map_owns(post.owned@, a, space_id));
                    assert(result_owners.contains(a));
                }
            }
            assert forall|a: u64, s: u64| #[trigger]
                post.is_space_owner(a, s) implies post.owns(a, s) by {
                if s != space_id {
                    assert(pre.is_space_owner(a, s));
                    assert(pre.owns(a, s));
                    assert(owned_map_owns(post.owned@, a, s));
                } else {
                    assert(result_owners.contains(a));
                    assert(owned_map_owns(post.owned@, a, space_id));
                }
            }
            // every remaining pending pointer still marks its pending change
            assert forall|sid: u64| #[trigger]
                post.pending_by_space@.contains_key(sid) implies {
                let c = post.pending_by_space@[sid];
                &&& post.changes@.contains_key(c)
                &&& post.changes@[c].space_id == sid
                &&& post.pending_ids@.contains(c)
            } by {
                assert(sid != space_id);
                assert(pre.pending_by_space@.contains_key(sid));
                let c = pre.pending_by_space@[sid];
                assert(pre.changes@[c].space_id == sid);
                assert(c != change_id);
                assert(post.changes@[c] == pre.changes@[c]);
                assert(pre.pending_ids@.contains(c));
            }
            assert forall|sid: u64| #[trigger]
                post.pending_by_space@.contains_key(sid) implies post.pending_executable(sid) by {
                assert(sid != space_id);
                assert(pre.pending_by_space@.contains_key(sid));
                assert(pre.pending_executable(sid));
                let c = pre.pending_by_space@[sid];
                assert(c != change_id);
                assert(post.changes@[c] == pre.changes@[c]);
                assert(post.spaces@[sid] == pre.spaces@[sid]);
                assert(post.executed_ids(sid) == pre.executed_ids(sid));
            }
            assert forall|i: int|
                0 <= i < post.pending_ids@.len() implies {
                let c = #[trigger] post.pending_ids@[i];
                &&& post.changes@.contains_key(c)
                &&& post.pending_by_space@.contains_key(post.changes@[c].space_id)
                &&& post.pending_by_space@[post.changes@[c].space_id] == c
            } by {
                let c = post.pending_ids@[i];
                assert(post.pending_ids@.contains(c));
                assert(pre.pending_ids@.contains(c) && c != change_id);
                assert(pre.changes@.contains_key(c));
                assert(pre.pending_by_space@[pre.changes@[c].space_id] == c);
                assert(pre.changes@[c].space_id != space_id);
                assert(post.changes@[c] == pre.changes@[c]);
            }
            // counts follow the histories
            assert forall|sid: u64| #[trigger]
                post.spaces@.contains_key(sid) implies post.spaces@[sid].changes_count
                == post.executed_ids(sid).len() by {
                if sid != space_id {
                    assert(post.spaces@[sid] == pre.spaces@[sid]);
                    assert(post.executed_ids(sid) == pre.executed_ids(sid));
                }
            }
            assert forall|sid: u64| #[trigger] post.executed@.contains_key(sid)
                implies post.spaces@.contains_key(sid) by {
                if sid != space_id {
                    assert(pre.executed@.contains_key(sid));
                }
            }
            assert forall|sid: u64| strictly_increasing(#[trigger] post.executed_ids(sid)) by {
                if sid != space_id {
                    assert(post.executed_ids(sid) == pre.executed_ids(sid));
                    assert(strictly_increasing(pre.executed_ids(sid)));
                } else {
                    let h = post.executed_ids(space_id);
                    assert forall|p: int, q: int| 0 <= p < q < h.len() implies h[p] < h[q] by {
                        if q < h.len() - 1 {
                            assert(pre.executed_ids(space_id)[p] < pre.executed_ids(space_id)[q]);
                        } else {
                            assert(h[q] == change_id);
                            assert(pre.executed_ids(space_id)[p] < change_id);
                        }
                    }
                }
            }
            assert forall|sid: u64, j: int|
                0 <= j < post.executed_ids(sid).len() implies {
                let c = #[trigger] post.executed_ids(sid)[j];
                &&& post.changes@.contains_key(c)
                &&& post.changes@[c].space_id == sid
            } by {
                if sid != space_id {
                    assert(post.executed_ids(sid) == pre.executed_ids(sid));
                    let c = pre.executed_ids(sid)[j];
                    assert(pre.changes@.contains_key(c) && pre.changes@[c].space_id == sid);
                    assert(c != change_id) by {
                        if c == change_id {
                            assert(pre.changes@[change_id].space_id == space_id);
                        }
                    }
                    assert(post.changes@[c] == pre.changes@[c]);
                } else {
                    if j < post.executed_ids(sid).len() - 1 {
                        let c = pre.executed_ids(space_id)[j];
                        assert(pre.changes@.contains_key(c) && pre.changes@[c].space_id
                            == space_id);
                        assert(c != change_id) by {
                            assert(pre.executed_ids(space_id)[j] < change_id);
                        }
                        assert(post.changes@[c] == pre.changes@[c]);
                    } else {
                        assert(post.executed_ids(sid)[j] == change_id);
                    }
                }
            }
            // a retained change is pending exactly when it is not in history
            assert forall|c: u64| #[trigger]
                post.changes@.contains_key(c) implies (post.pending_ids@.contains(c)
                <==> !post.executed_ids(post.changes@[c].space_id).contains(c)) by {
                assert(pre.changes@.contains_key(c));
                if c == change_id {
                    assert(post.executed_ids(space_id).contains(change_id));
                    assert(!post.pending_ids@.contains(change_id));
                    assert(post.changes@[c].space_id == space_id);
                } else {
                    assert(post.changes@[c] == pre.changes@[c]);
                    let csid = pre.changes@[c].space_id;
                    assert(pre.pending_ids@.contains(c) <==> !pre.executed_ids(csid).contains(c));
                    assert(post.pending_ids@.contains(c) <==> pre.pending_ids@.contains(c));
                    if csid == space_id {
                        assert(post.executed_ids(space_id).contains(c) <==> (pre.executed_ids(
                            space_id,
                        ).contains(c) || c == change_id));
                        if pre.pending_ids@.contains(c) {
                            assert(pre.pending_by_space@[csid] == c);
                            assert(c == change_id);
                        }
                    } else {
                        assert(post.executed_ids(csid) == pre.executed_ids(csid));
                    }
                }
            }
            // the confirmed change record stays well formed
            assert forall|c: u64| #[trigger]
                post.changes@.contains_key(c) implies {
                let chc = post.changes@[c];
                &&& chc.wf(post.config)
                &&& chc.id == c
                &&& 1 <= c < post.next_id
                &&& post.spaces@.contains_key(chc.space_id)
            } by {
                if c != change_id {
                    assert(post.changes@[c] == pre.changes@[c]);
                    assert(pre.changes@.contains_key(c));
                } else {
                    assert(pre.changes@[change_id].wf(pre.config));
                }
            }
        }
    }
}

} // verus!
