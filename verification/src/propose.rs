//! Proposing a change to a space's owner set or threshold.

use vstd::prelude::*;
use crate::types::{Change, Error};
use crate::state::MultiOwnership;
use crate::owner_set::{
    compute_new_owners, effective_threshold, lemma_new_owner_seq_membership, new_owner_seq,
    updates_fields, updates_owner_set,
};
use crate::util::vec_contains;

verus! {

/// The error `propose_change` returns on the given state and input, or `None`
/// where it succeeds. Checks run in this order, and the first failing one
/// decides.
pub open spec fn propose_change_err(
    s: MultiOwnership,
    caller: u64,
    space_id: u64,
    add_owners: Seq<u64>,
    remove_owners: Seq<u64>,
    new_threshold: Option<u16>,
    notes: Seq<u8>,
) -> Option<Error> {
    if !s.is_space_owner(caller, space_id) {
        Some(Error::NotASpaceOwner)
    } else if s.pending_by_space@.contains_key(space_id) {
        Some(Error::PendingChangeAlreadyExists)
    } else {
        let so = s.spaces@[space_id];
        let result_owners = new_owner_seq(so.owners@, add_owners, remove_owners);
        let t = effective_threshold(new_threshold, so.threshold);
        if result_owners.len() == 0 {
            Some(Error::NoSpaceOwnersLeft)
        } else if t == 0 {
            Some(Error::ZeroThreshold)
        } else if t as int > result_owners.len() || t > s.config.max_space_owners {
            Some(Error::TooBigThreshold)
        } else if !updates_fields(so.owners@, add_owners, remove_owners, new_threshold,
        so.threshold) {
            Some(Error::NoFieldsUpdatedOnProposal)
        } else if notes.len() > s.config.max_change_notes_length as int {
            Some(Error::ChangeNotesOversize)
        } else {
            None
        }
    }
}

/// How a successful `propose_change` call relates the state after (`post`) to
/// the state before (`pre`): the change record is created under the freshly
/// allocated id `cid`, already confirmed by its proposer, indexed as the
/// space's one pending change, and nothing else moves.
pub open spec fn propose_change_ok(
    pre: MultiOwnership,
    post: MultiOwnership,
    caller: u64,
    space_id: u64,
    add_owners: Seq<u64>,
    remove_owners: Seq<u64>,
    new_threshold: Option<u16>,
    notes: Seq<u8>,
    cid: u64,
) -> bool {
    &&& cid == pre.next_id
    &&& post.next_id == pre.next_id + 1
    &&& post.config == pre.config
    &&& post.block_number == pre.block_number
    &&& post.spaces@ == pre.spaces@
    &&& post.owned@ == pre.owned@
    &&& post.executed@ == pre.executed@
    &&& post.changes@.dom() == pre.changes@.dom().insert(cid)
    &&& forall|c: u64|
        c != cid && pre.changes@.contains_key(c) ==> post.changes@[c] == pre.changes@[c]
    &&& {
        let ch = post.changes@[cid];
        &&& ch.id == cid
        &&& ch.space_id == space_id
        &&& ch.add_owners@ == add_owners
        &&& ch.remove_owners@ == remove_owners
        &&& ch.new_threshold == new_threshold
        &&& ch.notes@ == notes
        &&& ch.confirmed_by@ == seq![caller]
        &&& ch.created_at == pre.block_number
        &&& ch.expires_at == pre.block_number + pre.config.blocks_to_live
    }
    &&& post.pending_by_space@ == pre.pending_by_space@.insert(space_id, cid)
    &&& post.pending_ids@ == pre.pending_ids@.push(cid)
}

impl MultiOwnership {
    /// Proposes a change of `space_id`'s owner set (`add_owners` joined,
    /// `remove_owners` dropped) and, if `new_threshold` is present, of its
    /// threshold. Only a current owner may propose; a space carries at most
    /// one pending change; the resulting owner set must stay non-empty, the
    /// effective threshold valid for it, the proposal must change something,
    /// and the notes must fit the configured bound. Returns the new change
    /// id; the proposer counts as the first confirmation. On failure nothing
    /// changes.
    ///
    /// The bounds in `requires` keep the id allocator and the expiry height
    /// inside the machine's integer range.
    #[verifier::loop_isolation(false)]
    pub fn propose_change(
        &mut self,
        caller: u64,
        space_id: u64,
        add_owners: Vec<u64>,
        remove_owners: Vec<u64>,
        new_threshold: Option<u16>,
        notes: Vec<u8>,
    ) -> (r: Result<u64, Error>)
        requires
            old(self).wf(),
            old(self).next_id < u64::MAX,
            old(self).block_number + old(self).config.blocks_to_live <= u64::MAX,
        ensures
            final(self).wf(),
            match r {
                Ok(cid) => propose_change_err(
                    *old(self),
                    caller,
                    space_id,
                    add_owners@,
                    remove_owners@,
                    new_threshold,
                    notes@,
                ) is None && propose_change_ok(
                    *old(self),
                    *final(self),
                    caller,
                    space_id,
                    add_owners@,
                    remove_owners@,
                    new_threshold,
                    notes@,
                    cid,
                ),
                Err(e) => propose_change_err(
                    *old(self),
                    caller,
                    space_id,
                    add_owners@,
                    remove_owners@,
                    new_threshold,
                    notes@,
                ) == Some(e) && *final(self) == *old(self),
            },
    {
        let so = match self.spaces.get(&space_id) {
            Some(so) => so,
            None => {
                return Err(Error::NotASpaceOwner);
            },
        };
        if !vec_contains(&so.owners, caller) {
            return Err(Error::NotASpaceOwner);
        }
        if self.pending_by_space.contains_key(&space_id) {
            return Err(Error::PendingChangeAlreadyExists);
        }
        let result_owners = compute_new_owners(&so.owners, &add_owners, &remove_owners);
        let threshold = match new_threshold {
            Some(t) => t,
            None => so.threshold,
        };
        if result_owners.len() == 0 {
            return Err(Error::NoSpaceOwnersLeft);
        }
        if threshold == 0 {
            return Err(Error::ZeroThreshold);
        }
        if threshold as usize > result_owners.len() || threshold > self.config.max_space_owners {
            return Err(Error::TooBigThreshold);
        }
        let owners_updated = updates_owner_set(&so.owners, &add_owners, &remove_owners);
        let threshold_updated = match new_threshold {
            Some(t) => t != so.threshold,
            None => false,
        };
        if !owners_updated && !threshold_updated {
            return Err(Error::NoFieldsUpdatedOnProposal);
        }
        if notes.len() > self.config.max_change_notes_length as usize {
            return Err(Error::ChangeNotesOversize);
        }
        let ghost pre = *self;
        let cid = self.next_id;
        let mut confirmed_by: Vec<u64> = Vec::new();
        confirmed_by.push(caller);
        let change = Change {
            id: cid,
            space_id,
            add_owners,
            remove_owners,
            new_threshold,
            notes,
            confirmed_by,
            created_at: self.block_number,
            expires_at: self.block_number + self.config.blocks_to_live,
        };
        self.changes.insert(cid, change);
        self.pending_by_space.insert(space_id, cid);
        self.pending_ids.push(cid);
        self.next_id = cid + 1;
        proof {
            let post = *self;
            assert(post.changes@.dom() =~= pre.changes@.dom().insert(cid));
            assert(post.changes@[cid].confirmed_by@ =~= seq![caller]);
            assert(!pre.changes@.contains_key(cid));
            lemma_new_owner_seq_membership(
                pre.spaces@[space_id].owners@,
                add_owners@,
                remove_owners@,
            );
            // the fresh id is larger than every stored or pending id
            assert forall|i: int| 0 <= i < pre.pending_ids@.len() implies pre.pending_ids@[i]
                < cid by {
                assert(pre.changes@.contains_key(pre.pending_ids@[i]));
            }
            assert forall|p: int, q: int|
                0 <= p < q < post.pending_ids@.len() implies post.pending_ids@[p]
                < post.pending_ids@[q] by {
                if q < pre.pending_ids@.len() {
                    assert(pre.pending_ids@[p] < pre.pending_ids@[q]);
                }
            }
            assert(forall|sid: u64| #[trigger] post.executed_ids(sid) == pre.executed_ids(sid));
            assert forall|a: u64, s: u64| #[trigger] post.owns(a, s) implies post.is_space_owner(
                a,
                s,
            ) by {
                assert(pre.owns(a, s));
            }
            assert forall|a: u64, s: u64| #[trigger] post.is_space_owner(a, s) implies post.owns(
                a,
                s,
            ) by {
                assert(pre.is_space_owner(a, s));
                assert(pre.owns(a, s));
            }
            // each pending pointer still marks a pending, executable change
            assert forall|sid: u64| #[trigger]
                post.pending_by_space@.contains_key(sid) implies {
                let c = post.pending_by_space@[sid];
                &&& post.changes@.contains_key(c)
                &&& post.changes@[c].space_id == sid
                &&& post.pending_ids@.contains(c)
            } by {
                if sid != space_id {
                    assert(pre.pending_by_space@.contains_key(sid));
                    let c = pre.pending_by_space@[sid];
                    assert(pre.pending_ids@.contains(c));
                    assert(c != cid);
                    assert(post.pending_ids@.contains(c)) by {
                        let k = choose|k: int|
                            0 <= k < pre.pending_ids@.len() && pre.pending_ids@[k] == c;
                        assert(post.pending_ids@[k] == c);
                    }
                } else {
                    assert(post.pending_ids@[post.pending_ids@.len() - 1] == cid);
                    assert(post.pending_ids@.contains(cid));
                }
            }
            assert forall|sid: u64| #[trigger]
                post.pending_by_space@.contains_key(sid) implies post.pending_executable(sid) by {
                assert(post.executed_ids(sid) == pre.executed_ids(sid));
                if sid != space_id {
                    assert(pre.pending_by_space@.contains_key(sid));
                    assert(pre.pending_executable(sid));
                    let c = pre.pending_by_space@[sid];
                    assert(post.changes@[c] == pre.changes@[c]);
                } else {
                    assert forall|j: int|
                        0 <= j < post.executed_ids(sid).len() implies post.executed_ids(sid)[j]
                        < cid by {
                        assert(pre.changes@.contains_key(pre.executed_ids(sid)[j]));
                    }
                }
            }
            assert forall|i: int|
                0 <= i < post.pending_ids@.len() implies {
                let c = #[trigger] post.pending_ids@[i];
                &&& post.changes@.contains_key(c)
                &&& post.pending_by_space@.contains_key(post.changes@[c].space_id)
                &&& post.pending_by_space@[post.changes@[c].space_id] == c
            } by {
                if i < pre.pending_ids@.len() {
                    let c = pre.pending_ids@[i];
                    assert(pre.changes@.contains_key(c));
                    assert(pre.changes@[c].space_id != space_id);
                    assert(post.changes@[c] == pre.changes@[c]);
                }
            }
            assert forall|c: u64| #[trigger]
                post.changes@.contains_key(c) implies (post.pending_ids@.contains(c)
                <==> !post.executed_ids(post.changes@[c].space_id).contains(c)) by {
                assert(post.executed_ids(post.changes@[c].space_id) == pre.executed_ids(
                    post.changes@[c].space_id,
                ));
                if c != cid {
                    assert(pre.changes@.contains_key(c));
                    assert(post.changes@[c] == pre.changes@[c]);
                    assert(pre.pending_ids@.contains(c) <==> !pre.executed_ids(
                        pre.changes@[c].space_id,
                    ).contains(c));
                    assert(post.pending_ids@.contains(c) <==> pre.pending_ids@.contains(c)) by {
                        crate::owner_set::lemma_push_membership(pre.pending_ids@, cid);
                        if pre.pending_ids@.contains(c) {
                        }
                    }
                } else {
                    assert(post.pending_ids@.contains(cid)) by {
                        assert(post.pending_ids@[post.pending_ids@.len() - 1] == cid);
                    }
                    assert forall|j: int|
                        0 <= j < pre.executed_ids(space_id).len() implies pre.executed_ids(
                        space_id,
                    )[j] != cid by {
                        assert(pre.changes@.contains_key(pre.executed_ids(space_id)[j]));
                    }
                    assert(!pre.executed_ids(space_id).contains(cid));
                }
            }
            assert forall|c: u64| #[trigger]
                post.changes@.contains_key(c) implies {
                let ch = post.changes@[c];
                &&& ch.wf(post.config)
                &&& ch.id == c
                &&& 1 <= c < post.next_id
                &&& post.spaces@.contains_key(ch.space_id)
            } by {
                if c != cid {
                    assert(pre.changes@.contains_key(c));
                    assert(post.changes@[c] == pre.changes@[c]);
                }
            }
        }
        Ok(cid)
    }
}

} // verus!
