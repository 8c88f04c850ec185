//! Cancelling a pending change: only its proposer may, and the record is
//! deleted entirely.

use vstd::prelude::*;
use crate::types::{Error, strictly_increasing};
use crate::state::MultiOwnership;
use crate::util::{remove_value_sorted, vec_contains};

verus! {

/// The error `cancel_change` returns on the given state and input, or `None`
/// where it succeeds. Checks run in this order, and the first failing one
/// decides. The proposer is the first account ever placed in `confirmed_by`.
pub open spec fn cancel_change_err(
    s: MultiOwnership,
    caller: u64,
    space_id: u64,
    change_id: u64,
) -> Option<Error> {
    if s.pending_of(space_id) != Some(change_id) {
        Some(Error::ChangeNotRelatedToSpace)
    } else if !s.spaces@[space_id].owners@.contains(caller) {
        Some(Error::NotASpaceOwner)
    } else if s.changes@[change_id].confirmed_by@[0] != caller {
        Some(Error::NotAChangeCreator)
    } else {
        None
    }
}

/// How a successful `cancel_change` call relates the state after (`post`) to
/// the state before (`pre`): the change leaves the pending index and its
/// record is deleted — it never reaches the executed history — and nothing
/// else moves.
pub open spec fn cancel_change_ok(
    pre: MultiOwnership,
    post: MultiOwnership,
    space_id: u64,
    change_id: u64,
) -> bool {
    &&& post.config == pre.config
    &&& post.block_number == pre.block_number
    &&& post.next_id == pre.next_id
    &&& post.spaces@ == pre.spaces@
    &&& post.owned@ == pre.owned@
    &&& post.executed@ == pre.executed@
    &&& post.changes@ == pre.changes@.remove(change_id)
    &&& post.pending_by_space@ == pre.pending_by_space@.remove(space_id)
    &&& strictly_increasing(post.pending_ids@)
    &&& forall|c: u64|
        #![trigger post.pending_ids@.contains(c)]
        #![trigger pre.pending_ids@.contains(c)]
        post.pending_ids@.contains(c) <==> (pre.pending_ids@.contains(c) && c != change_id)
}

impl MultiOwnership {
    /// Cancels the pending change `change_id` of `space_id`. The change must
    /// be the space's pending one, and the caller a current owner and the
    /// change's proposer. The record is deleted entirely: it never appears in
    /// the executed history, and `change_by_id` no longer resolves it. On
    /// failure nothing changes.
    pub fn cancel_change(&mut self, caller: u64, space_id: u64, change_id: u64) -> (r: Result<
        (),
        Error,
    >)
        requires
            old(self).wf(),
        ensures
            final(self).wf(),
            match r {
                Ok(()) => cancel_change_err(*old(self), caller, space_id, change_id) is None
                    && cancel_change_ok(*old(self), *final(self), space_id, change_id),
                Err(e) => cancel_change_err(*old(self), caller, space_id, change_id) == Some(e)
                    && *final(self) == *old(self),
            },
    {
        match self.pending_by_space.get(&space_id) {
            Some(cid) => {
                if *cid != change_id {
                    return Err(Error::ChangeNotRelatedToSpace);
                }
            },
            None => {
                return Err(Error::ChangeNotRelatedToSpace);
            },
        }
        match self.spaces.get(&space_id) {
            Some(so) => {
                if !vec_contains(&so.owners, caller) {
                    return Err(Error::NotASpaceOwner);
                }
            },
            None => {
                assert(false);
                return Err(Error::ChangeNotRelatedToSpace);
            },
        }
        match self.changes.get(&change_id) {
            Some(ch) => {
                if ch.confirmed_by[0] != caller {
                    return Err(Error::NotAChangeCreator);
                }
            },
            None => {
                assert(false);
                return Err(Error::ChangeNotRelatedToSpace);
            },
        }
        let ghost pre = *self;
        self.changes.remove(&change_id);
        self.pending_by_space.remove(&space_id);
        remove_value_sorted(&mut self.pending_ids, change_id);
        proof {
            let post = *self;
            assert(forall|sid: u64| #[trigger] post.executed_ids(sid) == pre.executed_ids(sid));
            assert forall|a: u64, s: u64| #[trigger] post.owns(a, s) implies post.is_space_owner(
                a,
                s,
            ) by {
                assert(pre.owns(a, s));
            }
            assert forall|a: u64, s: u64| #[trigger] post.is_space_owner(a, s) implies post.owns(
                a,
                s,
            ) by {
                assert(pre.is_space_owner(a, s));
                assert(pre.owns(a, s));
            }
            assert forall|sid: u64| #[trigger]
                post.pending_by_space@.contains_key(sid) implies {
                let c = post.pending_by_space@[sid];
                &&& post.changes@.contains_key(c)
                &&& post.changes@[c].space_id == sid
                &&& post.pending_ids@.contains(c)
            } by {
                assert(sid != space_id);
                assert(pre.pending_by_space@.contains_key(sid));
                let c = pre.pending_by_space@[sid];
                assert(c != change_id) by {
                    if c == change_id {
                        assert(pre.changes@[c].space_id == sid);
                        assert(pre.changes@[change_id].space_id == space_id);
                    }
                }
                assert(pre.pending_ids@.contains(c));
            }
            assert forall|sid: u64| #[trigger]
                post.pending_by_space@.contains_key(sid) implies post.pending_executable(sid) by {
                assert(sid != space_id);
                assert(pre.pending_by_space@.contains_key(sid));
                assert(pre.pending_executable(sid));
                let c = pre.pending_by_space@[sid];
                assert(c != change_id) by {
                    if c == change_id {
                        assert(pre.changes@[c].space_id == sid);
                    }
                }
                assert(post.changes@[c] == pre.changes@[c]);
                assert(post.executed_ids(sid) == pre.executed_ids(sid));
            }
            assert forall|i: int|
                0 <= i < post.pending_ids@.len() implies {
                let c = #[trigger] post.pending_ids@[i];
                &&& post.changes@.contains_key(c)
                &&& post.pending_by_space@.contains_key(post.changes@[c].space_id)
                &&& post.pending_by_space@[post.changes@[c].space_id] == c
            } by {
                let c = post.pending_ids@[i];
                assert(post.pending_ids@.contains(c));
                assert(pre.pending_ids@.contains(c) && c != change_id);
                assert(pre.changes@.contains_key(c));
                assert(pre.pending_by_space@[pre.changes@[c].space_id] == c);
                assert(pre.changes@[c].space_id != space_id);
                assert(post.changes@[c] == pre.changes@[c]);
            }
            assert forall|c: u64| #[trigger]
                post.changes@.contains_key(c) implies (post.pending_ids@.contains(c)
                <==> !post.executed_ids(post.changes@[c].space_id).contains(c)) by {
                assert(pre.changes@.contains_key(c) && c != change_id);
                assert(post.changes@[c] == pre.changes@[c]);
                assert(post.executed_ids(post.changes@[c].space_id) == pre.executed_ids(
                    pre.changes@[c].space_id,
                ));
                if pre.executed_ids(pre.changes@[c].space_id).contains(c) {
                }
            }
            assert forall|sid: u64| #[trigger]
                post.spaces@.contains_key(sid) implies post.spaces@[sid].changes_count
                == post.executed_ids(sid).len() by {
                assert(post.executed_ids(sid) == pre.executed_ids(sid));
            }
            assert forall|sid: u64| strictly_increasing(#[trigger] post.executed_ids(sid)) by {
                assert(post.executed_ids(sid) == pre.executed_ids(sid));
                assert(strictly_increasing(pre.executed_ids(sid)));
            }
            assert forall|sid: u64, j: int|
                0 <= j < post.executed_ids(sid).len() implies {
                let c = #[trigger] post.executed_ids(sid)[j];
                &&& post.changes@.contains_key(c)
                &&& post.changes@[c].space_id == sid
            } by {
                assert(post.executed_ids(sid) == pre.executed_ids(sid));
                let c = pre.executed_ids(sid)[j];
                assert(pre.changes@.contains_key(c) && pre.changes@[c].space_id == sid);
                assert(c != change_id) by {
                    if c == change_id {
                        assert(pre.executed_ids(pre.changes@[change_id].space_id).contains(
                            change_id,
                        ));
                        assert(pre.pending_ids@.contains(change_id));
                    }
                }
                assert(post.changes@[c] == pre.changes@[c]);
            }
        }
        Ok(())
    }
}

} // verus!
