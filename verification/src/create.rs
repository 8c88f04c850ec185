//! Creating a space's ownership record.

use vstd::prelude::*;
use crate::types::{Error, SpaceOwners, strictly_increasing, unique};
use crate::state::MultiOwnership;
use crate::util::{owned_index_insert, owned_map_owns, vec_is_unique};

verus! {

/// The error `create_space_owners` returns on the given state and input, or
/// `None` where it succeeds. Checks run in this order, and the first failing
/// one decides.
pub open spec fn create_space_owners_err(
    s: MultiOwnership,
    space_id: u64,
    owners: Seq<u64>,
    threshold: u16,
) -> Option<Error> {
    if s.spaces@.contains_key(space_id) {
        Some(Error::AlreadyExists)
    } else if !unique(owners) {
        Some(Error::DuplicateOwners)
    } else if owners.len() < s.config.min_space_owners as int {
        Some(Error::NotEnoughOwners)
    } else if owners.len() > s.config.max_space_owners as int {
        Some(Error::TooManyOwners)
    } else if threshold == 0 {
        Some(Error::ZeroThreshold)
    } else if threshold as int > owners.len() {
        Some(Error::TooBigThreshold)
    } else {
        None
    }
}

/// How a successful `create_space_owners` call relates the state after
/// (`post`) to the state before (`pre`): the new record is stored, each owner
/// is indexed to the space, and nothing else moves.
pub open spec fn create_space_owners_ok(
    pre: MultiOwnership,
    post: MultiOwnership,
    space_id: u64,
    owners: Seq<u64>,
    threshold: u16,
) -> bool {
    &&& post.config == pre.config
    &&& post.block_number == pre.block_number
    &&& post.next_id == pre.next_id
    &&& post.changes@ == pre.changes@
    &&& post.pending_by_space@ == pre.pending_by_space@
    &&& post.pending_ids@ == pre.pending_ids@
    &&& post.executed@ == pre.executed@
    &&& post.spaces@.dom() == pre.spaces@.dom().insert(space_id)
    &&& forall|sid: u64|
        sid != space_id && pre.spaces@.contains_key(sid) ==> post.spaces@[sid] == pre.spaces@[sid]
    &&& post.spaces@[space_id].space_id == space_id
    &&& post.spaces@[space_id].owners@ == owners
    &&& post.spaces@[space_id].threshold == threshold
    &&& post.spaces@[space_id].changes_count == 0
    &&& forall|a: u64, sid: u64|
        #![trigger post.owns(a, sid)]
        #![trigger pre.owns(a, sid)]
        post.owns(a, sid) <==> (pre.owns(a, sid) || (sid == space_id && owners.contains(a)))
}

impl MultiOwnership {
    /// Creates the ownership record of `space_id` with the given owner set
    /// and confirmation threshold. The record must not exist yet; the owner
    /// list must be duplicate-free and of configured size; the threshold must
    /// be between 1 and the owner count. On failure nothing changes.
    ///
    /// The caller's identity plays no part: it need not stand in `owners`.
    #[verifier::loop_isolation(false)]
    pub fn create_space_owners(
        &mut self,
        _caller: u64,
        space_id: u64,
        owners: Vec<u64>,
        threshold: u16,
    ) -> (r: Result<(), Error>)
        requires
            old(self).wf(),
        ensures
            final(self).wf(),
            match r {
                Ok(()) => create_space_owners_err(*old(self), space_id, owners@, threshold)
                    is None && create_space_owners_ok(
                    *old(self),
                    *final(self),
                    space_id,
                    owners@,
                    threshold,
                ),
                Err(e) => create_space_owners_err(*old(self), space_id, owners@, threshold)
                    == Some(e) && *final(self) == *old(self),
            },
    {
        if self.spaces.contains_key(&space_id) {
            return Err(Error::AlreadyExists);
        }
        if !vec_is_unique(&owners) {
            return Err(Error::DuplicateOwners);
        }
        if owners.len() < self.config.min_space_owners as usize {
            return Err(Error::NotEnoughOwners);
        }
        if owners.len() > self.config.max_space_owners as usize {
            return Err(Error::TooManyOwners);
        }
        if threshold == 0 {
            return Err(Error::ZeroThreshold);
        }
        if threshold as usize > owners.len() {
            return Err(Error::TooBigThreshold);
        }
        let ghost pre = *self;
        let mut i: usize = 0;
        while i < owners.len()
            invariant
                pre.wf(),
                i <= owners@.len(),
                self.config == pre.config,
                self.block_number == pre.block_number,
                self.next_id == pre.next_id,
                self.spaces == pre.spaces,
                self.changes == pre.changes,
                self.pending_by_space == pre.pending_by_space,
                self.pending_ids == pre.pending_ids,
                self.executed == pre.executed,
                crate::util::owned_map_sorted(self.owned@),
                forall|a: u64, s: u64|
                    #![trigger owned_map_owns(self.owned@, a, s)]
                    #![trigger owned_map_owns(pre.owned@, a, s)]
                    owned_map_owns(self.owned@, a, s) <==> (owned_map_owns(pre.owned@, a, s) || (s
                        == space_id && owners@.take(i as int).contains(a))),
            decreases owners@.len() - i,
        {
            let a = owners[i];
            owned_index_insert(&mut self.owned, a, space_id);
            proof {
                assert forall|x: u64, s: u64|
                    owned_map_owns(self.owned@, x, s) <==> (owned_map_owns(pre.owned@, x, s) || (s
                        == space_id && owners@.take(i as int + 1).contains(x))) by {
                    crate::owner_set::lemma_push_membership(owners@.take(i as int), a);
                    assert(owners@.take(i as int + 1) =~= owners@.take(i as int).push(a));
                }
            }
            i += 1;
        }
        assert(owners@.take(owners@.len() as int) =~= owners@);
        let so = SpaceOwners { space_id, owners, threshold, changes_count: 0 };
        self.spaces.insert(space_id, so);
        proof {
            let post = *self;
            assert(post.spaces@.dom() =~= pre.spaces@.dom().insert(space_id));
            assert forall|a: u64, s: u64| #[trigger]
                post.owns(a, s) implies post.is_space_owner(a, s) by {
                assert(owned_map_owns(post.owned@, a, s));
                if s == space_id {
                    if pre.owns(a, s) {
                        assert(pre.is_space_owner(a, s));
                    }
                    assert(owners@.contains(a));
                    assert(post.spaces@[s].owners@ == owners@);
                } else {
                    assert(pre.owns(a, s));
                    assert(pre.is_space_owner(a, s));
                    assert(post.spaces@[s] == pre.spaces@[s]);
                }
            }
            assert forall|a: u64, s: u64| #[trigger]
                post.is_space_owner(a, s) implies post.owns(a, s) by {
                if s == space_id {
                    assert(owners@.contains(a));
                    assert(owned_map_owns(post.owned@, a, s));
                } else {
                    assert(pre.is_space_owner(a, s));
                    assert(pre.owns(a, s));
                    assert(owned_map_owns(post.owned@, a, s));
                }
            }
            assert forall|sid: u64| #[trigger]
                post.spaces@.contains_key(sid) implies post.spaces@[sid].wf(post.config, sid) by {
                if sid != space_id {
                    assert(pre.spaces@[sid].wf(pre.config, sid));
                }
            }
            assert(forall|sid: u64| #[trigger] post.executed_ids(sid) == pre.executed_ids(sid));
            assert forall|sid: u64| #[trigger]
                post.pending_by_space@.contains_key(sid) implies post.pending_executable(sid) by {
                assert(pre.pending_executable(sid));
                assert(pre.changes@[pre.pending_by_space@[sid]].space_id == sid);
                assert(pre.spaces@.contains_key(sid));
                assert(sid != space_id);
                assert(post.spaces@[sid] == pre.spaces@[sid]);
                assert(post.executed_ids(sid) == pre.executed_ids(sid));
            }
            assert forall|sid: u64| #[trigger]
                post.spaces@.contains_key(sid) implies post.spaces@[sid].changes_count
                == post.executed_ids(sid).len() by {
                assert(post.executed_ids(sid) == pre.executed_ids(sid));
                if sid != space_id {
                    assert(pre.spaces@.contains_key(sid));
                } else {
                    assert(!pre.executed@.contains_key(sid));
                    assert(pre.executed_ids(sid) == Seq::<u64>::empty());
                }
            }
            assert forall|sid: u64| strictly_increasing(#[trigger] post.executed_ids(sid)) by {
                assert(post.executed_ids(sid) == pre.executed_ids(sid));
                assert(strictly_increasing(pre.executed_ids(sid)));
            }
            assert forall|cid: u64| #[trigger]
                post.changes@.contains_key(cid) implies (post.pending_ids@.contains(cid)
                <==> !post.executed_ids(post.changes@[cid].space_id).contains(cid)) by {
                assert(post.executed_ids(post.changes@[cid].space_id) == pre.executed_ids(
                    pre.changes@[cid].space_id,
                ));
            }
        }
        Ok(())
    }
}

} // verus!
