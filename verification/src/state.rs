//! The proposal engine's state: the ownership registry, the change proposal
//! store with its pending and executed indices, the monotonic id allocator,
//! and the block clock — together with the well-formedness invariant that
//! every operation preserves.

use vstd::prelude::*;
use std::collections::HashMap;
use crate::types::{Change, OwnershipConfig, SpaceOwners, strictly_increasing};
use crate::owner_set::{effective_threshold, new_owner_seq};
use crate::util::{copy_vec, owned_map_owns, owned_map_sorted};

verus! {

/// The N-of-M ownership engine over all spaces.
pub struct MultiOwnership {
    /// Configuration fixed at construction.
    pub config: OwnershipConfig,
    /// Current height of the enclosing block clock.
    pub block_number: u64,
    /// Each space's current ownership record.
    pub spaces: HashMap<u64, SpaceOwners>,
    /// Reverse index: the spaces each account owns, sorted.
    pub owned: HashMap<u64, Vec<u64>>,
    /// Ids of all pending changes, ascending (so oldest first).
    pub pending_ids: Vec<u64>,
    /// The pending change of each space that has one: at most one per space.
    pub pending_by_space: HashMap<u64, u64>,
    /// Every retained change record: the pending ones and the executed ones.
    pub changes: HashMap<u64, Change>,
    /// Per space, the ids of executed changes in execution order.
    pub executed: HashMap<u64, Vec<u64>>,
    /// Next change id to allocate; ids are never reused.
    pub next_id: u64,
}

impl MultiOwnership {
    /// The executed-history index of a space.
    pub open spec fn executed_ids(self, sid: u64) -> Seq<u64> {
        if self.executed@.contains_key(sid) {
            self.executed@[sid]@
        } else {
            Seq::empty()
        }
    }

    /// The pending change id of a space, if it has one.
    pub open spec fn pending_of(self, sid: u64) -> Option<u64> {
        if self.pending_by_space@.contains_key(sid) {
            Some(self.pending_by_space@[sid])
        } else {
            None
        }
    }

    /// The reverse index records `a` as an owner of `sid`.
    pub open spec fn owns(self, a: u64, sid: u64) -> bool {
        owned_map_owns(self.owned@, a, sid)
    }

    /// `a` stands in the owner set of `sid`'s ownership record.
    pub open spec fn is_space_owner(self, a: u64, sid: u64) -> bool {
        self.spaces@.contains_key(sid) && self.spaces@[sid].owners@.contains(a)
    }

    /// Every ownership record is well formed for its key.
    pub open spec fn wf_spaces(self) -> bool {
        forall|sid: u64| #[trigger]
            self.spaces@.contains_key(sid) ==> self.spaces@[sid].wf(self.config, sid)
    }

    /// The reverse index is sorted and mirrors the owner sets exactly.
    pub open spec fn wf_owned(self) -> bool {
        &&& owned_map_sorted(self.owned@)
        &&& forall|a: u64, sid: u64| #[trigger] self.owns(a, sid) ==> self.is_space_owner(a, sid)
        &&& forall|a: u64, sid: u64| #[trigger]
            self.is_space_owner(a, sid) ==> self.owns(a, sid)
    }

    /// Every retained change record is well formed, keyed by its own id,
    /// carries an allocated id, and targets an existing space.
    pub open spec fn wf_changes(self) -> bool {
        forall|cid: u64| #[trigger]
            self.changes@.contains_key(cid) ==> {
                let ch = self.changes@[cid];
                &&& ch.wf(self.config)
                &&& ch.id == cid
                &&& 1 <= cid < self.next_id
                &&& self.spaces@.contains_key(ch.space_id)
            }
    }

    /// A pending change can execute: the owner set it would leave behind is
    /// non-empty, and the threshold it would leave behind is valid for it.
    /// Its id is also younger than everything its space has executed.
    pub open spec fn pending_executable(self, sid: u64) -> bool {
        let cid = self.pending_by_space@[sid];
        let ch = self.changes@[cid];
        let so = self.spaces@[sid];
        let new_owners = new_owner_seq(so.owners@, ch.add_owners@, ch.remove_owners@);
        let t = effective_threshold(ch.new_threshold, so.threshold);
        &&& new_owners.len() >= 1
        &&& t >= 1
        &&& t as int <= new_owners.len()
        &&& t <= self.config.max_space_owners
        &&& forall|j: int| 0 <= j < self.executed_ids(sid).len() ==> self.executed_ids(sid)[j] < cid
    }

    /// The pending set and the per-space pending pointer mirror each other;
    /// at most one pending change per space.
    pub open spec fn wf_pending(self) -> bool {
        &&& strictly_increasing(self.pending_ids@)
        &&& forall|sid: u64| #[trigger]
            self.pending_by_space@.contains_key(sid) ==> {
                let cid = self.pending_by_space@[sid];
                &&& self.changes@.contains_key(cid)
                &&& self.changes@[cid].space_id == sid
                &&& self.pending_ids@.contains(cid)
            }
        &&& forall|sid: u64| #[trigger]
            self.pending_by_space@.contains_key(sid) ==> self.pending_executable(sid)
        &&& forall|i: int|
            0 <= i < self.pending_ids@.len() ==> {
                let cid = #[trigger] self.pending_ids@[i];
                &&& self.changes@.contains_key(cid)
                &&& self.pending_by_space@.contains_key(self.changes@[cid].space_id)
                &&& self.pending_by_space@[self.changes@[cid].space_id] == cid
            }
    }

    /// The executed-history indices are consistent: they count into
    /// `changes_count`, grow in execution order, and point at retained
    /// records of their own space.
    pub open spec fn wf_executed(self) -> bool {
        &&& forall|sid: u64| #[trigger]
            self.executed@.contains_key(sid) ==> self.spaces@.contains_key(sid)
        &&& forall|sid: u64| #[trigger]
            self.spaces@.contains_key(sid) ==> self.spaces@[sid].changes_count == self.executed_ids(
                sid,
            ).len()
        &&& forall|sid: u64| strictly_increasing(#[trigger] self.executed_ids(sid))
        &&& forall|sid: u64, j: int|
            0 <= j < self.executed_ids(sid).len() ==> {
                let cid = #[trigger] self.executed_ids(sid)[j];
                &&& self.changes@.contains_key(cid)
                &&& self.changes@[cid].space_id == sid
            }
    }

    /// Every retained change is pending or executed, never both: pending ones
    /// leave the store on cancel or expiry, executed ones are retained.
    pub open spec fn wf_partition(self) -> bool {
        forall|cid: u64| #[trigger]
            self.changes@.contains_key(cid) ==> (self.pending_ids@.contains(cid)
                <==> !self.executed_ids(self.changes@[cid].space_id).contains(cid))
    }

    /// The storage invariant: established by `new`, preserved by every
    /// operation.
    pub open spec fn wf(self) -> bool {
        &&& self.config.wf()
        &&& self.next_id >= 1
        &&& self.wf_spaces()
        &&& self.wf_owned()
        &&& self.wf_changes()
        &&& self.wf_pending()
        &&& self.wf_executed()
        &&& self.wf_partition()
    }

    /// Well-formedness reads only the stores, never the block clock: two
    /// states that agree on configuration and stores are equally well formed.
    pub proof fn lemma_wf_same_stores(a: MultiOwnership, b: MultiOwnership)
        requires
            a.wf(),
            b.config == a.config,
            b.spaces@ == a.spaces@,
            b.owned@ == a.owned@,
            b.pending_ids@ == a.pending_ids@,
            b.pending_by_space@ == a.pending_by_space@,
            b.changes@ == a.changes@,
            b.executed@ == a.executed@,
            b.next_id == a.next_id,
        ensures
            b.wf(),
    {
        assert(forall|sid: u64| #[trigger] b.executed_ids(sid) == a.executed_ids(sid));
        assert forall|x: u64, s: u64| #[trigger] b.owns(x, s) implies b.is_space_owner(x, s) by {
            assert(a.owns(x, s));
        }
        assert forall|x: u64, s: u64| #[trigger] b.is_space_owner(x, s) implies b.owns(x, s) by {
            assert(a.is_space_owner(x, s));
            assert(a.owns(x, s));
        }
        assert forall|sid: u64| #[trigger]
            b.pending_by_space@.contains_key(sid) implies b.pending_executable(sid) by {
            assert(a.pending_executable(sid));
            assert(b.executed_ids(sid) == a.executed_ids(sid));
        }
        assert forall|sid: u64| strictly_increasing(#[trigger] b.executed_ids(sid)) by {
            assert(strictly_increasing(a.executed_ids(sid)));
        }
        assert forall|sid: u64| #[trigger]
            b.spaces@.contains_key(sid) implies b.spaces@[sid].changes_count == b.executed_ids(
            sid,
        ).len() by {
            assert(b.executed_ids(sid) == a.executed_ids(sid));
        }
        assert forall|sid: u64, j: int|
            0 <= j < b.executed_ids(sid).len() implies {
                let cid = #[trigger] b.executed_ids(sid)[j];
                &&& b.changes@.contains_key(cid)
                &&& b.changes@[cid].space_id == sid
            } by {
            assert(b.executed_ids(sid) == a.executed_ids(sid));
        }
        assert forall|cid: u64| #[trigger]
            b.changes@.contains_key(cid) implies (b.pending_ids@.contains(cid)
            <==> !b.executed_ids(b.changes@[cid].space_id).contains(cid)) by {
            assert(b.executed_ids(b.changes@[cid].space_id) == a.executed_ids(
                a.changes@[cid].space_id,
            ));
        }
    }

    /// A fresh engine: no spaces, no changes, id allocation starting at 1,
    /// block clock at 0.
    pub fn new(config: OwnershipConfig) -> (m: MultiOwnership)
        requires
            config.wf(),
        ensures
            m.wf(),
            m.config == config,
            m.block_number == 0,
            m.spaces@ == Map::<u64, SpaceOwners>::empty(),
            m.owned@ == Map::<u64, Vec<u64>>::empty(),
            m.pending_ids@ == Seq::<u64>::empty(),
            m.pending_by_space@ == Map::<u64, u64>::empty(),
            m.changes@ == Map::<u64, Change>::empty(),
            m.executed@ == Map::<u64, Vec<u64>>::empty(),
            m.next_id == 1,
    {
        MultiOwnership {
            config,
            block_number: 0,
            spaces: HashMap::new(),
            owned: HashMap::new(),
            pending_ids: Vec::new(),
            pending_by_space: HashMap::new(),
            changes: HashMap::new(),
            executed: HashMap::new(),
            next_id: 1,
        }
    }

    /// Moves the block clock; everything else stays.
    pub fn set_block_number(&mut self, n: u64)
        ensures
            final(self).block_number == n,
            final(self).config == old(self).config,
            final(self).spaces == old(self).spaces,
            final(self).owned == old(self).owned,
            final(self).pending_ids == old(self).pending_ids,
            final(self).pending_by_space == old(self).pending_by_space,
            final(self).changes == old(self).changes,
            final(self).executed == old(self).executed,
            final(self).next_id == old(self).next_id,
            old(self).wf() ==> final(self).wf(),
    {
        self.block_number = n;
        proof {
            if old(self).wf() {
                MultiOwnership::lemma_wf_same_stores(*old(self), *self);
            }
        }
    }

    /// The ownership record of a space.
    pub fn space_owners_by_space_id(&self, space_id: u64) -> (r: Option<&SpaceOwners>)
        ensures
            match r {
                Some(so) => self.spaces@.contains_key(space_id) && *so == self.spaces@[space_id],
                None => !self.spaces@.contains_key(space_id),
            },
    {
        self.spaces.get(&space_id)
    }

    /// The spaces an account owns, ascending; empty when it owns none.
    pub fn space_ids_owned_by_account_id(&self, account: u64) -> (r: Vec<u64>)
        ensures
            forall|sid: u64| r@.contains(sid) <==> self.owns(account, sid),
            self.owned@.contains_key(account) ==> r@ == self.owned@[account]@,
            !self.owned@.contains_key(account) ==> r@ == Seq::<u64>::empty(),
    {
        match self.owned.get(&account) {
            Some(v) => copy_vec(v),
            None => Vec::new(),
        }
    }

    /// The ids of all pending changes, ascending.
    pub fn pending_change_ids(&self) -> (r: Vec<u64>)
        ensures
            r@ == self.pending_ids@,
    {
        copy_vec(&self.pending_ids)
    }

    /// The pending change id of a space, if it has one.
    pub fn pending_change_id_by_space_id(&self, space_id: u64) -> (r: Option<u64>)
        ensures
            r == self.pending_of(space_id),
    {
        match self.pending_by_space.get(&space_id) {
            Some(cid) => Some(*cid),
            None => None,
        }
    }

    /// A retained change record: pending, or executed (executed records stay
    /// queryable; cancelled and expired ones do not).
    pub fn change_by_id(&self, change_id: u64) -> (r: Option<&Change>)
        ensures
            match r {
                Some(ch) => self.changes@.contains_key(change_id) && *ch
                    == self.changes@[change_id],
                None => !self.changes@.contains_key(change_id),
            },
    {
        self.changes.get(&change_id)
    }

    /// The ids of a space's executed changes, in execution order.
    pub fn executed_change_ids_by_space_id(&self, space_id: u64) -> (r: Vec<u64>)
        ensures
            r@ == self.executed_ids(space_id),
    {
        match self.executed.get(&space_id) {
            Some(v) => copy_vec(v),
            None => Vec::new(),
        }
    }

    /// The id the next proposal will receive.
    pub fn next_change_id(&self) -> (r: u64)
        ensures
            r == self.next_id,
    {
        self.next_id
    }
}

} // verus!
