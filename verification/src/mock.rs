//! Fixed configuration and a state builder for the scenario tests, together
//! with the default proposal note they use.

use vstd::prelude::*;
use crate::types::OwnershipConfig;
use crate::state::MultiOwnership;

verus! {

/// The configuration the scenario tests run under.
pub open spec fn test_config() -> OwnershipConfig {
    OwnershipConfig {
        min_space_owners: 1,
        max_space_owners: 1000,
        max_change_notes_length: 1024,
        blocks_to_live: 302400,
        delete_expired_changes_period: 1800,
        max_expired_changes_per_sweep: 100,
    }
}

/// Carrier of the test configuration.
pub struct Test {}

impl Test {
    /// The test configuration as a value.
    pub fn config() -> (c: OwnershipConfig)
        ensures
            c == test_config(),
            c.wf(),
    {
        OwnershipConfig {
            min_space_owners: 1,
            max_space_owners: 1000,
            max_change_notes_length: 1024,
            blocks_to_live: 302400,
            delete_expired_changes_period: 1800,
            max_expired_changes_per_sweep: 100,
        }
    }
}

/// Builds the engine state the scenario tests start from.
pub struct ExtBuilder {}

impl ExtBuilder {
    /// A fresh engine under the test configuration, with the block clock at 1.
    pub fn build() -> (m: MultiOwnership)
        ensures
            m.wf(),
            m.config == test_config(),
            m.block_number == 1,
            m.spaces@ == Map::<u64, crate::types::SpaceOwners>::empty(),
            m.owned@ == Map::<u64, Vec<u64>>::empty(),
            m.pending_ids@ == Seq::<u64>::empty(),
            m.pending_by_space@ == Map::<u64, u64>::empty(),
            m.changes@ == Map::<u64, crate::types::Change>::empty(),
            m.executed@ == Map::<u64, Vec<u64>>::empty(),
            m.next_id == 1,
    {
        let mut m = MultiOwnership::new(Test::config());
        m.set_block_number(1);
        m
    }
}

/// The note text the scenario tests attach to proposals.
pub open spec fn spec_change_note() -> Seq<u8> {
    seq![
        68u8, 101u8, 102u8, 97u8, 117u8, 108u8, 116u8, 32u8, 99u8, 104u8, 97u8, 110u8, 103u8,
        101u8, 32u8, 112u8, 114u8, 111u8, 112u8, 111u8, 115u8, 97u8, 108u8,
    ]
}

/// The bytes of "Default change proposal".
pub fn change_note() -> (r: Vec<u8>)
    ensures
        r@ == spec_change_note(),
{
    let mut r: Vec<u8> = Vec::new();
    r.push(68);
    r.push(101);
    r.push(102);
    r.push(97);
    r.push(117);
    r.push(108);
    r.push(116);
    r.push(32);
    r.push(99);
    r.push(104);
    r.push(97);
    r.push(110);
    r.push(103);
    r.push(101);
    r.push(32);
    r.push(112);
    r.push(114);
    r.push(111);
    r.push(112);
    r.push(111);
    r.push(115);
    r.push(97);
    r.push(108);
    assert(r@ =~= spec_change_note());
    r
}

} // verus!
