//! Edge cases beyond the main scenarios: creation failures, proposal-note
//! bounds, execution finality, the expiry sweep and its per-sweep bound, and
//! the fixed defaults.

use space_multi_ownership::faucet::{default_faucet_settings, default_faucet_settings_update};
use space_multi_ownership::mock::{change_note, ExtBuilder};
use space_multi_ownership::state::MultiOwnership;
use space_multi_ownership::types::{Error, OwnershipConfig};

fn build_two_owner_space() -> MultiOwnership {
    let mut m = ExtBuilder::build();
    assert!(m.create_space_owners(1, 1, vec![1, 2], 2).is_ok());
    m
}

#[test]
fn create_space_owners_should_fail_already_exists() {
    let mut m = build_two_owner_space();
    assert_eq!(m.create_space_owners(1, 1, vec![3], 1), Err(Error::AlreadyExists));
}

#[test]
fn create_space_owners_should_fail_no_owners() {
    let mut m = ExtBuilder::build();
    assert_eq!(m.create_space_owners(1, 1, vec![], 1), Err(Error::NotEnoughOwners));
}

#[test]
fn create_space_owners_should_fail_duplicate_owners() {
    let mut m = ExtBuilder::build();
    assert_eq!(m.create_space_owners(1, 1, vec![1, 2, 1], 2), Err(Error::DuplicateOwners));
}

#[test]
fn create_space_owners_should_fail_too_many_owners() {
    let mut m = ExtBuilder::build();
    let owners: Vec<u64> = (1..=1001).collect();
    assert_eq!(m.create_space_owners(1, 1, owners, 2), Err(Error::TooManyOwners));
}

#[test]
fn create_space_owners_should_fail_zero_threshold() {
    let mut m = ExtBuilder::build();
    assert_eq!(m.create_space_owners(1, 1, vec![1, 2], 0), Err(Error::ZeroThreshold));
}

#[test]
fn create_space_owners_should_fail_too_big_threshold() {
    let mut m = ExtBuilder::build();
    assert_eq!(m.create_space_owners(1, 1, vec![1, 2], 3), Err(Error::TooBigThreshold));
}

#[test]
fn propose_change_should_fail_oversize_notes() {
    let mut m = build_two_owner_space();
    let notes: Vec<u8> = vec![120; 1025];
    assert_eq!(
        m.propose_change(1, 1, vec![3], vec![], None, notes),
        Err(Error::ChangeNotesOversize)
    );
}

#[test]
fn propose_change_should_fail_unknown_space() {
    let mut m = ExtBuilder::build();
    assert_eq!(
        m.propose_change(1, 9, vec![3], vec![], None, change_note()),
        Err(Error::NotASpaceOwner)
    );
}

#[test]
fn proposer_cannot_confirm_own_change() {
    let mut m = build_two_owner_space();
    assert!(m.propose_change(1, 1, vec![3], vec![], Some(3), change_note()).is_ok());
    assert_eq!(m.confirm_change(1, 1, 1), Err(Error::ChangeAlreadyConfirmed));
}

#[test]
fn executed_change_cannot_be_confirmed_again() {
    let mut m = build_two_owner_space();
    assert!(m.propose_change(1, 1, vec![3], vec![], Some(3), change_note()).is_ok());
    assert!(m.confirm_change(2, 1, 1).is_ok());
    // executed: retrievable, out of the pending index, in the history
    assert!(m.change_by_id(1).is_some());
    assert_eq!(m.pending_change_ids(), vec![]);
    assert_eq!(m.executed_change_ids_by_space_id(1), vec![1]);
    assert_eq!(m.confirm_change(3, 1, 1), Err(Error::ChangeNotRelatedToSpace));
}

#[test]
fn proposal_records_creation_and_expiry_heights() {
    let mut m = build_two_owner_space();
    m.set_block_number(20);
    assert!(m.propose_change(1, 1, vec![3], vec![], None, change_note()).is_ok());
    let change = m.change_by_id(1).unwrap();
    assert_eq!(change.created_at, 20);
    assert_eq!(change.expires_at, 20 + 302400);
}

#[test]
fn on_finalize_sweeps_only_on_period_boundaries() {
    let mut m = build_two_owner_space();
    assert!(m.propose_change(1, 1, vec![3], vec![], None, change_note()).is_ok());
    // expired long ago, but the height is off the period
    m.on_finalize(302401 + 1800);
    assert_eq!(m.pending_change_ids(), vec![1]);
    // on the boundary the sweep runs
    m.on_finalize(302400 + 1800);
    assert_eq!(m.pending_change_ids(), vec![]);
    assert!(m.change_by_id(1).is_none());
    assert_eq!(m.pending_change_id_by_space_id(1), None);
    assert_eq!(m.executed_change_ids_by_space_id(1), vec![]);
}

#[test]
fn sweep_keeps_changes_that_still_live() {
    let mut m = build_two_owner_space();
    assert!(m.propose_change(1, 1, vec![3], vec![], None, change_note()).is_ok());
    // created at block 1, expires at 302401: one block early nothing happens
    m.delete_expired_changes(302400);
    assert_eq!(m.pending_change_ids(), vec![1]);
    m.delete_expired_changes(302401);
    assert_eq!(m.pending_change_ids(), vec![]);
}

#[test]
fn sweep_respects_per_invocation_bound() {
    let config = OwnershipConfig {
        min_space_owners: 1,
        max_space_owners: 1000,
        max_change_notes_length: 1024,
        blocks_to_live: 10,
        delete_expired_changes_period: 5,
        max_expired_changes_per_sweep: 1,
    };
    let mut m = MultiOwnership::new(config);
    m.set_block_number(1);
    assert!(m.create_space_owners(1, 1, vec![1, 2], 2).is_ok());
    assert!(m.create_space_owners(3, 2, vec![3], 1).is_ok());
    assert!(m.propose_change(1, 1, vec![4], vec![], None, vec![]).is_ok());
    assert!(m.propose_change(3, 2, vec![5], vec![], None, vec![]).is_ok());
    // both expired at height 11; the bound lets one go per sweep, oldest first
    m.delete_expired_changes(11);
    assert_eq!(m.pending_change_ids(), vec![2]);
    assert!(m.change_by_id(1).is_none());
    assert!(m.change_by_id(2).is_some());
    m.delete_expired_changes(11);
    assert_eq!(m.pending_change_ids(), vec![]);
    assert!(m.change_by_id(2).is_none());
}

#[test]
fn two_spaces_keep_independent_pending_changes() {
    let mut m = build_two_owner_space();
    assert!(m.create_space_owners(3, 2, vec![3, 4], 2).is_ok());
    assert!(m.propose_change(1, 1, vec![5], vec![], None, change_note()).is_ok());
    assert!(m.propose_change(3, 2, vec![6], vec![], None, change_note()).is_ok());
    assert_eq!(m.pending_change_ids(), vec![1, 2]);
    assert_eq!(m.pending_change_id_by_space_id(1), Some(1));
    assert_eq!(m.pending_change_id_by_space_id(2), Some(2));
    // cancelling space 1's change leaves space 2's alone
    assert!(m.cancel_change(1, 1, 1).is_ok());
    assert_eq!(m.pending_change_ids(), vec![2]);
    assert_eq!(m.pending_change_id_by_space_id(2), Some(2));
    assert!(m.change_by_id(2).is_some());
}

#[test]
fn reverse_index_follows_executed_changes() {
    let mut m = build_two_owner_space();
    assert!(m.propose_change(1, 1, vec![3], vec![2], Some(1), change_note()).is_ok());
    assert!(m.confirm_change(2, 1, 1).is_ok());
    let space_owners = m.space_owners_by_space_id(1).unwrap();
    assert_eq!(space_owners.owners, vec![1, 3]);
    assert_eq!(space_owners.changes_count, 1);
    assert_eq!(m.space_ids_owned_by_account_id(1), vec![1]);
    assert_eq!(m.space_ids_owned_by_account_id(2), vec![]);
    assert_eq!(m.space_ids_owned_by_account_id(3), vec![1]);
}

#[test]
fn change_note_spells_the_default_text() {
    assert_eq!(change_note(), b"Default change proposal".to_vec());
}

#[test]
fn default_faucet_settings_hold_the_fixed_values() {
    let settings = default_faucet_settings();
    assert_eq!(settings.period, Some(100));
    assert_eq!(settings.period_limit, 50);
    assert_eq!(settings.drop_limit, 25);
}

#[test]
fn default_faucet_settings_update_holds_the_fixed_values() {
    let update = default_faucet_settings_update();
    assert_eq!(update.period, Some(Some(7200)));
    assert_eq!(update.period_limit, Some(100));
    assert_eq!(update.drop_limit, Some(50));
}
