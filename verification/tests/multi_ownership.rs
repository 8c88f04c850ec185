//! The ownership engine's scenario tests: creating a space's owner record,
//! proposing, confirming and cancelling changes.

use space_multi_ownership::mock::{change_note, ExtBuilder};
use space_multi_ownership::state::MultiOwnership;
use space_multi_ownership::types::Error;

type AccountId = u64;
type SpaceId = u64;
type ChangeId = u64;

const ACCOUNT1: AccountId = 1;
const ACCOUNT2: AccountId = 2;
const ACCOUNT3: AccountId = 3;
const ACCOUNT4: AccountId = 4;

fn _create_default_space_owners(m: &mut MultiOwnership) -> Result<(), Error> {
    _create_space_owners(m, None, None, None, None)
}

fn _create_space_owners(
    m: &mut MultiOwnership,
    origin: Option<AccountId>,
    space_id: Option<SpaceId>,
    owners: Option<Vec<AccountId>>,
    threshold: Option<u16>,
) -> Result<(), Error> {
    m.create_space_owners(
        origin.unwrap_or(ACCOUNT1),
        space_id.unwrap_or(1),
        owners.unwrap_or_else(|| vec![ACCOUNT1, ACCOUNT2]),
        threshold.unwrap_or(2),
    )
}

fn _propose_default_change(m: &mut MultiOwnership) -> Result<ChangeId, Error> {
    _propose_change(m, None, None, None, None, None, None)
}

fn _propose_change_on_second_space(m: &mut MultiOwnership) {
    assert!(_propose_change(
        m,
        Some(ACCOUNT3),
        Some(2),
        Some(vec![ACCOUNT1]),
        Some(vec![]),
        Some(Some(2)),
        Some(change_note()),
    )
    .is_ok());
}

#[allow(clippy::option_option)]
fn _propose_change(
    m: &mut MultiOwnership,
    origin: Option<AccountId>,
    space_id: Option<SpaceId>,
    add_owners: Option<Vec<AccountId>>,
    remove_owners: Option<Vec<AccountId>>,
    new_threshold: Option<Option<u16>>,
    notes: Option<Vec<u8>>,
) -> Result<ChangeId, Error> {
    m.propose_change(
        origin.unwrap_or(ACCOUNT1),
        space_id.unwrap_or(1),
        add_owners.unwrap_or_else(|| vec![ACCOUNT3]),
        remove_owners.unwrap_or_else(Vec::new),
        new_threshold.unwrap_or(Some(3)),
        notes.unwrap_or_else(change_note),
    )
}

fn _confirm_default_change(m: &mut MultiOwnership) -> Result<(), Error> {
    _confirm_change(m, None, None, None)
}

fn _confirm_change(
    m: &mut MultiOwnership,
    origin: Option<AccountId>,
    space_id: Option<SpaceId>,
    change_id: Option<ChangeId>,
) -> Result<(), Error> {
    m.confirm_change(origin.unwrap_or(ACCOUNT2), space_id.unwrap_or(1), change_id.unwrap_or(1))
}

fn _cancel_default_proposal(m: &mut MultiOwnership) -> Result<(), Error> {
    _cancel_change(m, None, None, None)
}

fn _cancel_change(
    m: &mut MultiOwnership,
    origin: Option<AccountId>,
    space_id: Option<SpaceId>,
    change_id: Option<ChangeId>,
) -> Result<(), Error> {
    m.cancel_change(origin.unwrap_or(ACCOUNT1), space_id.unwrap_or(1), change_id.unwrap_or(1))
}

#[test]
fn create_space_owners_should_work() {
    let mut m = ExtBuilder::build();
    assert!(_create_default_space_owners(&mut m).is_ok());

    // Check storages
    let mut check: Vec<u64> = m.space_ids_owned_by_account_id(ACCOUNT1);
    assert_eq!(check, vec![1]);

    check = m.space_ids_owned_by_account_id(ACCOUNT2);
    assert_eq!(check, vec![1]);

    // Check whether data is stored correctly
    let space_owners = m.space_owners_by_space_id(1).unwrap();
    assert_eq!(space_owners.owners, vec![ACCOUNT1, ACCOUNT2]);
    assert_eq!(space_owners.space_id, 1);
    assert_eq!(space_owners.threshold, 2);
    assert_eq!(space_owners.changes_count, 0);
}

// -------

#[test]
fn propose_change_should_work() {
    let mut m = ExtBuilder::build();
    assert!(_create_default_space_owners(&mut m).is_ok());
    assert!(_propose_default_change(&mut m).is_ok());

    // Check storages
    let set_to_vec: Vec<u64> = m.pending_change_ids();
    assert_eq!(set_to_vec, vec![1]);
    assert_eq!(m.pending_change_id_by_space_id(1), Some(1));
    assert_eq!(m.next_change_id(), 2);

    // Check whether data is stored correctly
    let change = m.change_by_id(1).unwrap();
    assert_eq!(change.add_owners, vec![ACCOUNT3]);
    assert_eq!(change.remove_owners, vec![]);
    assert_eq!(change.new_threshold, Some(3));
    assert_eq!(change.notes, change_note());
    assert_eq!(change.confirmed_by, vec![ACCOUNT1]);
}

#[test]
fn propose_change_should_work_with_only_one_owner() {
    let mut m = ExtBuilder::build();
    assert!(_create_default_space_owners(&mut m).is_ok());
    assert!(_propose_change(
        &mut m,
        None,
        None,
        Some(vec![ACCOUNT3]),
        Some(vec![ACCOUNT1, ACCOUNT2]),
        Some(Some(1)),
        None,
    )
    .is_ok());

    // Check storages
    assert_eq!(m.pending_change_id_by_space_id(1), Some(1));
    assert_eq!(m.next_change_id(), 2);

    // Check whether data is stored correctly
    let change = m.change_by_id(1).unwrap();
    assert_eq!(change.add_owners, vec![ACCOUNT3]);
    assert_eq!(change.remove_owners, vec![ACCOUNT1, ACCOUNT2]);
    assert_eq!(change.new_threshold, Some(1));
    assert_eq!(change.notes, change_note());
    assert_eq!(change.confirmed_by, vec![ACCOUNT1]);
}

#[test]
fn propose_change_should_fail_zero_threshold() {
    let mut m = ExtBuilder::build();
    assert!(_create_default_space_owners(&mut m).is_ok());
    assert_eq!(
        _propose_change(&mut m, None, None, Some(vec![]), Some(vec![]), Some(Some(0)), None),
        Err(Error::ZeroThreshold)
    );
}

#[test]
fn propose_change_should_fail_too_big_threshold() {
    let mut m = ExtBuilder::build();
    assert!(_create_default_space_owners(&mut m).is_ok());
    assert_eq!(
        _propose_change(&mut m, None, None, Some(vec![]), Some(vec![]), Some(Some(3)), None),
        Err(Error::TooBigThreshold)
    );
}

#[test]
fn propose_change_should_fail_no_owners_left() {
    let mut m = ExtBuilder::build();
    assert!(_create_default_space_owners(&mut m).is_ok());
    assert_eq!(
        _propose_change(
            &mut m,
            None,
            None,
            Some(vec![]),
            Some(vec![ACCOUNT1, ACCOUNT2]),
            Some(None),
            None,
        ),
        Err(Error::NoSpaceOwnersLeft)
    );
}

#[test]
fn propose_change_should_fail_proposal_already_exist() {
    let mut m = ExtBuilder::build();
    assert!(_create_default_space_owners(&mut m).is_ok());
    assert!(_propose_default_change(&mut m).is_ok());
    assert_eq!(
        _propose_change(&mut m, Some(ACCOUNT2), None, None, None, Some(None), None),
        Err(Error::PendingChangeAlreadyExists)
    );
}

#[test]
fn propose_change_should_fail_no_updates_on_owners() {
    let mut m = ExtBuilder::build();
    assert!(_create_default_space_owners(&mut m).is_ok());
    assert_eq!(
        _propose_change(
            &mut m,
            None,
            None,
            Some(vec![]),
            Some(vec![ACCOUNT3]),
            Some(None),
            None,
        ),
        Err(Error::NoFieldsUpdatedOnProposal)
    );
}

#[test]
fn propose_change_should_fail_no_updates_on_threshold() {
    let mut m = ExtBuilder::build();
    assert!(_create_default_space_owners(&mut m).is_ok());
    assert_eq!(
        _propose_change(&mut m, None, None, Some(vec![]), Some(vec![]), Some(Some(2)), None),
        Err(Error::NoFieldsUpdatedOnProposal)
    );
}

#[test]
fn propose_change_should_fail_not_a_space_owner() {
    let mut m = ExtBuilder::build();
    assert!(_create_default_space_owners(&mut m).is_ok());
    assert_eq!(
        _propose_change(
            &mut m,
            Some(ACCOUNT3),
            None,
            Some(vec![]),
            Some(vec![]),
            Some(Some(2)),
            None,
        ),
        Err(Error::NotASpaceOwner)
    );
}

// -------

#[test]
fn confirm_change_should_work_owner_added() {
    let mut m = ExtBuilder::build();
    assert!(_create_default_space_owners(&mut m).is_ok());
    assert!(_propose_default_change(&mut m).is_ok());
    assert!(_confirm_default_change(&mut m).is_ok());

    // Check storages
    assert_eq!(m.pending_change_id_by_space_id(1), None);
    assert_eq!(m.executed_change_ids_by_space_id(1), vec![1]);
    assert_eq!(m.next_change_id(), 2);

    // Check whether data is stored correctly
    let change = m.change_by_id(1).unwrap();
    assert_eq!(change.confirmed_by, vec![ACCOUNT1, ACCOUNT2]);

    // Check whether updates applied
    let space_owners = m.space_owners_by_space_id(1).unwrap();
    assert_eq!(space_owners.owners, vec![ACCOUNT1, ACCOUNT2, ACCOUNT3]);
    assert_eq!(space_owners.threshold, 3);
}

#[test]
fn confirm_change_should_work_owner_removed() {
    let mut m = ExtBuilder::build();
    assert!(_create_default_space_owners(&mut m).is_ok());
    assert!(_propose_change(
        &mut m,
        None,
        None,
        Some(vec![]),
        Some(vec![ACCOUNT2]),
        Some(Some(1)),
        None,
    )
    .is_ok());
    assert!(_confirm_default_change(&mut m).is_ok());

    // Check storages
    assert_eq!(m.pending_change_id_by_space_id(1), None);
    assert_eq!(m.executed_change_ids_by_space_id(1), vec![1]);
    assert_eq!(m.next_change_id(), 2);

    // Check whether data is stored correctly
    let change = m.change_by_id(1).unwrap();
    assert_eq!(change.confirmed_by, vec![ACCOUNT1, ACCOUNT2]);

    // Check whether updates applied
    let space_owners = m.space_owners_by_space_id(1).unwrap();
    assert_eq!(space_owners.owners, vec![ACCOUNT1]);
    assert_eq!(space_owners.threshold, 1);
}

#[test]
fn confirm_change_should_fail_not_related_to_space_owners() {
    let mut m = ExtBuilder::build();
    assert!(_create_default_space_owners(&mut m).is_ok());
    assert!(_propose_default_change(&mut m).is_ok());
    assert!(_create_space_owners(&mut m, Some(ACCOUNT3), Some(2), Some(vec![ACCOUNT3]), Some(1))
        .is_ok());

    _propose_change_on_second_space(&mut m);

    assert_eq!(
        _confirm_change(&mut m, None, Some(1), Some(2)),
        Err(Error::ChangeNotRelatedToSpace)
    );
}

#[test]
fn confirm_change_should_fail_already_confirmed() {
    let mut m = ExtBuilder::build();
    assert!(_create_space_owners(
        &mut m,
        Some(ACCOUNT1),
        Some(1),
        Some(vec![ACCOUNT1, ACCOUNT2, ACCOUNT4]),
        Some(3),
    )
    .is_ok());
    assert!(_propose_default_change(&mut m).is_ok());
    assert!(_confirm_default_change(&mut m).is_ok());

    assert_eq!(_confirm_default_change(&mut m), Err(Error::ChangeAlreadyConfirmed));
}

#[test]
fn confirm_change_should_fail_not_a_space_owner() {
    let mut m = ExtBuilder::build();
    assert!(_create_default_space_owners(&mut m).is_ok());
    assert!(_propose_default_change(&mut m).is_ok());
    assert_eq!(
        _confirm_change(&mut m, Some(ACCOUNT3), None, None),
        Err(Error::NotASpaceOwner)
    );
}

// -------

#[test]
fn cancel_proposal_should_work() {
    let mut m = ExtBuilder::build();
    assert!(_create_default_space_owners(&mut m).is_ok());
    assert!(_propose_default_change(&mut m).is_ok());
    assert!(_cancel_default_proposal(&mut m).is_ok());

    // Check storages
    let set_to_vec: Vec<u64> = m.pending_change_ids();
    assert_eq!(set_to_vec, vec![]);
    assert_eq!(m.pending_change_id_by_space_id(1), None);
    assert_eq!(m.next_change_id(), 2);
    assert!(m.change_by_id(1).is_none());
}

#[test]
fn cancel_proposal_should_fail_not_related_to_space_owners() {
    let mut m = ExtBuilder::build();
    assert!(_create_default_space_owners(&mut m).is_ok());
    assert!(_propose_default_change(&mut m).is_ok());
    assert!(_create_space_owners(&mut m, Some(ACCOUNT3), Some(2), Some(vec![ACCOUNT3]), Some(1))
        .is_ok());

    _propose_change_on_second_space(&mut m);

    assert_eq!(
        _cancel_change(&mut m, None, Some(1), Some(2)),
        Err(Error::ChangeNotRelatedToSpace)
    );
}

#[test]
fn cancel_proposal_should_fail_not_a_creator() {
    let mut m = ExtBuilder::build();
    assert!(_create_default_space_owners(&mut m).is_ok());
    assert!(_propose_default_change(&mut m).is_ok());
    assert_eq!(
        _cancel_change(&mut m, Some(ACCOUNT2), None, None),
        Err(Error::NotAChangeCreator)
    );
}

#[test]
fn cancel_proposal_should_fail_not_a_space_owner() {
    let mut m = ExtBuilder::build();
    assert!(_create_default_space_owners(&mut m).is_ok());
    assert!(_propose_default_change(&mut m).is_ok());
    assert_eq!(
        _cancel_change(&mut m, Some(ACCOUNT3), None, None),
        Err(Error::NotASpaceOwner)
    );
}
