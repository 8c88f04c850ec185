//! Core data model: identifiers, configuration, the per-space ownership
//! record, the change proposal record, and the error taxonomy.

use vstd::prelude::*;

verus! {

/// Identifier of a space, the resource whose ownership is jointly controlled.
pub type SpaceId = u64;

/// Identifier of an account that may own spaces.
pub type AccountId = u64;

/// Identifier of a change proposal, globally unique and never reused.
pub type ChangeId = u64;

/// Height of the enclosing block clock.
pub type BlockNumber = u64;

/// Typed, recoverable failure of an operation. Every check runs before any
/// mutation, so a failing operation leaves no observable side effect.
#[derive(Clone, Copy, Debug, PartialEq, Eq, Structural)]
pub enum Error {
    /// An ownership record for this space already exists.
    AlreadyExists,
    /// The supplied owner list holds fewer accounts than the configured minimum.
    NotEnoughOwners,
    /// The supplied owner list holds more accounts than the configured maximum.
    TooManyOwners,
    /// The supplied owner list names the same account twice.
    DuplicateOwners,
    /// The (effective) confirmation threshold is zero.
    ZeroThreshold,
    /// The (effective) confirmation threshold exceeds the owner-set size or
    /// the configured maximum.
    TooBigThreshold,
    /// The caller is not a current owner of the space.
    NotASpaceOwner,
    /// A pending change already exists for the space.
    PendingChangeAlreadyExists,
    /// Applying the proposed additions and removals would leave the space
    /// without any owner.
    NoSpaceOwnersLeft,
    /// The proposal changes neither the owner set nor the threshold.
    NoFieldsUpdatedOnProposal,
    /// The free-text notes exceed the configured maximum length.
    ChangeNotesOversize,
    /// No pending change with this id exists for this space.
    ChangeNotRelatedToSpace,
    /// The caller has already confirmed this change.
    ChangeAlreadyConfirmed,
    /// Only the original proposer may cancel a pending change.
    NotAChangeCreator,
}

/// Configuration supplied at construction and fixed for the system's lifetime.
#[derive(Clone, Copy)]
pub struct OwnershipConfig {
    /// Smallest owner set `create_space_owners` accepts.
    pub min_space_owners: u16,
    /// Largest owner set `create_space_owners` accepts; also the cap on any
    /// confirmation threshold.
    pub max_space_owners: u16,
    /// Longest free-text notes a proposal may carry, in bytes.
    pub max_change_notes_length: u16,
    /// Lifetime of a pending change, in blocks.
    pub blocks_to_live: u64,
    /// The expiry sweep runs on every block height divisible by this period.
    pub delete_expired_changes_period: u64,
    /// Largest number of expired changes one sweep invocation removes.
    pub max_expired_changes_per_sweep: u64,
}

impl OwnershipConfig {
    pub open spec fn wf(self) -> bool {
        &&& self.min_space_owners >= 1
        &&& self.min_space_owners <= self.max_space_owners
        &&& self.delete_expired_changes_period >= 1
    }
}

/// No account appears twice in the sequence.
pub open spec fn unique(s: Seq<u64>) -> bool {
    forall|i: int, j: int| 0 <= i < j < s.len() ==> s[i] != s[j]
}

/// The sequence is sorted in strictly ascending order (so also duplicate-free).
pub open spec fn strictly_increasing(s: Seq<u64>) -> bool {
    forall|i: int, j: int| 0 <= i < j < s.len() ==> s[i] < s[j]
}

/// Persistent record of a space's current owner set and threshold.
pub struct SpaceOwners {
    /// The space this record belongs to.
    pub space_id: SpaceId,
    /// Current owners, duplicate-free and never empty.
    pub owners: Vec<AccountId>,
    /// Distinct confirmations required to execute a pending change.
    pub threshold: u16,
    /// How many changes have ever executed for this space.
    pub changes_count: u64,
}

impl SpaceOwners {
    pub open spec fn wf(self, cfg: OwnershipConfig, sid: SpaceId) -> bool {
        &&& self.space_id == sid
        &&& self.owners@.len() >= 1
        &&& unique(self.owners@)
        &&& self.threshold >= 1
        &&& self.threshold as int <= self.owners@.len()
        &&& self.threshold <= cfg.max_space_owners
    }
}

/// A proposed mutation of a space's owner set and threshold, awaiting
/// confirmations.
pub struct Change {
    /// Globally unique id, assigned monotonically.
    pub id: ChangeId,
    /// The space the change targets.
    pub space_id: SpaceId,
    /// Accounts to add to the owner set.
    pub add_owners: Vec<AccountId>,
    /// Accounts to remove from the owner set.
    pub remove_owners: Vec<AccountId>,
    /// Replacement threshold, if the proposal changes it.
    pub new_threshold: Option<u16>,
    /// Bounded free text describing the proposal.
    pub notes: Vec<u8>,
    /// Distinct accounts that confirmed, in confirmation order; the proposer
    /// stands first and is placed there at creation.
    pub confirmed_by: Vec<AccountId>,
    /// Block height at creation.
    pub created_at: BlockNumber,
    /// Height at which the change expires: `created_at + blocks_to_live`.
    pub expires_at: BlockNumber,
}

impl Change {
    pub open spec fn wf(self, cfg: OwnershipConfig) -> bool {
        &&& self.confirmed_by@.len() >= 1
        &&& unique(self.confirmed_by@)
        &&& self.notes@.len() <= cfg.max_change_notes_length
        &&& self.expires_at == self.created_at + cfg.blocks_to_live
    }
}

} // verus!
