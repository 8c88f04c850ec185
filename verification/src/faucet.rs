//! Default settings of the token-drip feature that the test environment
//! installs; the feature's own logic lives outside this crate's scope.

use vstd::prelude::*;

verus! {

/// Settings of one faucet account: how often it may drip, how much per
/// period, and how much per single drip.
pub struct FaucetSettings {
    /// Length of a drip period in blocks, or `None` for no period.
    pub period: Option<u64>,
    /// Largest amount one period may pay out.
    pub period_limit: u64,
    /// Largest amount one drip may pay out.
    pub drop_limit: u64,
}

/// A partial update of `FaucetSettings`: only the present fields change.
pub struct FaucetSettingsUpdate {
    /// Replacement for `period`, if present.
    pub period: Option<Option<u64>>,
    /// Replacement for `period_limit`, if present.
    pub period_limit: Option<u64>,
    /// Replacement for `drop_limit`, if present.
    pub drop_limit: Option<u64>,
}

/// The faucet settings the test environment installs.
pub fn default_faucet_settings() -> (s: FaucetSettings)
    ensures
        s.period == Some(100u64),
        s.period_limit == 50,
        s.drop_limit == 25,
{
    FaucetSettings { period: Some(100), period_limit: 50, drop_limit: 25 }
}

/// The faucet settings update the test environment applies.
pub fn default_faucet_settings_update() -> (u: FaucetSettingsUpdate)
    ensures
        u.period == Some(Some(7200u64)),
        u.period_limit == Some(100u64),
        u.drop_limit == Some(50u64),
{
    FaucetSettingsUpdate { period: Some(Some(7200)), period_limit: Some(100), drop_limit: Some(50) }
}

} // verus!
