//! Shared control of a named resource (a "space") by a set of owner accounts
//! through an N-of-M threshold agreement protocol.
//!
//! Any current owner may propose a change to the owner set or to the
//! confirmation threshold; the change executes once enough distinct owners
//! have confirmed it, may be cancelled by its proposer, and is swept away
//! once its lifetime has elapsed. Every operation is all-or-nothing: a
//! rejected request leaves no observable mutation.

pub mod types;
pub mod util;
pub mod owner_set;
pub mod state;
pub mod create;
pub mod propose;
pub mod confirm;
pub mod cancel;
pub mod expiry;
pub mod mock;
pub mod faucet;
pub mod laws;
