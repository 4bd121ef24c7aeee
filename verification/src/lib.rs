//! A verified value-transfer ledger program: instruction decoding, account
//! identity validation, tip lifecycle management, and an escrow/airdrop
//! accounting engine with fee splitting.
//!
//! The ledger runtime itself (signature checking at the transaction boundary,
//! atomic commit, persistent account storage) is an external collaborator; the
//! engine here is a pure state-transition function over the account list that
//! the runtime hands to one invocation.

pub mod codec;
pub mod engine;
pub mod escrow;
pub mod identity;
pub mod ledger;
pub mod registry;
pub mod session;
pub mod tips;

use vstd::prelude::*;

verus! {

} // verus!
