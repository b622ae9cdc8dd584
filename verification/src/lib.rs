//! A ledger-and-settlement engine for a programmable-money host: participants
//! claim unique handles, publish pages, sell products, and receive value
//! through donations, purchases, campaign contributions, and reusable payment
//! intents, while a platform fee in basis points accrues to a treasury.
//!
//! The library is the state machine alone. The host's collaborators — caller
//! identity, attached value, the clock, the value-transfer primitive, and
//! event emission — enter as plain arguments and leave as plain results; the
//! one outside computation, the keccak-256 digest that derives payment-intent
//! identifiers, is called through a trusted wrapper.

pub mod account;
pub mod catalog;
pub mod encoding;
pub mod errors;
pub mod fees;
pub mod intents;
pub mod laws;
pub mod ledger;
pub mod registry;
pub mod settle;
pub mod records;

pub use account::AccountId;
pub use account::Role;
pub use errors::OnClickContractError;
pub use ledger::OnClickContract;
