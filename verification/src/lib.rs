//! An escrow ledger for payments attached to messages. A sender puts funds
//! in escrow for a message; the recipient approves, and is paid, or rejects,
//! and the sender is paid back. Donations move funds at once. Every account
//! that stores a record keeps the reserve that its storage requires.
//!
//! The ledger is verified against a mathematical model of itself, `model`,
//! and what holds of every ledger is stated and proved in `laws`.

pub mod accounts;
pub mod address;
pub mod donation;
pub mod error;
pub mod escrow;
pub mod funds;
pub mod laws;
pub mod ledger;
pub mod model;
pub mod operation;
pub mod record;

pub use crate::accounts::Authority;
pub use crate::accounts::CreateMessagePayment;
pub use crate::accounts::DonateFunds;
pub use crate::accounts::ProcessMessagePayment;
pub use crate::address::Address;
pub use crate::donation::donate_funds;
pub use crate::error::EscrowError;
pub use crate::escrow::approve_escrow_at;
pub use crate::escrow::approve_message_payment;
pub use crate::escrow::create_escrow_at;
pub use crate::escrow::create_message_payment;
pub use crate::escrow::derive_for_record;
pub use crate::escrow::reject_escrow_at;
pub use crate::escrow::reject_message_payment;
pub use crate::funds::creation_due;
pub use crate::funds::payable;
pub use crate::ledger::Ledger;
pub use crate::operation::execute;
pub use crate::operation::Operation;
pub use crate::record::escrow_address;
pub use crate::record::EscrowStatus;
pub use crate::record::MessageEscrow;
