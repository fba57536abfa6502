use vstd::prelude::*;

verus! {

/// Why an operation on the ledger was refused.
#[derive(Clone, Copy, Debug, PartialEq, Eq, Structural)]
pub enum EscrowError {
    /// The record named is not pending.
    InvalidEscrowStatus,
    /// The caller is not the record's recipient, or has not signed.
    InvalidRecipient,
    /// The funding party is not the one required, or has not signed.
    InvalidSender,
    /// A message identifier or a record address is malformed or oversized.
    InvalidInput,
    /// A record already sits at the address derived for the message.
    DuplicateEscrow,
    /// The debit exceeds the balance available.
    InsufficientFunds,
    /// A record account holds less than its reserve.
    ArithmeticUnderflow,
}

impl EscrowError {
    /// The message attached to each error.
    pub open spec fn message(self) -> Seq<char> {
        match self {
            EscrowError::InvalidEscrowStatus => "Invalid escrow status"@,
            EscrowError::InvalidRecipient => "Invalid recipient"@,
            EscrowError::InvalidSender => "Invalid sender"@,
            EscrowError::InvalidInput => "Invalid input"@,
            EscrowError::DuplicateEscrow => "Duplicate escrow"@,
            EscrowError::InsufficientFunds => "Insufficient funds"@,
            EscrowError::ArithmeticUnderflow => "Arithmetic underflow"@,
        }
    }

    /// The error's message as text.
    pub fn to_string(&self) -> (text: String)
        ensures
            text@ == self.message(),
    {
        match self {
            EscrowError::InvalidEscrowStatus => "Invalid escrow status".to_owned(),
            EscrowError::InvalidRecipient => "Invalid recipient".to_owned(),
            EscrowError::InvalidSender => "Invalid sender".to_owned(),
            EscrowError::InvalidInput => "Invalid input".to_owned(),
            EscrowError::DuplicateEscrow => "Duplicate escrow".to_owned(),
            EscrowError::InsufficientFunds => "Insufficient funds".to_owned(),
            EscrowError::ArithmeticUnderflow => "Arithmetic underflow".to_owned(),
        }
    }
}

} // verus!
