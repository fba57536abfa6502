use crate::address::find_program_address;
use crate::address::program_address;
use crate::address::Address;
use vstd::prelude::*;
use vstd::slice::*;
use vstd::string::*;
use vstd::utf8::*;

verus! {

/// Longest message identifier a record can store, in bytes of UTF-8.
pub const MAX_MESSAGE_ID_LEN: usize = 50;

/// Number of leading bytes of a message identifier that name its record.
pub const SEED_PREFIX_LEN: usize = 4;

/// Bytes set aside for one stored record.
pub const RECORD_SPACE: usize = 151;

/// Where a payment stands. `Approved` and `Rejected` are terminal.
#[derive(Clone, Copy, Debug, PartialEq, Eq, Structural)]
pub enum EscrowStatus {
    Pending,
    Approved,
    Rejected,
}

impl EscrowStatus {
    /// No transition leaves this status.
    pub open spec fn terminal(self) -> bool {
        self != EscrowStatus::Pending
    }

    /// The status by name.
    pub open spec fn label(self) -> Seq<char> {
        match self {
            EscrowStatus::Pending => "Pending"@,
            EscrowStatus::Approved => "Approved"@,
            EscrowStatus::Rejected => "Rejected"@,
        }
    }

    /// Whether the payment has been settled.
    pub fn is_terminal(&self) -> (r: bool)
        ensures
            r == self.terminal(),
    {
        match self {
            EscrowStatus::Pending => false,
            _ => true,
        }
    }

    /// The status as text.
    pub fn to_string(&self) -> (text: String)
        ensures
            text@ == self.label(),
    {
        match self {
            EscrowStatus::Pending => "Pending".to_owned(),
            EscrowStatus::Approved => "Approved".to_owned(),
            EscrowStatus::Rejected => "Rejected".to_owned(),
        }
    }
}

/// One conditional payment: who funded it, who decides on it, and where it
/// stands.
#[derive(Debug)]
pub struct MessageEscrow {
    /// Who funded the payment.
    pub sender: Address,
    /// Who approves or rejects it.
    pub recipient: Address,
    /// The amount asked for at creation. A settlement pays what the record
    /// account holds above its reserve, whatever this says.
    pub amount: u64,
    /// The message that the payment is for.
    pub message_id: String,
    pub status: EscrowStatus,
    /// Seconds since the epoch at creation.
    pub created_at: i64,
    /// Seconds since the epoch at settlement; zero while pending.
    pub processed_at: i64,
}

/// What a record holds, with the message identifier as a sequence of
/// characters.
pub struct EscrowView {
    pub sender: Address,
    pub recipient: Address,
    pub amount: u64,
    pub message_id: Seq<char>,
    pub status: EscrowStatus,
    pub created_at: i64,
    pub processed_at: i64,
}

impl View for MessageEscrow {
    type V = EscrowView;

    open spec fn view(&self) -> EscrowView {
        EscrowView {
            sender: self.sender,
            recipient: self.recipient,
            amount: self.amount,
            message_id: self.message_id@,
            status: self.status,
            created_at: self.created_at,
            processed_at: self.processed_at,
        }
    }
}

impl Clone for MessageEscrow {
    fn clone(&self) -> (copy: MessageEscrow)
        ensures
            copy == *self,
    {
        MessageEscrow {
            sender: self.sender,
            recipient: self.recipient,
            amount: self.amount,
            message_id: self.message_id.clone(),
            status: self.status,
            created_at: self.created_at,
            processed_at: self.processed_at,
        }
    }
}

impl MessageEscrow {
    /// Bytes set aside for one stored record: an 8-byte type tag, two 32-byte
    /// identities, the 8-byte amount, the message identifier behind a 4-byte
    /// length, one byte of status and two 8-byte timestamps.
    pub fn space() -> (n: usize)
        ensures
            n == 8 + 32 + 32 + 8 + (4 + MAX_MESSAGE_ID_LEN) + 1 + 8 + 8,
            n == RECORD_SPACE,
    {
        8 + 32 + 32 + 8 + (4 + MAX_MESSAGE_ID_LEN) + 1 + 8 + 8
    }
}

/// Bytes that a record takes in storage: the type tag, the two identities,
/// the amount, the identifier behind its length, the status and the two
/// timestamps.
pub open spec fn stored_size(message_id: Seq<char>) -> nat {
    (8 + 32 + 32 + 8 + 4 + encode_utf8(message_id).len() + 1 + 8 + 8) as nat
}

/// The seed that sets escrow records apart from other derived addresses:
/// the bytes of `msg`.
pub open spec fn escrow_namespace() -> Seq<u8> {
    seq![109u8, 115u8, 103u8]
}

/// The identifier is long enough to have a seed prefix, and the prefix ends
/// between two characters.
pub open spec fn has_seed_prefix(message_id: Seq<char>) -> bool {
    let bytes = encode_utf8(message_id);
    SEED_PREFIX_LEN <= bytes.len() && is_char_boundary(bytes, SEED_PREFIX_LEN as int)
}

/// The leading bytes of the identifier, which alone name its record.
pub open spec fn seed_prefix(message_id: Seq<char>) -> Seq<u8> {
    encode_utf8(message_id).subrange(0, SEED_PREFIX_LEN as int)
}

/// The identifier has a seed prefix and fits in a stored record.
pub open spec fn message_id_ok(message_id: Seq<char>) -> bool {
    has_seed_prefix(message_id) && encode_utf8(message_id).len() <= MAX_MESSAGE_ID_LEN
}

/// The address of the record for a message under a program, with its bump
/// seed: derived from the namespace and the identifier's seed prefix.
pub open spec fn escrow_address_of(program_id: Address, message_id: Seq<char>) -> Option<
    (Address, u8),
> {
    if has_seed_prefix(message_id) {
        program_address(program_id, escrow_namespace(), seed_prefix(message_id))
    } else {
        None
    }
}

/// The seed prefix of an identifier, where it has one.
pub fn seed_prefix_bytes(message_id: &str) -> (prefix: Option<Vec<u8>>)
    ensures
        prefix is Some <==> has_seed_prefix(message_id@),
        prefix matches Some(bytes) ==> bytes@ == seed_prefix(message_id@),
{
    let bytes = message_id.as_bytes();
    if bytes.len() < SEED_PREFIX_LEN || !message_id.is_char_boundary(SEED_PREFIX_LEN) {
        return None;
    }
    Some(slice_to_vec(slice_subrange(bytes, 0, SEED_PREFIX_LEN)))
}

/// Whether an identifier can name a new record.
pub fn check_message_id(message_id: &str) -> (ok: bool)
    ensures
        ok == message_id_ok(message_id@),
{
    let bytes = message_id.as_bytes();
    SEED_PREFIX_LEN <= bytes.len() && bytes.len() <= MAX_MESSAGE_ID_LEN
        && message_id.is_char_boundary(SEED_PREFIX_LEN)
}

/// Where the record for a message lives under a program. Identifiers that
/// agree on their seed prefix share one address.
pub fn escrow_address(program_id: &Address, message_id: &str) -> (found: Option<(Address, u8)>)
    ensures
        found == escrow_address_of(*program_id, message_id@),
{
    match seed_prefix_bytes(message_id) {
        Some(prefix) => {
            let namespace: [u8; 3] = [109u8, 115u8, 103u8];
            assert(namespace@ =~= escrow_namespace());
            find_program_address(program_id, namespace.as_slice(), prefix.as_slice())
        },
        None => None,
    }
}

} // verus!
