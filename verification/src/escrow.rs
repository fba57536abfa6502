use crate::accounts::CreateMessagePayment;
use crate::accounts::ProcessMessagePayment;
use crate::address::Address;
use crate::error::EscrowError;
use crate::funds::creation_due;
use crate::funds::payable;
use crate::ledger::Ledger;
use crate::model::LedgerView;
use crate::record::check_message_id;
use crate::record::escrow_address;
use crate::record::EscrowStatus;
use crate::record::MessageEscrow;
use vstd::prelude::*;

verus! {

/// Puts a payment in escrow, given what the address derivation yields for
/// the message. The record is stored, pending, at the derived address, and
/// the sender pays the amount and what the record account lacks of its
/// reserve. Any account may be named as recipient. Nothing changes where
/// the request is refused.
///
/// A record account presents no signing authority. A sender that could pay
/// is refused as an invalid sender where its own account holds a record, or
/// is the account that the new record is to live in.
pub fn create_escrow_at(
    ledger: &mut Ledger,
    ctx: &CreateMessagePayment,
    amount: u64,
    message_id: String,
    derived: Option<(Address, u8)>,
    reserve: u64,
    now: i64,
) -> (outcome: Result<(), EscrowError>)
    ensures
        match outcome {
            Ok(()) => old(ledger)@.create_at(*ctx, amount, message_id@, derived, reserve, now)
                == Ok::<LedgerView, EscrowError>(final(ledger)@),
            Err(e) => old(ledger)@.create_at(*ctx, amount, message_id@, derived, reserve, now)
                == Err::<LedgerView, EscrowError>(e) && final(ledger)@ == old(ledger)@,
        },
        final(ledger)@.supply() == old(ledger)@.supply(),
        final(ledger)@.wf(),
{
    let sender_holds_record = ledger.has_record(&ctx.sender.key);
    if !ctx.sender.is_signer {
        return Err(EscrowError::InvalidSender);
    }
    if !check_message_id(message_id.as_str()) {
        return Err(EscrowError::InvalidInput);
    }
    let address = match derived {
        Some((address, _)) => address,
        None => {
            return Err(EscrowError::InvalidInput);
        },
    };
    if ctx.message_escrow != address {
        return Err(EscrowError::InvalidInput);
    }
    if ledger.has_record(&address) {
        return Err(EscrowError::DuplicateEscrow);
    }
    let funds = ledger.balance(&ctx.sender.key);
    let due = match creation_due(ledger.balance(&address), reserve, amount) {
        Some(due) => due,
        None => {
            return Err(EscrowError::InsufficientFunds);
        },
    };
    if funds < due {
        return Err(EscrowError::InsufficientFunds);
    }
    if sender_holds_record || ctx.sender.key == address {
        return Err(EscrowError::InvalidSender);
    }
    ledger.transfer(&ctx.sender.key, &address, due);
    ledger.put_record(
        &address,
        MessageEscrow {
            sender: ctx.sender.key,
            recipient: ctx.recipient,
            amount,
            message_id,
            status: EscrowStatus::Pending,
            created_at: now,
            processed_at: 0,
        },
    );
    Ok(())
}

/// Puts a payment in escrow for a message, at the address derived from the
/// message's seed prefix under the ledger's program. Any account may be
/// named as recipient.
///
/// A record account presents no signing authority. A sender that has
/// signed, names a free record address and could pay is still refused, as an
/// invalid sender, where its own account holds a record or is the account
/// that the new record is to live in. A record already stored under the
/// prefix, and a lack of funds, are reported before that.
pub fn create_message_payment(
    ledger: &mut Ledger,
    ctx: &CreateMessagePayment,
    amount: u64,
    message_id: String,
    reserve: u64,
    now: i64,
) -> (outcome: Result<(), EscrowError>)
    ensures
        match outcome {
            Ok(()) => old(ledger)@.create(*ctx, amount, message_id@, reserve, now) == Ok::<
                LedgerView,
                EscrowError,
            >(final(ledger)@),
            Err(e) => old(ledger)@.create(*ctx, amount, message_id@, reserve, now) == Err::<
                LedgerView,
                EscrowError,
            >(e) && final(ledger)@ == old(ledger)@,
        },
        final(ledger)@.supply() == old(ledger)@.supply(),
        final(ledger)@.wf(),
{
    let program_id = ledger.program_id();
    let derived = escrow_address(&program_id, message_id.as_str());
    create_escrow_at(ledger, ctx, amount, message_id, derived, reserve, now)
}

/// Settles a pending record as the recipient decided. The record turns
/// terminal and its account pays out all that it holds above the reserve.
fn settle(
    ledger: &mut Ledger,
    ctx: &ProcessMessagePayment,
    decision: EscrowStatus,
    derived: Option<(Address, u8)>,
    reserve: u64,
    now: i64,
) -> (outcome: Result<(), EscrowError>)
    requires
        decision.terminal(),
    ensures
        match outcome {
            Ok(()) => old(ledger)@.settle_at(*ctx, decision, derived, reserve, now) == Ok::<
                LedgerView,
                EscrowError,
            >(final(ledger)@),
            Err(e) => old(ledger)@.settle_at(*ctx, decision, derived, reserve, now) == Err::<
                LedgerView,
                EscrowError,
            >(e) && final(ledger)@ == old(ledger)@,
        },
        final(ledger)@.supply() == old(ledger)@.supply(),
        final(ledger)@.wf(),
{
    let record = match ledger.record(&ctx.message_escrow) {
        Some(record) => record,
        None => {
            return Err(EscrowError::InvalidInput);
        },
    };
    if record.status != EscrowStatus::Pending {
        return Err(EscrowError::InvalidEscrowStatus);
    }
    if ctx.recipient.key != record.recipient || !ctx.recipient.is_signer || ctx.recipient.key
        == ctx.message_escrow {
        return Err(EscrowError::InvalidRecipient);
    }
    if ctx.sender != record.sender {
        return Err(EscrowError::InvalidSender);
    }
    let surplus = match payable(ledger.balance(&ctx.message_escrow), reserve) {
        Ok(surplus) => surplus,
        Err(e) => {
            return Err(e);
        },
    };
    match derived {
        Some((address, _)) => {
            if address != ctx.message_escrow {
                return Err(EscrowError::InvalidInput);
            }
        },
        None => {
            return Err(EscrowError::InvalidInput);
        },
    }
    let payee = match decision {
        EscrowStatus::Approved => record.recipient,
        _ => record.sender,
    };
    ledger.transfer(&ctx.message_escrow, &payee, surplus);
    ledger.put_record(
        &ctx.message_escrow,
        MessageEscrow {
            sender: record.sender,
            recipient: record.recipient,
            amount: record.amount,
            message_id: record.message_id,
            status: decision,
            created_at: record.created_at,
            processed_at: now,
        },
    );
    Ok(())
}

/// What the address derivation yields for the record that an account
/// holds; nothing where it holds none.
pub fn derive_for_record(ledger: &Ledger, key: &Address) -> (derived: Option<(Address, u8)>)
    ensures
        derived == ledger@.derived_for(*key),
{
    match ledger.record(key) {
        Some(record) => {
            let program_id = ledger.program_id();
            escrow_address(&program_id, record.message_id.as_str())
        },
        None => None,
    }
}

/// Approves a pending record, given what the address derivation yields for
/// its message: what the record account holds above its reserve goes to the
/// recipient. Nothing changes where the request is refused. A recipient
/// that is the record account itself presents no signing authority and is
/// refused as an invalid recipient.
pub fn approve_escrow_at(
    ledger: &mut Ledger,
    ctx: &ProcessMessagePayment,
    derived: Option<(Address, u8)>,
    reserve: u64,
    now: i64,
) -> (outcome: Result<(), EscrowError>)
    ensures
        match outcome {
            Ok(()) => old(ledger)@.settle_at(*ctx, EscrowStatus::Approved, derived, reserve, now)
                == Ok::<LedgerView, EscrowError>(final(ledger)@),
            Err(e) => old(ledger)@.settle_at(*ctx, EscrowStatus::Approved, derived, reserve, now)
                == Err::<LedgerView, EscrowError>(e) && final(ledger)@ == old(ledger)@,
        },
        final(ledger)@.supply() == old(ledger)@.supply(),
        final(ledger)@.wf(),
{
    settle(ledger, ctx, EscrowStatus::Approved, derived, reserve, now)
}

/// Rejects a pending record, given what the address derivation yields for
/// its message: what the record account holds above its reserve goes back to
/// the sender. Nothing changes where the request is refused. A recipient
/// that is the record account itself presents no signing authority and is
/// refused as an invalid recipient.
pub fn reject_escrow_at(
    ledger: &mut Ledger,
    ctx: &ProcessMessagePayment,
    derived: Option<(Address, u8)>,
    reserve: u64,
    now: i64,
) -> (outcome: Result<(), EscrowError>)
    ensures
        match outcome {
            Ok(()) => old(ledger)@.settle_at(*ctx, EscrowStatus::Rejected, derived, reserve, now)
                == Ok::<LedgerView, EscrowError>(final(ledger)@),
            Err(e) => old(ledger)@.settle_at(*ctx, EscrowStatus::Rejected, derived, reserve, now)
                == Err::<LedgerView, EscrowError>(e) && final(ledger)@ == old(ledger)@,
        },
        final(ledger)@.supply() == old(ledger)@.supply(),
        final(ledger)@.wf(),
{
    settle(ledger, ctx, EscrowStatus::Rejected, derived, reserve, now)
}

/// The recipient accepts the payment: what the record account holds above
/// its reserve goes to the recipient. Only the stored recipient decides, with
/// its signature; a recipient that is the record account itself presents no
/// signing authority and is refused as an invalid recipient.
pub fn approve_message_payment(
    ledger: &mut Ledger,
    ctx: &ProcessMessagePayment,
    reserve: u64,
    now: i64,
) -> (outcome: Result<(), EscrowError>)
    ensures
        match outcome {
            Ok(()) => old(ledger)@.approve(*ctx, reserve, now) == Ok::<LedgerView, EscrowError>(
                final(ledger)@,
            ),
            Err(e) => old(ledger)@.approve(*ctx, reserve, now) == Err::<LedgerView, EscrowError>(e)
                && final(ledger)@ == old(ledger)@,
        },
        final(ledger)@.supply() == old(ledger)@.supply(),
        final(ledger)@.wf(),
{
    let derived = derive_for_record(ledger, &ctx.message_escrow);
    approve_escrow_at(ledger, ctx, derived, reserve, now)
}

/// The recipient declines the payment: what the record account holds above
/// its reserve goes back to the sender. Only the stored recipient decides,
/// with its signature; a recipient that is the record account itself
/// presents no signing authority and is refused as an invalid recipient.
pub fn reject_message_payment(
    ledger: &mut Ledger,
    ctx: &ProcessMessagePayment,
    reserve: u64,
    now: i64,
) -> (outcome: Result<(), EscrowError>)
    ensures
        match outcome {
            Ok(()) => old(ledger)@.reject(*ctx, reserve, now) == Ok::<LedgerView, EscrowError>(
                final(ledger)@,
            ),
            Err(e) => old(ledger)@.reject(*ctx, reserve, now) == Err::<LedgerView, EscrowError>(e)
                && final(ledger)@ == old(ledger)@,
        },
        final(ledger)@.supply() == old(ledger)@.supply(),
        final(ledger)@.wf(),
{
    let derived = derive_for_record(ledger, &ctx.message_escrow);
    reject_escrow_at(ledger, ctx, derived, reserve, now)
}

} // verus!
