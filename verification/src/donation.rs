use crate::accounts::DonateFunds;
use crate::error::EscrowError;
use crate::ledger::Ledger;
use crate::model::LedgerView;
use vstd::prelude::*;

verus! {

/// Moves funds from the donor to the donation address at once, with no
/// record kept. Nothing changes where the request is refused.
///
/// A record account presents no signing authority: a donor that has signed
/// and could pay is still refused, as an invalid sender, where its own
/// account holds a record. A lack of funds is reported before that.
pub fn donate_funds(ledger: &mut Ledger, ctx: &DonateFunds, amount: u64) -> (outcome: Result<
    (),
    EscrowError,
>)
    ensures
        match outcome {
            Ok(()) => old(ledger)@.donate(*ctx, amount) == Ok::<LedgerView, EscrowError>(
                final(ledger)@,
            ),
            Err(e) => old(ledger)@.donate(*ctx, amount) == Err::<LedgerView, EscrowError>(e)
                && final(ledger)@ == old(ledger)@,
        },
        final(ledger)@.supply() == old(ledger)@.supply(),
        final(ledger)@.wf(),
{
    let donor_holds_record = ledger.has_record(&ctx.donor.key);
    if !ctx.donor.is_signer {
        return Err(EscrowError::InvalidSender);
    }
    if ledger.balance(&ctx.donor.key) < amount {
        return Err(EscrowError::InsufficientFunds);
    }
    if donor_holds_record {
        return Err(EscrowError::InvalidSender);
    }
    ledger.transfer(&ctx.donor.key, &ctx.donation_address, amount);
    Ok(())
}

} // verus!
