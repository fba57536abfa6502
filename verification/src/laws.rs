use crate::accounts::CreateMessagePayment;
use crate::accounts::DonateFunds;
use crate::accounts::ProcessMessagePayment;
use crate::address::Address;
use crate::error::EscrowError;
use crate::model::allocation_cost;
use crate::model::lemma_supply_is_held_by_all;
use crate::model::lemma_transfer_conserves;
use crate::model::LedgerView;
use crate::operation::Operation;
use crate::record::escrow_address_of;
use crate::record::message_id_ok;
use crate::record::seed_prefix;
use crate::record::stored_size;
use crate::record::EscrowStatus;
use crate::record::RECORD_SPACE;
use vstd::prelude::*;

verus! {

/// Creating an escrow neither makes nor destroys funds, at whatever address
/// the record is put: what the sender pays, the record account receives, so
/// that any set of accounts that includes the two holds as much as before,
/// and so does the whole ledger, which stays well formed.
pub proof fn creation_conserves_funds(
    pre: LedgerView,
    post: LedgerView,
    ctx: CreateMessagePayment,
    amount: u64,
    message_id: Seq<char>,
    derived: Option<(Address, u8)>,
    reserve: u64,
    now: i64,
    among: Set<Address>,
)
    requires
        pre.wf(),
        pre.create_at(ctx, amount, message_id, derived, reserve, now) == Ok::<
            LedgerView,
            EscrowError,
        >(post),
        among.contains(ctx.sender.key),
        among.contains(ctx.message_escrow),
    ensures
        post.wf(),
        post.held_by(among) == pre.held_by(among),
        post.supply() == pre.supply(),
{
    let escrow = ctx.message_escrow;
    let due = (allocation_cost(pre.balance(escrow), reserve) + amount) as nat;
    lemma_transfer_conserves(pre, ctx.sender.key, escrow, due, among);
    lemma_transfer_conserves(pre, ctx.sender.key, escrow, due, Set::full());
    lemma_supply_is_held_by_all(pre);
    lemma_supply_is_held_by_all(post);
    assert forall|key: Address| #[trigger]
        post.records.dom().contains(key) implies LedgerView::record_ok(key, post.records[key]) by {
        if key != escrow {
            assert(LedgerView::record_ok(key, pre.records[key]));
        }
    }
}

/// Settling an escrow neither makes nor destroys funds: what the record
/// account pays out, the payee receives, so that any set of accounts that
/// includes the three named holds as much as before, and so does the whole
/// ledger, which stays well formed.
pub proof fn settlement_conserves_funds(
    pre: LedgerView,
    post: LedgerView,
    ctx: ProcessMessagePayment,
    decision: EscrowStatus,
    derived: Option<(Address, u8)>,
    reserve: u64,
    now: i64,
    among: Set<Address>,
)
    requires
        pre.wf(),
        decision.terminal(),
        pre.settle_at(ctx, decision, derived, reserve, now) == Ok::<LedgerView, EscrowError>(
            post,
        ),
        among.contains(ctx.message_escrow),
        among.contains(ctx.sender),
        among.contains(ctx.recipient.key),
    ensures
        post.wf(),
        post.held_by(among) == pre.held_by(among),
        post.supply() == pre.supply(),
{
    let escrow = ctx.message_escrow;
    let record = pre.records[escrow];
    let payee = LedgerView::payee(record, decision);
    let payable = (pre.balance(escrow) - reserve) as nat;
    lemma_transfer_conserves(pre, escrow, payee, payable, among);
    lemma_transfer_conserves(pre, escrow, payee, payable, Set::full());
    lemma_supply_is_held_by_all(pre);
    lemma_supply_is_held_by_all(post);
    assert forall|key: Address| #[trigger]
        post.records.dom().contains(key) implies LedgerView::record_ok(key, post.records[key]) by {
        assert(LedgerView::record_ok(key, pre.records[key]));
    }
}

/// A donation neither makes nor destroys funds: any set of accounts that
/// includes the donor and the donation address holds as much as before, and
/// so does the whole ledger, which stays well formed. No record changes.
pub proof fn donation_conserves_funds(
    pre: LedgerView,
    post: LedgerView,
    ctx: DonateFunds,
    amount: u64,
    among: Set<Address>,
)
    requires
        pre.wf(),
        pre.donate(ctx, amount) == Ok::<LedgerView, EscrowError>(post),
        among.contains(ctx.donor.key),
        among.contains(ctx.donation_address),
    ensures
        post.wf(),
        post.held_by(among) == pre.held_by(among),
        post.supply() == pre.supply(),
        post.records == pre.records,
{
    lemma_transfer_conserves(pre, ctx.donor.key, ctx.donation_address, amount as nat, among);
    lemma_transfer_conserves(pre, ctx.donor.key, ctx.donation_address, amount as nat, Set::full());
    lemma_supply_is_held_by_all(pre);
    lemma_supply_is_held_by_all(post);
    assert forall|key: Address| #[trigger]
        post.records.dom().contains(key) implies LedgerView::record_ok(key, post.records[key]) by {
        assert(LedgerView::record_ok(key, pre.records[key]));
    }
}

/// An operation that succeeds neither makes nor destroys funds: the
/// accounts it names hold together as much as before, and so does every
/// larger set of accounts and the whole ledger. An account that it does not
/// name keeps its balance and its record. The ledger stays well formed.
pub proof fn operation_conserves_funds(
    pre: LedgerView,
    post: LedgerView,
    operation: Operation,
    reserve: u64,
    now: i64,
    among: Set<Address>,
)
    requires
        pre.wf(),
        operation.outcome(pre, reserve, now) == Ok::<LedgerView, EscrowError>(post),
        operation.named().subset_of(among),
    ensures
        post.wf(),
        post.held_by(operation.named()) == pre.held_by(operation.named()),
        post.held_by(among) == pre.held_by(among),
        post.supply() == pre.supply(),
        forall|key: Address|
            !operation.named().contains(key) ==> post.balance(key) == pre.balance(key)
                && post.record(key) == pre.record(key),
{
    let named = operation.named();
    match operation {
        Operation::Create { payment, amount, message_id } => {
            assert(named.contains(payment.sender.key) && named.contains(payment.message_escrow));
            let derived = escrow_address_of(pre.program_id, message_id@);
            creation_conserves_funds(
                pre,
                post,
                payment,
                amount,
                message_id@,
                derived,
                reserve,
                now,
                named,
            );
            creation_conserves_funds(
                pre,
                post,
                payment,
                amount,
                message_id@,
                derived,
                reserve,
                now,
                among,
            );
        },
        Operation::Approve { settlement } => {
            let escrow = settlement.message_escrow;
            assert(named.contains(settlement.sender) && named.contains(settlement.recipient.key)
                && named.contains(escrow));
            assert(LedgerView::record_ok(escrow, pre.records[escrow]));
            let derived = pre.derived_for(escrow);
            settlement_conserves_funds(
                pre,
                post,
                settlement,
                EscrowStatus::Approved,
                derived,
                reserve,
                now,
                named,
            );
            settlement_conserves_funds(
                pre,
                post,
                settlement,
                EscrowStatus::Approved,
                derived,
                reserve,
                now,
                among,
            );
        },
        Operation::Reject { settlement } => {
            let escrow = settlement.message_escrow;
            assert(named.contains(settlement.sender) && named.contains(settlement.recipient.key)
                && named.contains(escrow));
            assert(LedgerView::record_ok(escrow, pre.records[escrow]));
            let derived = pre.derived_for(escrow);
            settlement_conserves_funds(
                pre,
                post,
                settlement,
                EscrowStatus::Rejected,
                derived,
                reserve,
                now,
                named,
            );
            settlement_conserves_funds(
                pre,
                post,
                settlement,
                EscrowStatus::Rejected,
                derived,
                reserve,
                now,
                among,
            );
        },
        Operation::Donate { donation, amount } => {
            assert(named.contains(donation.donor.key) && named.contains(donation.donation_address));
            donation_conserves_funds(pre, post, donation, amount, named);
            donation_conserves_funds(pre, post, donation, amount, among);
        },
    }
}

/// The cost of storage at creation is funds moved, not funds lost: the
/// sender pays the amount and what the record account lacks of its reserve,
/// and the record account receives exactly that.
pub proof fn creation_is_paid_by_sender(
    pre: LedgerView,
    post: LedgerView,
    ctx: CreateMessagePayment,
    amount: u64,
    message_id: Seq<char>,
    derived: Option<(Address, u8)>,
    reserve: u64,
    now: i64,
)
    requires
        pre.create_at(ctx, amount, message_id, derived, reserve, now) == Ok::<
            LedgerView,
            EscrowError,
        >(post),
    ensures
        post.balance(ctx.message_escrow) == pre.balance(ctx.message_escrow) + allocation_cost(
            pre.balance(ctx.message_escrow),
            reserve,
        ) + amount,
        post.balance(ctx.sender.key) + allocation_cost(pre.balance(ctx.message_escrow), reserve)
            + amount == pre.balance(ctx.sender.key),
        post.balance(ctx.message_escrow) >= reserve + amount,
        pre.balance(ctx.message_escrow) == 0 ==> post.balance(ctx.message_escrow) == reserve
            + amount,
        post.record(ctx.message_escrow) matches Some(stored) && stored.status is Pending
            && stored.sender == ctx.sender.key && stored.recipient == ctx.recipient
            && stored.amount == amount && stored.message_id == message_id && stored.created_at
            == now && stored.processed_at == 0,
{
}

/// Creation asks nothing of the recipient: with another recipient named, a
/// request is refused for the same reason or carried out all the same.
pub proof fn creation_takes_any_recipient(
    pre: LedgerView,
    ctx: CreateMessagePayment,
    recipient: Address,
    amount: u64,
    message_id: Seq<char>,
    derived: Option<(Address, u8)>,
    reserve: u64,
    now: i64,
)
    ensures
        refusal(pre.create_at(ctx, amount, message_id, derived, reserve, now)) == refusal(
            pre.create_at(
                CreateMessagePayment { recipient, ..ctx },
                amount,
                message_id,
                derived,
                reserve,
                now,
            ),
        ),
        refusal(pre.create(ctx, amount, message_id, reserve, now)) == refusal(
            pre.create(CreateMessagePayment { recipient, ..ctx }, amount, message_id, reserve, now),
        ),
{
}

/// A sender that cannot pay is told so: where a signed sender names the
/// free address derived for a well-formed identifier and holds less than the
/// amount and what the record account lacks of its reserve, creation fails
/// for lack of funds, whoever the recipient is and whatever else the
/// sender's account holds.
pub proof fn short_sender_has_insufficient_funds(
    pre: LedgerView,
    ctx: CreateMessagePayment,
    amount: u64,
    message_id: Seq<char>,
    derived: Option<(Address, u8)>,
    reserve: u64,
    now: i64,
)
    requires
        ctx.sender.is_signer,
        message_id_ok(message_id),
        derived matches Some((address, _)) && address == ctx.message_escrow,
        pre.record(ctx.message_escrow) is None,
        pre.balance(ctx.sender.key) < allocation_cost(pre.balance(ctx.message_escrow), reserve)
            + amount,
    ensures
        pre.create_at(ctx, amount, message_id, derived, reserve, now) == Err::<
            LedgerView,
            EscrowError,
        >(EscrowError::InsufficientFunds),
{
}

/// A donor that cannot pay is told so, whatever else its account holds.
pub proof fn short_donor_has_insufficient_funds(pre: LedgerView, ctx: DonateFunds, amount: u64)
    requires
        ctx.donor.is_signer,
        pre.balance(ctx.donor.key) < amount,
    ensures
        pre.donate(ctx, amount) == Err::<LedgerView, EscrowError>(EscrowError::InsufficientFunds),
{
}

/// A record is settled at most once: after a settlement has succeeded,
/// every further attempt on the same record, to approve or to reject, by
/// whomever and at whatever reserve, fails because the record is no longer
/// pending.
pub proof fn settles_at_most_once(
    pre: LedgerView,
    post: LedgerView,
    ctx: ProcessMessagePayment,
    decision: EscrowStatus,
    derived: Option<(Address, u8)>,
    reserve: u64,
    now: i64,
    again: ProcessMessagePayment,
    second_decision: EscrowStatus,
    second_derived: Option<(Address, u8)>,
    second_reserve: u64,
    later: i64,
)
    requires
        decision.terminal(),
        pre.settle_at(ctx, decision, derived, reserve, now) == Ok::<LedgerView, EscrowError>(
            post,
        ),
        again.message_escrow == ctx.message_escrow,
    ensures
        post.settle_at(again, second_decision, second_derived, second_reserve, later) == Err::<
            LedgerView,
            EscrowError,
        >(EscrowError::InvalidEscrowStatus),
        post.settle(again, second_decision, second_reserve, later) == Err::<
            LedgerView,
            EscrowError,
        >(EscrowError::InvalidEscrowStatus),
{
}

/// A terminal record is never revisited: no operation that succeeds changes
/// a record that is approved or rejected.
pub proof fn terminal_record_never_changes(
    pre: LedgerView,
    post: LedgerView,
    operation: Operation,
    reserve: u64,
    now: i64,
    key: Address,
)
    requires
        pre.record(key) matches Some(record) && record.status.terminal(),
        operation.outcome(pre, reserve, now) == Ok::<LedgerView, EscrowError>(post),
    ensures
        post.record(key) == pre.record(key),
{
}

/// The record at `key` is in both ledgers, and differs at most in its status
/// and its time of settlement.
pub open spec fn kept_but_for_settlement(pre: LedgerView, post: LedgerView, key: Address) -> bool {
    &&& pre.record(key) matches Some(before)
    &&& post.record(key) matches Some(after)
    &&& after.sender == before.sender
    &&& after.recipient == before.recipient
    &&& after.amount == before.amount
    &&& after.message_id == before.message_id
    &&& after.created_at == before.created_at
    &&& after.status == before.status || before.status is Pending
}

/// Who funded a record, who decides on it, its amount, its message and its
/// time of creation never change, no record is ever removed, and a status
/// changes only from pending: whatever succeeds, a record that was there is
/// still there with these as they were.
pub proof fn record_parties_never_change(
    pre: LedgerView,
    post: LedgerView,
    operation: Operation,
    reserve: u64,
    now: i64,
    key: Address,
)
    requires
        pre.record(key) is Some,
        operation.outcome(pre, reserve, now) == Ok::<LedgerView, EscrowError>(post),
    ensures
        kept_but_for_settlement(pre, post, key),
{
}

/// Only the stored recipient settles a record: on a pending record, an
/// attempt by any other identity, or by the recipient without its
/// signature, fails as an invalid recipient, whatever else the request
/// holds. So does an attempt in the name of the record account itself,
/// which presents no signing authority.
pub proof fn only_recipient_settles(
    pre: LedgerView,
    ctx: ProcessMessagePayment,
    decision: EscrowStatus,
    derived: Option<(Address, u8)>,
    reserve: u64,
    now: i64,
)
    requires
        pre.record(ctx.message_escrow) matches Some(record) && record.status is Pending && (
            ctx.recipient.key != record.recipient || !ctx.recipient.is_signer
                || ctx.recipient.key == ctx.message_escrow),
    ensures
        pre.settle_at(ctx, decision, derived, reserve, now) == Err::<LedgerView, EscrowError>(
            EscrowError::InvalidRecipient,
        ),
        pre.settle(ctx, decision, reserve, now) == Err::<LedgerView, EscrowError>(
            EscrowError::InvalidRecipient,
        ),
{
}

/// After a settlement the record account holds exactly its reserve: all
/// that it held above went to the payee, the recipient on approval and the
/// sender on rejection, and the record shows the decision and its time.
pub proof fn settlement_leaves_reserve(
    pre: LedgerView,
    post: LedgerView,
    ctx: ProcessMessagePayment,
    decision: EscrowStatus,
    derived: Option<(Address, u8)>,
    reserve: u64,
    now: i64,
)
    requires
        pre.wf(),
        decision.terminal(),
        pre.settle_at(ctx, decision, derived, reserve, now) == Ok::<LedgerView, EscrowError>(
            post,
        ),
    ensures
        post.balance(ctx.message_escrow) == reserve,
        pre.record(ctx.message_escrow) matches Some(before) && post.record(ctx.message_escrow)
            matches Some(after) && after.status == decision && after.processed_at == now && ({
            let payee = if decision is Approved {
                ctx.recipient.key
            } else {
                ctx.sender
            };
            post.balance(payee) + reserve == pre.balance(payee) + pre.balance(
                ctx.message_escrow,
            )
        }),
{
    assert(LedgerView::record_ok(ctx.message_escrow, pre.records[ctx.message_escrow]));
}

/// Record accounts keep their reserve: where every record account holds at
/// least the reserve, it still does after any operation that succeeds at
/// that reserve.
pub proof fn reserve_is_kept(
    pre: LedgerView,
    post: LedgerView,
    operation: Operation,
    reserve: u64,
    now: i64,
)
    requires
        pre.wf(),
        pre.reserve_kept(reserve),
        operation.outcome(pre, reserve, now) == Ok::<LedgerView, EscrowError>(post),
    ensures
        post.reserve_kept(reserve),
{
    match operation {
        Operation::Approve { settlement } => {
            let escrow = settlement.message_escrow;
            assert(LedgerView::record_ok(escrow, pre.records[escrow]));
        },
        Operation::Reject { settlement } => {
            let escrow = settlement.message_escrow;
            assert(LedgerView::record_ok(escrow, pre.records[escrow]));
        },
        _ => {},
    }
}

/// Identifiers that share their seed prefix share their record: where a
/// record is stored at its derived address, creating another for an
/// identifier with the same prefix fails as a duplicate, for whatever amount
/// and recipient and whoever the signed sender is, where the request names
/// the record's account. That a record account presents no signing
/// authority makes no exception here: the duplicate is reported before the
/// sender's own account is looked at.
pub proof fn same_prefix_is_duplicate(
    pre: LedgerView,
    key: Address,
    ctx: CreateMessagePayment,
    amount: u64,
    message_id: Seq<char>,
    reserve: u64,
    now: i64,
)
    requires
        pre.derived_for(key) matches Some((address, _)) && address == key,
        pre.record(key) matches Some(stored) && seed_prefix(stored.message_id) == seed_prefix(
            message_id,
        ),
        message_id_ok(message_id),
        ctx.sender.is_signer,
        ctx.message_escrow == key,
    ensures
        pre.create(ctx, amount, message_id, reserve, now) == Err::<LedgerView, EscrowError>(
            EscrowError::DuplicateEscrow,
        ),
{
}

/// The record that a creation stored stands in the way of the next creation
/// for the same seed prefix, whoever the signed sender of the next is.
pub proof fn second_creation_is_duplicate(
    pre: LedgerView,
    post: LedgerView,
    first: CreateMessagePayment,
    first_amount: u64,
    first_id: Seq<char>,
    first_reserve: u64,
    first_time: i64,
    ctx: CreateMessagePayment,
    amount: u64,
    message_id: Seq<char>,
    reserve: u64,
    now: i64,
)
    requires
        pre.create(first, first_amount, first_id, first_reserve, first_time) == Ok::<
            LedgerView,
            EscrowError,
        >(post),
        seed_prefix(first_id) == seed_prefix(message_id),
        message_id_ok(message_id),
        ctx.sender.is_signer,
        ctx.message_escrow == first.message_escrow,
    ensures
        post.create(ctx, amount, message_id, reserve, now) == Err::<LedgerView, EscrowError>(
            EscrowError::DuplicateEscrow,
        ),
{
}

/// What an outcome says of a request: nothing where it was carried out, the
/// error where it was refused.
pub open spec fn refusal(outcome: Result<LedgerView, EscrowError>) -> Option<EscrowError> {
    match outcome {
        Ok(_) => None,
        Err(e) => Some(e),
    }
}

/// Two ledgers of one program show the same of each account in `keys`:
/// whether it was ever touched, what it holds, and its record.
pub open spec fn agree_on(a: LedgerView, b: LedgerView, keys: Set<Address>) -> bool {
    &&& a.program_id == b.program_id
    &&& forall|key: Address| #[trigger]
        keys.contains(key) ==> {
            &&& a.balances.dom().contains(key) == b.balances.dom().contains(key)
            &&& a.balance(key) == b.balance(key)
            &&& a.record(key) == b.record(key)
        }
}

proof fn creation_is_local(
    a: LedgerView,
    b: LedgerView,
    ctx: CreateMessagePayment,
    amount: u64,
    message_id: Seq<char>,
    reserve: u64,
    now: i64,
)
    requires
        agree_on(a, b, set![ctx.sender.key, ctx.recipient, ctx.message_escrow]),
    ensures
        refusal(a.create(ctx, amount, message_id, reserve, now)) == refusal(
            b.create(ctx, amount, message_id, reserve, now),
        ),
        a.create(ctx, amount, message_id, reserve, now) matches Ok(after_a) ==> (b.create(
            ctx,
            amount,
            message_id,
            reserve,
            now,
        ) matches Ok(after_b) && agree_on(
            after_a,
            after_b,
            set![ctx.sender.key, ctx.recipient, ctx.message_escrow],
        )),
{
    let keys = set![ctx.sender.key, ctx.recipient, ctx.message_escrow];
    assert(keys.contains(ctx.sender.key) && keys.contains(ctx.message_escrow));
}

proof fn settlement_is_local(
    a: LedgerView,
    b: LedgerView,
    ctx: ProcessMessagePayment,
    decision: EscrowStatus,
    reserve: u64,
    now: i64,
)
    requires
        agree_on(a, b, set![ctx.sender, ctx.recipient.key, ctx.message_escrow]),
    ensures
        refusal(a.settle(ctx, decision, reserve, now)) == refusal(
            b.settle(ctx, decision, reserve, now),
        ),
        a.settle(ctx, decision, reserve, now) matches Ok(after_a) ==> (b.settle(
            ctx,
            decision,
            reserve,
            now,
        ) matches Ok(after_b) && agree_on(
            after_a,
            after_b,
            set![ctx.sender, ctx.recipient.key, ctx.message_escrow],
        )),
{
    let keys = set![ctx.sender, ctx.recipient.key, ctx.message_escrow];
    assert(keys.contains(ctx.sender) && keys.contains(ctx.recipient.key) && keys.contains(
        ctx.message_escrow,
    ));
}

proof fn donation_is_local(a: LedgerView, b: LedgerView, ctx: DonateFunds, amount: u64)
    requires
        agree_on(a, b, set![ctx.donor.key, ctx.donation_address]),
    ensures
        refusal(a.donate(ctx, amount)) == refusal(b.donate(ctx, amount)),
        a.donate(ctx, amount) matches Ok(after_a) ==> (b.donate(ctx, amount) matches Ok(after_b)
            && agree_on(after_a, after_b, set![ctx.donor.key, ctx.donation_address])),
{
    let keys = set![ctx.donor.key, ctx.donation_address];
    assert(keys.contains(ctx.donor.key) && keys.contains(ctx.donation_address));
}

/// The accounts that an operation names decide its outcome: on two ledgers
/// that show the same of these accounts it is refused for the same reason or
/// carried out on both, and then the two ledgers show the same of them
/// afterwards.
pub proof fn outcome_depends_on_named_accounts(
    a: LedgerView,
    b: LedgerView,
    operation: Operation,
    reserve: u64,
    now: i64,
)
    requires
        agree_on(a, b, operation.named()),
    ensures
        refusal(operation.outcome(a, reserve, now)) == refusal(operation.outcome(b, reserve, now)),
        operation.outcome(a, reserve, now) matches Ok(after_a) ==> (operation.outcome(
            b,
            reserve,
            now,
        ) matches Ok(after_b) && agree_on(after_a, after_b, operation.named())),
{
    match operation {
        Operation::Create { payment, amount, message_id } => {
            creation_is_local(a, b, payment, amount, message_id@, reserve, now);
        },
        Operation::Approve { settlement } => {
            settlement_is_local(a, b, settlement, EscrowStatus::Approved, reserve, now);
        },
        Operation::Reject { settlement } => {
            settlement_is_local(a, b, settlement, EscrowStatus::Rejected, reserve, now);
        },
        Operation::Donate { donation, amount } => {
            donation_is_local(a, b, donation, amount);
        },
    }
}

/// An operation that succeeds leaves every account that it does not name as
/// it was.
pub proof fn unnamed_accounts_are_untouched(
    pre: LedgerView,
    post: LedgerView,
    operation: Operation,
    reserve: u64,
    now: i64,
)
    requires
        operation.outcome(pre, reserve, now) == Ok::<LedgerView, EscrowError>(post),
    ensures
        agree_on(pre, post, operation.named().complement()),
{
    let named = operation.named();
    match operation {
        Operation::Create { payment, .. } => {
            assert(named.contains(payment.sender.key) && named.contains(payment.message_escrow));
        },
        Operation::Approve { settlement } => {
            assert(named.contains(settlement.sender) && named.contains(settlement.recipient.key)
                && named.contains(settlement.message_escrow));
        },
        Operation::Reject { settlement } => {
            assert(named.contains(settlement.sender) && named.contains(settlement.recipient.key)
                && named.contains(settlement.message_escrow));
        },
        Operation::Donate { donation, .. } => {
            assert(named.contains(donation.donor.key) && named.contains(donation.donation_address));
        },
    }
}

/// Two ledgers are one where they show the same of every account.
proof fn agreeing_everywhere_is_equal(one: LedgerView, other: LedgerView)
    requires
        agree_on(one, other, Set::full()),
    ensures
        one == other,
{
    assert forall|key: Address|
        #![trigger one.balances.dom().contains(key)]
        #![trigger other.balances.dom().contains(key)]
        one.balances.dom().contains(key) == other.balances.dom().contains(key) && (
        one.balances.dom().contains(key) ==> one.balances[key] == other.balances[key]) by {
        assert(Set::<Address>::full().contains(key));
        assert(one.balance(key) == other.balance(key));
    }
    assert forall|key: Address|
        #![trigger one.records.dom().contains(key)]
        #![trigger other.records.dom().contains(key)]
        one.records.dom().contains(key) == other.records.dom().contains(key) && (
        one.records.dom().contains(key) ==> one.records[key] == other.records[key]) by {
        assert(Set::<Address>::full().contains(key));
        assert(one.record(key) == other.record(key));
    }
    assert(one.balances =~= other.balances);
    assert(one.records =~= other.records);
}

/// Where two changes to a ledger touch no account in common, making them in
/// either order shows the same of every account.
proof fn disjoint_changes_meet(
    pre: LedgerView,
    left: LedgerView,
    right: LedgerView,
    left_then_right: LedgerView,
    right_then_left: LedgerView,
    by_left: Set<Address>,
    by_right: Set<Address>,
)
    requires
        by_left.disjoint(by_right),
        agree_on(pre, left, by_left.complement()),
        agree_on(pre, right, by_right.complement()),
        agree_on(left, left_then_right, by_right.complement()),
        agree_on(right, right_then_left, by_left.complement()),
        agree_on(right, left_then_right, by_right),
        agree_on(left, right_then_left, by_left),
    ensures
        agree_on(left_then_right, right_then_left, Set::full()),
{
    assert forall|key: Address| #[trigger] Set::<Address>::full().contains(key) implies {
        &&& left_then_right.balances.dom().contains(key) == right_then_left.balances.dom().contains(
            key,
        )
        &&& left_then_right.balance(key) == right_then_left.balance(key)
        &&& left_then_right.record(key) == right_then_left.record(key)
    } by {
        if by_left.contains(key) {
            assert(by_right.complement().contains(key));
        } else if by_right.contains(key) {
            assert(by_left.complement().contains(key));
        } else {
            assert(by_left.complement().contains(key));
            assert(by_right.complement().contains(key));
        }
    }
}

/// An account outside one set lies in the complement of every set disjoint
/// from it: ledgers that agree off the one agree on the other.
proof fn agreement_off_covers_disjoint(
    a: LedgerView,
    b: LedgerView,
    off: Set<Address>,
    on: Set<Address>,
)
    requires
        off.disjoint(on),
        agree_on(a, b, off.complement()),
    ensures
        agree_on(a, b, on),
{
    assert forall|key: Address| #[trigger] on.contains(key) implies off.complement().contains(
        key,
    ) by {}
}

/// Operations that name no account in common do not see each other: whether
/// the second is carried out or refused, and why, does not depend on whether
/// the first ran before it, and where both are carried out, either order
/// leaves the same ledger.
pub proof fn disjoint_operations_commute(
    pre: LedgerView,
    first: Operation,
    reserve: u64,
    now: i64,
    second: Operation,
    other_reserve: u64,
    other_now: i64,
)
    requires
        first.named().disjoint(second.named()),
        first.outcome(pre, reserve, now) is Ok,
    ensures
        ({
            let after_first = first.outcome(pre, reserve, now)->Ok_0;
            &&& refusal(second.outcome(after_first, other_reserve, other_now)) == refusal(
                second.outcome(pre, other_reserve, other_now),
            )
            &&& second.outcome(pre, other_reserve, other_now) matches Ok(after_second)
                ==> first.outcome(after_second, reserve, now) == second.outcome(
                after_first,
                other_reserve,
                other_now,
            )
        }),
{
    let after_first = first.outcome(pre, reserve, now)->Ok_0;
    unnamed_accounts_are_untouched(pre, after_first, first, reserve, now);
    agreement_off_covers_disjoint(pre, after_first, first.named(), second.named());
    outcome_depends_on_named_accounts(pre, after_first, second, other_reserve, other_now);
    if second.outcome(pre, other_reserve, other_now) is Ok {
        let after_second = second.outcome(pre, other_reserve, other_now)->Ok_0;
        unnamed_accounts_are_untouched(pre, after_second, second, other_reserve, other_now);
        agreement_off_covers_disjoint(pre, after_second, second.named(), first.named());
        outcome_depends_on_named_accounts(pre, after_second, first, reserve, now);
        let one = first.outcome(after_second, reserve, now)->Ok_0;
        let other = second.outcome(after_first, other_reserve, other_now)->Ok_0;
        unnamed_accounts_are_untouched(after_second, one, first, reserve, now);
        unnamed_accounts_are_untouched(after_first, other, second, other_reserve, other_now);
        disjoint_changes_meet(
            pre,
            after_first,
            after_second,
            other,
            one,
            first.named(),
            second.named(),
        );
        agreeing_everywhere_is_equal(other, one);
    }
}

/// Every record on the ledger fits the space set aside for it.
pub proof fn record_fits_its_space(view: LedgerView, key: Address)
    requires
        view.wf(),
        view.record(key) is Some,
    ensures
        stored_size(view.records[key].message_id) <= RECORD_SPACE,
{
    assert(LedgerView::record_ok(key, view.records[key]));
}

/// Records stay where they belong: where every record sits at the address
/// derived for its message, it still does after any operation that succeeds.
pub proof fn records_stay_placed(
    pre: LedgerView,
    post: LedgerView,
    operation: Operation,
    reserve: u64,
    now: i64,
)
    requires
        pre.placed(),
        operation.outcome(pre, reserve, now) == Ok::<LedgerView, EscrowError>(post),
    ensures
        post.placed(),
{
    assert forall|key: Address| #[trigger] post.records.dom().contains(key) implies (
    post.derived_for(key) matches Some((address, _)) && address == key) by {
        if pre.records.dom().contains(key) {
            assert(pre.derived_for(key) matches Some((address, _)) && address == key);
        }
    }
}

/// There is one record for each seed prefix: where every record sits at the
/// address derived for its message, two records whose identifiers share
/// their prefix are one record.
pub proof fn one_record_per_prefix(view: LedgerView, a: Address, b: Address)
    requires
        view.placed(),
        view.record(a) matches Some(first) && view.record(b) matches Some(second) && seed_prefix(
            first.message_id,
        ) == seed_prefix(second.message_id),
    ensures
        a == b,
{
}

} // verus!
