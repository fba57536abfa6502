use crate::accounts::CreateMessagePayment;
use crate::accounts::DonateFunds;
use crate::accounts::ProcessMessagePayment;
use crate::address::Address;
use crate::error::EscrowError;
use crate::record::escrow_address_of;
use crate::record::message_id_ok;
use crate::record::EscrowStatus;
use crate::record::EscrowView;
use vstd::prelude::*;

verus! {

/// The sum of the balances of finitely many accounts.
pub open spec fn sum_balances(balances: Map<Address, nat>) -> nat
    decreases balances.dom().len(),
    when balances.dom().finite()
{
    if balances.dom().len() == 0 {
        0
    } else {
        let key = balances.dom().choose();
        balances[key] + sum_balances(balances.remove(key))
    }
}

/// What an account holds; nothing where it was never touched.
pub open spec fn balance_at(balances: Map<Address, nat>, key: Address) -> nat {
    if balances.dom().contains(key) {
        balances[key]
    } else {
        0
    }
}

/// What the sender pays to bring a record account up to its reserve.
pub open spec fn allocation_cost(balance: nat, reserve: u64) -> nat {
    if balance >= reserve {
        0
    } else {
        (reserve - balance) as nat
    }
}

/// The ledger as a mathematical object: the balance of every account that
/// was ever touched, and the record that each record account holds.
#[verifier::ext_equal]
pub struct LedgerView {
    pub program_id: Address,
    pub balances: Map<Address, nat>,
    pub records: Map<Address, EscrowView>,
}

impl LedgerView {
    /// A ledger without accounts.
    pub open spec fn empty(program_id: Address) -> LedgerView {
        LedgerView { program_id, balances: Map::empty(), records: Map::empty() }
    }

    /// What an account holds.
    pub open spec fn balance(self, key: Address) -> nat {
        balance_at(self.balances, key)
    }

    /// The record that an account holds.
    pub open spec fn record(self, key: Address) -> Option<EscrowView> {
        if self.records.dom().contains(key) {
            Some(self.records[key])
        } else {
            None
        }
    }

    /// All the funds on the ledger.
    pub open spec fn supply(self) -> nat {
        sum_balances(self.balances)
    }

    /// What the accounts in `among` hold together.
    pub open spec fn held_by(self, among: Set<Address>) -> nat {
        sum_balances(self.balances.restrict(among))
    }

    /// What must hold of a record stored at `key`: its identifier is well
    /// formed, its sender is not the record account itself, and no
    /// settlement time is set while it is pending. Nothing is asked of the
    /// recipient.
    pub open spec fn record_ok(key: Address, record: EscrowView) -> bool {
        &&& message_id_ok(record.message_id)
        &&& record.sender != key
        &&& record.status is Pending ==> record.processed_at == 0
    }

    /// A record account presents no signing authority: whatever is marked on
    /// the request, an account that holds a record cannot fund a payment or
    /// a donation, and cannot decide on the record that it holds itself.
    pub open spec fn is_record_account(self, key: Address) -> bool {
        self.records.dom().contains(key)
    }

    /// The address derived for the record that `key` holds, where it holds
    /// one.
    pub open spec fn derived_for(self, key: Address) -> Option<(Address, u8)> {
        if self.records.dom().contains(key) {
            escrow_address_of(self.program_id, self.records[key].message_id)
        } else {
            None
        }
    }

    /// Every record sits at the address derived for its message.
    pub open spec fn placed(self) -> bool {
        forall|key: Address| #[trigger]
            self.records.dom().contains(key) ==> (self.derived_for(key) matches Some((address, _))
                && address == key)
    }

    /// The accounts are finitely many, every record account is one of them,
    /// all funds together fit in 64 bits, and every record meets
    /// `record_ok`.
    pub open spec fn wf(self) -> bool {
        &&& self.balances.dom().finite()
        &&& self.records.dom().subset_of(self.balances.dom())
        &&& self.supply() <= u64::MAX
        &&& forall|key: Address| #[trigger]
            self.records.dom().contains(key) ==> Self::record_ok(key, self.records[key])
    }

    /// Every record account holds at least `reserve`.
    pub open spec fn reserve_kept(self, reserve: u64) -> bool {
        forall|key: Address| #[trigger]
            self.records.dom().contains(key) ==> self.balance(key) >= reserve
    }

    /// The ledger with `amount` added to an account.
    pub open spec fn credit(self, key: Address, amount: nat) -> LedgerView {
        LedgerView { balances: self.balances.insert(key, self.balance(key) + amount), ..self }
    }

    /// The ledger with `amount` taken from an account.
    pub open spec fn debit(self, key: Address, amount: nat) -> LedgerView
        recommends
            amount <= self.balance(key),
    {
        LedgerView {
            balances: self.balances.insert(key, (self.balance(key) - amount) as nat),
            ..self
        }
    }

    /// The ledger with `amount` moved from one account to another.
    pub open spec fn transfer(self, from: Address, to: Address, amount: nat) -> LedgerView
        recommends
            amount <= self.balance(from),
    {
        self.debit(from, amount).credit(to, amount)
    }

    /// The ledger with a record stored in an account.
    pub open spec fn with_record(self, key: Address, record: EscrowView) -> LedgerView {
        LedgerView { records: self.records.insert(key, record), ..self }
    }

    /// Funds arriving from outside the ledger; refused where the supply would
    /// no longer fit in 64 bits.
    pub open spec fn deposit(self, key: Address, amount: u64) -> Option<LedgerView> {
        if self.supply() + amount <= u64::MAX {
            Some(self.credit(key, amount as nat))
        } else {
            None
        }
    }

    /// A record found in storage is taken in where it meets `record_ok` and
    /// its account holds no record yet, whoever its recipient is.
    pub open spec fn load(self, key: Address, record: EscrowView) -> Result<
        LedgerView,
        EscrowError,
    > {
        if !message_id_ok(record.message_id) {
            Err(EscrowError::InvalidInput)
        } else if record.status is Pending && record.processed_at != 0 {
            Err(EscrowError::InvalidInput)
        } else if self.records.dom().contains(key) {
            Err(EscrowError::DuplicateEscrow)
        } else if record.sender == key {
            Err(EscrowError::InvalidSender)
        } else {
            Ok(self.credit(key, 0).with_record(key, record))
        }
    }

    /// Putting a payment in escrow, given what the derivation yields for the
    /// message: the sender pays what the record account lacks of its reserve,
    /// and the amount on top of it. Any account may be the recipient. The
    /// first failing condition decides the error: the sender has signed; the
    /// identifier is well formed; the account named is the derived one; it
    /// holds no record; the sender can pay; the sender is no record account,
    /// neither one that holds a record nor the one that is to hold this one.
    /// No account is read but those that the request names.
    pub open spec fn create_at(
        self,
        ctx: CreateMessagePayment,
        amount: u64,
        message_id: Seq<char>,
        derived: Option<(Address, u8)>,
        reserve: u64,
        now: i64,
    ) -> Result<LedgerView, EscrowError> {
        if !ctx.sender.is_signer {
            Err(EscrowError::InvalidSender)
        } else if !message_id_ok(message_id) {
            Err(EscrowError::InvalidInput)
        } else {
            match derived {
                None => Err(EscrowError::InvalidInput),
                Some((address, _)) => {
                    let due = (allocation_cost(self.balance(address), reserve) + amount) as nat;
                    if ctx.message_escrow != address {
                        Err(EscrowError::InvalidInput)
                    } else if self.records.dom().contains(address) {
                        Err(EscrowError::DuplicateEscrow)
                    } else if self.balance(ctx.sender.key) < due {
                        Err(EscrowError::InsufficientFunds)
                    } else if self.is_record_account(ctx.sender.key) || ctx.sender.key
                        == address {
                        Err(EscrowError::InvalidSender)
                    } else {
                        Ok(
                            self.transfer(ctx.sender.key, address, due).with_record(
                                address,
                                EscrowView {
                                    sender: ctx.sender.key,
                                    recipient: ctx.recipient,
                                    amount,
                                    message_id,
                                    status: EscrowStatus::Pending,
                                    created_at: now,
                                    processed_at: 0,
                                },
                            ),
                        )
                    }
                },
            }
        }
    }

    /// Putting a payment in escrow at the address derived for the message.
    pub open spec fn create(
        self,
        ctx: CreateMessagePayment,
        amount: u64,
        message_id: Seq<char>,
        reserve: u64,
        now: i64,
    ) -> Result<LedgerView, EscrowError> {
        self.create_at(
            ctx,
            amount,
            message_id,
            escrow_address_of(self.program_id, message_id),
            reserve,
            now,
        )
    }

    /// Who is paid when a record is settled: the recipient on approval, the
    /// sender otherwise.
    pub open spec fn payee(record: EscrowView, decision: EscrowStatus) -> Address {
        if decision is Approved {
            record.recipient
        } else {
            record.sender
        }
    }

    /// Settling a pending record, given what the derivation yields for its
    /// message: the record turns terminal, and all that its account holds
    /// above the reserve goes to the payee. The first failing condition
    /// decides the error: the account holds a record; the record is pending;
    /// the caller is its recipient, has signed and is not the record account
    /// itself; the sender named is its sender; the account holds its
    /// reserve; the record sits at its derived address.
    pub open spec fn settle_at(
        self,
        ctx: ProcessMessagePayment,
        decision: EscrowStatus,
        derived: Option<(Address, u8)>,
        reserve: u64,
        now: i64,
    ) -> Result<LedgerView, EscrowError>
        recommends
            decision.terminal(),
    {
        let escrow = ctx.message_escrow;
        if !self.records.dom().contains(escrow) {
            Err(EscrowError::InvalidInput)
        } else {
            let record = self.records[escrow];
            if !(record.status is Pending) {
                Err(EscrowError::InvalidEscrowStatus)
            } else if ctx.recipient.key != record.recipient || !ctx.recipient.is_signer
                || ctx.recipient.key == escrow {
                Err(EscrowError::InvalidRecipient)
            } else if ctx.sender != record.sender {
                Err(EscrowError::InvalidSender)
            } else if self.balance(escrow) < reserve {
                Err(EscrowError::ArithmeticUnderflow)
            } else if !(derived matches Some((address, _)) && address == escrow) {
                Err(EscrowError::InvalidInput)
            } else {
                Ok(
                    self.transfer(
                        escrow,
                        Self::payee(record, decision),
                        (self.balance(escrow) - reserve) as nat,
                    ).with_record(
                        escrow,
                        EscrowView { status: decision, processed_at: now, ..record },
                    ),
                )
            }
        }
    }

    /// Settling a pending record that sits at the address derived for its
    /// message.
    pub open spec fn settle(
        self,
        ctx: ProcessMessagePayment,
        decision: EscrowStatus,
        reserve: u64,
        now: i64,
    ) -> Result<LedgerView, EscrowError>
        recommends
            decision.terminal(),
    {
        self.settle_at(ctx, decision, self.derived_for(ctx.message_escrow), reserve, now)
    }

    /// Settling in the recipient's favour.
    pub open spec fn approve(self, ctx: ProcessMessagePayment, reserve: u64, now: i64) -> Result<
        LedgerView,
        EscrowError,
    > {
        self.settle(ctx, EscrowStatus::Approved, reserve, now)
    }

    /// Settling in the sender's favour.
    pub open spec fn reject(self, ctx: ProcessMessagePayment, reserve: u64, now: i64) -> Result<
        LedgerView,
        EscrowError,
    > {
        self.settle(ctx, EscrowStatus::Rejected, reserve, now)
    }

    /// An unconditional transfer. The first failing condition decides the
    /// error: the donor has signed; the donor can pay; the donor is no
    /// record account.
    pub open spec fn donate(self, ctx: DonateFunds, amount: u64) -> Result<
        LedgerView,
        EscrowError,
    > {
        if !ctx.donor.is_signer {
            Err(EscrowError::InvalidSender)
        } else if self.balance(ctx.donor.key) < amount {
            Err(EscrowError::InsufficientFunds)
        } else if self.is_record_account(ctx.donor.key) {
            Err(EscrowError::InvalidSender)
        } else {
            Ok(self.transfer(ctx.donor.key, ctx.donation_address, amount as nat))
        }
    }
}

/// Taking one account out of the sum takes out its balance.
pub proof fn lemma_sum_remove(balances: Map<Address, nat>, key: Address)
    requires
        balances.dom().finite(),
        balances.dom().contains(key),
    ensures
        sum_balances(balances) == balances[key] + sum_balances(balances.remove(key)),
    decreases balances.dom().len(),
{
    let first = balances.dom().choose();
    if first != key {
        let rest = balances.remove(first);
        lemma_sum_remove(rest, key);
        lemma_sum_remove(balances.remove(key), first);
        assert(rest.remove(key) =~= balances.remove(key).remove(first));
    }
}

/// Setting one balance changes the sum by the difference.
pub proof fn lemma_sum_insert(balances: Map<Address, nat>, key: Address, value: nat)
    requires
        balances.dom().finite(),
    ensures
        sum_balances(balances.insert(key, value)) + balance_at(balances, key) == sum_balances(
            balances,
        ) + value,
{
    let after = balances.insert(key, value);
    lemma_sum_remove(after, key);
    if balances.dom().contains(key) {
        lemma_sum_remove(balances, key);
        assert(after.remove(key) =~= balances.remove(key));
    } else {
        assert(after.remove(key) =~= balances);
    }
}

/// No account holds more than the whole supply.
pub proof fn lemma_balance_bounded(balances: Map<Address, nat>, key: Address)
    requires
        balances.dom().finite(),
    ensures
        balance_at(balances, key) <= sum_balances(balances),
{
    if balances.dom().contains(key) {
        lemma_sum_remove(balances, key);
    }
}

/// Two different accounts together hold no more than the whole supply.
pub proof fn lemma_pair_bounded(balances: Map<Address, nat>, a: Address, b: Address)
    requires
        balances.dom().finite(),
        a != b,
    ensures
        balance_at(balances, a) + balance_at(balances, b) <= sum_balances(balances),
{
    if balances.dom().contains(a) {
        lemma_sum_remove(balances, a);
        if balances.dom().contains(b) {
            lemma_sum_remove(balances.remove(a), b);
        }
    } else if balances.dom().contains(b) {
        lemma_sum_remove(balances, b);
    }
}

/// The accounts of a finite ledger that lie in a given set are finitely many.
pub proof fn lemma_restrict_finite(balances: Map<Address, nat>, among: Set<Address>)
    requires
        balances.dom().finite(),
    ensures
        balances.restrict(among).dom().finite(),
        forall|key: Address|
            among.contains(key) ==> #[trigger] balance_at(balances.restrict(among), key)
                == balance_at(balances, key),
{
    assert(balances.restrict(among).dom() =~= balances.dom().intersect(among));
}

/// A transfer leaves unchanged what any set of accounts holds that includes
/// both ends of it.
pub proof fn lemma_transfer_conserves(
    pre: LedgerView,
    from: Address,
    to: Address,
    amount: nat,
    among: Set<Address>,
)
    requires
        pre.balances.dom().finite(),
        amount <= pre.balance(from),
        among.contains(from),
        among.contains(to),
    ensures
        pre.transfer(from, to, amount).held_by(among) == pre.held_by(among),
{
    let mid = pre.debit(from, amount);
    let post = mid.credit(to, amount);
    lemma_restrict_finite(pre.balances, among);
    lemma_restrict_finite(mid.balances, among);
    assert(mid.balances.restrict(among) =~= pre.balances.restrict(among).insert(
        from,
        (pre.balance(from) - amount) as nat,
    ));
    lemma_sum_insert(pre.balances.restrict(among), from, (pre.balance(from) - amount) as nat);
    assert(post.balances.restrict(among) =~= mid.balances.restrict(among).insert(
        to,
        mid.balance(to) + amount,
    ));
    lemma_sum_insert(mid.balances.restrict(among), to, mid.balance(to) + amount);
}

/// The supply is what all accounts hold together.
pub proof fn lemma_supply_is_held_by_all(view: LedgerView)
    ensures
        view.supply() == view.held_by(Set::full()),
{
    assert(view.balances.restrict(Set::full()) =~= view.balances);
}

} // verus!
