use crate::address::Address;
use crate::error::EscrowError;
use crate::model::balance_at;
use crate::model::lemma_balance_bounded;
use crate::model::lemma_pair_bounded;
use crate::model::lemma_sum_insert;
use crate::model::LedgerView;
use crate::record::check_message_id;
use crate::record::EscrowStatus;
use crate::record::EscrowView;
use crate::record::MessageEscrow;
use vstd::prelude::*;

verus! {

/// One account as the ledger stores it.
struct Account {
    key: Address,
    lamports: u64,
    escrow: Option<MessageEscrow>,
}

/// No key is stored twice.
spec fn distinct_keys(accounts: Seq<Account>) -> bool {
    forall|i: int, j: int| 0 <= i < j < accounts.len() ==> accounts[i].key != accounts[j].key
}

/// An account with the given key is stored.
spec fn holds(accounts: Seq<Account>, key: Address) -> bool {
    exists|i: int| 0 <= i < accounts.len() && accounts[i].key == key
}

/// The index at which the account with the given key is stored.
spec fn slot(accounts: Seq<Account>, key: Address) -> int {
    choose|i: int| 0 <= i < accounts.len() && accounts[i].key == key
}

/// What each stored account holds.
spec fn balances_of(accounts: Seq<Account>) -> Map<Address, nat> {
    Map::new(
        |key: Address| holds(accounts, key),
        |key: Address| accounts[slot(accounts, key)].lamports as nat,
    )
}

/// The record of each stored account that holds one.
spec fn records_of(accounts: Seq<Account>) -> Map<Address, EscrowView> {
    Map::new(
        |key: Address| holds(accounts, key) && accounts[slot(accounts, key)].escrow is Some,
        |key: Address| accounts[slot(accounts, key)].escrow->0@,
    )
}

/// With distinct keys, an account's key leads back to its index.
proof fn lemma_slot(accounts: Seq<Account>, i: int)
    requires
        distinct_keys(accounts),
        0 <= i < accounts.len(),
    ensures
        holds(accounts, accounts[i].key),
        slot(accounts, accounts[i].key) == i,
{
}

/// Storing an account under a new key adds it to the ledger and changes no
/// other.
proof fn lemma_push(accounts: Seq<Account>, account: Account)
    requires
        distinct_keys(accounts),
        !holds(accounts, account.key),
    ensures
        distinct_keys(accounts.push(account)),
        balances_of(accounts.push(account)) == balances_of(accounts).insert(
            account.key,
            account.lamports as nat,
        ),
        records_of(accounts.push(account)) == (if account.escrow is Some {
            records_of(accounts).insert(account.key, account.escrow->0@)
        } else {
            records_of(accounts)
        }),
{
    let after = accounts.push(account);
    assert(distinct_keys(after)) by {
        assert forall|i: int, j: int| 0 <= i < j < after.len() implies after[i].key
            != after[j].key by {
            if j == accounts.len() {
                assert(accounts[i].key == after[i].key);
            }
        }
    }
    assert forall|key: Address| holds(after, key) <==> (key == account.key || holds(
        accounts,
        key,
    )) by {
        if holds(after, key) {
            let i = slot(after, key);
            if i < accounts.len() {
                assert(accounts[i].key == key);
            }
        }
        if holds(accounts, key) {
            let i = slot(accounts, key);
            assert(after[i].key == key);
        }
        if key == account.key {
            assert(after[accounts.len() as int].key == key);
        }
    }
    assert forall|key: Address| holds(accounts, key) implies slot(after, key) == slot(
        accounts,
        key,
    ) by {
        let i = slot(accounts, key);
        assert(after[i].key == key);
        lemma_slot(after, i);
    }
    lemma_slot(after, accounts.len() as int);
    assert(balances_of(after) =~= balances_of(accounts).insert(
        account.key,
        account.lamports as nat,
    ));
    if account.escrow is Some {
        assert(records_of(after) =~= records_of(accounts).insert(account.key, account.escrow->0@));
    } else {
        assert(records_of(after) =~= records_of(accounts));
    }
}

/// Replacing a stored account under its own key changes that account on the
/// ledger and no other.
proof fn lemma_update(accounts: Seq<Account>, i: int, account: Account)
    requires
        distinct_keys(accounts),
        0 <= i < accounts.len(),
        account.key == accounts[i].key,
    ensures
        distinct_keys(accounts.update(i, account)),
        balances_of(accounts.update(i, account)) == balances_of(accounts).insert(
            account.key,
            account.lamports as nat,
        ),
        records_of(accounts.update(i, account)) == (if account.escrow is Some {
            records_of(accounts).insert(account.key, account.escrow->0@)
        } else {
            records_of(accounts).remove(account.key)
        }),
{
    let after = accounts.update(i, account);
    assert forall|key: Address| holds(after, key) <==> holds(accounts, key) by {
        if holds(after, key) {
            let j = slot(after, key);
            assert(accounts[j].key == key);
        }
        if holds(accounts, key) {
            let j = slot(accounts, key);
            assert(after[j].key == key);
        }
    }
    assert forall|key: Address| holds(accounts, key) implies slot(after, key) == slot(
        accounts,
        key,
    ) by {
        let j = slot(accounts, key);
        assert(after[j].key == key);
        lemma_slot(after, j);
    }
    lemma_slot(accounts, i);
    assert(balances_of(after) =~= balances_of(accounts).insert(
        account.key,
        account.lamports as nat,
    ));
    if account.escrow is Some {
        assert(records_of(after) =~= records_of(accounts).insert(account.key, account.escrow->0@));
    } else {
        assert(records_of(after) =~= records_of(accounts).remove(account.key));
    }
}

/// The index of the account with the given key, where it is stored.
fn locate(accounts: &Vec<Account>, key: &Address) -> (found: Option<usize>)
    ensures
        match found {
            Some(i) => i < accounts@.len() && accounts@[i as int].key == *key,
            None => !holds(accounts@, *key),
        },
{
    let mut i: usize = 0;
    while i < accounts.len()
        invariant
            i <= accounts@.len(),
            forall|j: int| 0 <= j < i ==> accounts@[j].key != *key,
        decreases accounts@.len() - i,
    {
        if accounts[i].key == *key {
            return Some(i);
        }
        i = i + 1;
    }
    None
}

/// The ledger that the stored accounts stand for.
spec fn view_of(program_id: Address, accounts: Seq<Account>) -> LedgerView {
    LedgerView {
        program_id,
        balances: balances_of(accounts),
        records: records_of(accounts),
    }
}

/// What the account with the given key holds.
fn balance_in(accounts: &Vec<Account>, key: &Address) -> (lamports: u64)
    requires
        distinct_keys(accounts@),
    ensures
        lamports == balance_at(balances_of(accounts@), *key),
{
    match locate(accounts, key) {
        Some(i) => {
            proof {
                lemma_slot(accounts@, i as int);
            }
            accounts[i].lamports
        },
        None => 0,
    }
}

/// Sets what an account holds, opening the account where there is none.
fn set_balance(accounts: &mut Vec<Account>, key: &Address, lamports: u64)
    requires
        distinct_keys(old(accounts)@),
    ensures
        distinct_keys(final(accounts)@),
        balances_of(final(accounts)@) == balances_of(old(accounts)@).insert(*key, lamports as nat),
        records_of(final(accounts)@) == records_of(old(accounts)@),
{
    let ghost before = accounts@;
    match locate(accounts, key) {
        Some(i) => {
            accounts[i].lamports = lamports;
            proof {
                let changed = accounts@[i as int];
                assert(accounts@ =~= before.update(i as int, changed));
                lemma_slot(before, i as int);
                lemma_update(before, i as int, changed);
                if changed.escrow is Some {
                    assert(records_of(before).insert(*key, changed.escrow->0@) =~= records_of(
                        before,
                    ));
                } else {
                    assert(records_of(before).remove(*key) =~= records_of(before));
                }
            }
        },
        None => {
            let account = Account { key: *key, lamports, escrow: None };
            proof {
                lemma_push(before, account);
            }
            accounts.push(account);
        },
    }
}

/// Stores a record in an account that exists.
fn set_record(accounts: &mut Vec<Account>, key: &Address, record: MessageEscrow)
    requires
        distinct_keys(old(accounts)@),
        holds(old(accounts)@, *key),
    ensures
        distinct_keys(final(accounts)@),
        balances_of(final(accounts)@) == balances_of(old(accounts)@),
        records_of(final(accounts)@) == records_of(old(accounts)@).insert(*key, record@),
{
    let ghost before = accounts@;
    match locate(accounts, key) {
        Some(i) => {
            accounts[i].escrow = Some(record);
            proof {
                let changed = accounts@[i as int];
                assert(accounts@ =~= before.update(i as int, changed));
                lemma_slot(before, i as int);
                lemma_update(before, i as int, changed);
                assert(balances_of(before).insert(*key, changed.lamports as nat) =~= balances_of(
                    before,
                ));
            }
        },
        None => {},
    }
}

/// The accounts of one program: their balances and the escrow records that
/// some of them hold. All funds together fit in 64 bits. The total is kept
/// beside the accounts and is always the sum of what they hold, so the view
/// has no field for it.
pub struct Ledger {
    program_id: Address,
    accounts: Vec<Account>,
    supply: u64,
}

impl View for Ledger {
    type V = LedgerView;

    closed spec fn view(&self) -> LedgerView {
        view_of(self.program_id, self.accounts@)
    }
}

impl Ledger {
    /// Keys are stored once, the ledger is well formed, and `supply` is the
    /// sum of what the accounts hold.
    #[verifier::type_invariant]
    spec fn inv(self) -> bool {
        &&& distinct_keys(self.accounts@)
        &&& self@.wf()
        &&& self.supply == self@.supply()
    }

    /// A ledger without accounts for the given program.
    pub fn new(program_id: Address) -> (ledger: Ledger)
        ensures
            ledger@ == LedgerView::empty(program_id),
            ledger@.supply() == 0,
            ledger@.wf(),
    {
        let accounts: Vec<Account> = Vec::new();
        proof {
            assert(balances_of(accounts@) =~= Map::empty());
            assert(records_of(accounts@) =~= Map::empty());
        }
        Ledger { program_id, accounts, supply: 0 }
    }

    /// The program whose records the ledger holds.
    pub fn program_id(&self) -> (id: Address)
        ensures
            id == self@.program_id,
    {
        self.program_id
    }

    /// All the funds on the ledger.
    pub fn supply(&self) -> (total: u64)
        ensures
            total == self@.supply(),
            self@.wf(),
    {
        proof {
            use_type_invariant(self);
        }
        self.supply
    }

    /// What an account holds; nothing where it was never touched.
    pub fn balance(&self, key: &Address) -> (lamports: u64)
        ensures
            lamports == self@.balance(*key),
            self@.wf(),
    {
        proof {
            use_type_invariant(self);
        }
        balance_in(&self.accounts, key)
    }

    /// The record that an account holds.
    pub fn record(&self, key: &Address) -> (found: Option<MessageEscrow>)
        ensures
            match found {
                Some(record) => self@.record(*key) == Some(record@),
                None => self@.record(*key) is None,
            },
            self@.wf(),
    {
        proof {
            use_type_invariant(self);
        }
        match locate(&self.accounts, key) {
            Some(i) => {
                proof {
                    lemma_slot(self.accounts@, i as int);
                }
                match &self.accounts[i].escrow {
                    Some(record) => Some(record.clone()),
                    None => None,
                }
            },
            None => None,
        }
    }

    /// Whether an account holds a record.
    pub fn has_record(&self, key: &Address) -> (found: bool)
        ensures
            found == self@.records.dom().contains(*key),
            self@.wf(),
    {
        proof {
            use_type_invariant(self);
        }
        match locate(&self.accounts, key) {
            Some(i) => {
                proof {
                    lemma_slot(self.accounts@, i as int);
                }
                self.accounts[i].escrow.is_some()
            },
            None => false,
        }
    }

    /// Takes in funds from outside the ledger. Refused, with nothing
    /// changed, where the supply would no longer fit in 64 bits.
    pub fn deposit(&mut self, key: &Address, amount: u64) -> (accepted: bool)
        ensures
            match old(self)@.deposit(*key, amount) {
                Some(after) => accepted && final(self)@ == after && final(self)@.supply() == old(
                    self,
                )@.supply() + amount,
                None => !accepted && final(self)@ == old(self)@,
            },
            final(self)@.wf(),
    {
        proof {
            use_type_invariant(&*self);
        }
        if amount > u64::MAX - self.supply {
            return false;
        }
        let mut taken = Ledger::new(self.program_id);
        std::mem::swap(self, &mut taken);
        let Ledger { program_id, mut accounts, supply } = taken;
        let ghost start = view_of(program_id, accounts@);
        let held = balance_in(&accounts, key);
        proof {
            lemma_balance_bounded(start.balances, *key);
            lemma_sum_insert(start.balances, *key, (held + amount) as nat);
        }
        set_balance(&mut accounts, key, held + amount);
        proof {
            let grown = view_of(program_id, accounts@);
            assert(grown =~= start.credit(*key, amount as nat));
            assert forall|other: Address| #[trigger]
                grown.records.dom().contains(other) implies LedgerView::record_ok(
                other,
                grown.records[other],
            ) by {
                assert(LedgerView::record_ok(other, start.records[other]));
            }
        }
        *self = Ledger { program_id, accounts, supply: supply + amount };
        true
    }

    /// Takes in a record found in storage, at the address it was found at.
    /// Refused, with nothing changed, where the record is malformed, names
    /// its own account as its sender, or the account holds a record already.
    /// Its recipient may be any account.
    pub fn load_record(&mut self, key: &Address, record: MessageEscrow) -> (outcome: Result<
        (),
        EscrowError,
    >)
        ensures
            match outcome {
                Ok(()) => old(self)@.load(*key, record@) == Ok::<LedgerView, EscrowError>(
                    final(self)@,
                ),
                Err(e) => old(self)@.load(*key, record@) == Err::<LedgerView, EscrowError>(e)
                    && final(self)@ == old(self)@,
            },
            final(self)@.supply() == old(self)@.supply(),
            final(self)@.wf(),
    {
        proof {
            use_type_invariant(&*self);
        }
        if !check_message_id(record.message_id.as_str()) {
            return Err(EscrowError::InvalidInput);
        }
        if record.status == EscrowStatus::Pending && record.processed_at != 0 {
            return Err(EscrowError::InvalidInput);
        }
        if self.has_record(key) {
            return Err(EscrowError::DuplicateEscrow);
        }
        if record.sender == *key {
            return Err(EscrowError::InvalidSender);
        }
        self.deposit(key, 0);
        self.put_record(key, record);
        Ok(())
    }

    /// Stores a record in an account that exists.
    pub(crate) fn put_record(&mut self, key: &Address, record: MessageEscrow)
        requires
            old(self)@.balances.dom().contains(*key),
            LedgerView::record_ok(*key, record@),
        ensures
            final(self)@ == old(self)@.with_record(*key, record@),
            final(self)@.supply() == old(self)@.supply(),
            final(self)@.wf(),
    {
        proof {
            use_type_invariant(&*self);
        }
        let mut taken = Ledger::new(self.program_id);
        std::mem::swap(self, &mut taken);
        let Ledger { program_id, mut accounts, supply } = taken;
        let ghost start = view_of(program_id, accounts@);
        let ghost stored = record@;
        set_record(&mut accounts, key, record);
        proof {
            let kept = view_of(program_id, accounts@);
            assert(kept =~= start.with_record(*key, stored));
            assert forall|other: Address| #[trigger]
                kept.records.dom().contains(other) implies LedgerView::record_ok(
                other,
                kept.records[other],
            ) by {
                if other != *key {
                    assert(LedgerView::record_ok(other, start.records[other]));
                }
            }
        }
        *self = Ledger { program_id, accounts, supply };
    }

    /// Moves funds between two accounts.
    pub(crate) fn transfer(&mut self, from: &Address, to: &Address, amount: u64)
        requires
            amount <= old(self)@.balance(*from),
        ensures
            final(self)@ == old(self)@.transfer(*from, *to, amount as nat),
            final(self)@.supply() == old(self)@.supply(),
            final(self)@.wf(),
    {
        proof {
            use_type_invariant(&*self);
        }
        let mut taken = Ledger::new(self.program_id);
        std::mem::swap(self, &mut taken);
        let Ledger { program_id, mut accounts, supply } = taken;
        let ghost start = view_of(program_id, accounts@);
        let held = balance_in(&accounts, from);
        set_balance(&mut accounts, from, held - amount);
        let ghost debited = view_of(program_id, accounts@);
        let target = balance_in(&accounts, to);
        proof {
            assert(debited =~= start.debit(*from, amount as nat));
            lemma_sum_insert(start.balances, *from, (held - amount) as nat);
            if *from != *to {
                lemma_pair_bounded(start.balances, *from, *to);
            }
            lemma_sum_insert(debited.balances, *to, (target + amount) as nat);
        }
        set_balance(&mut accounts, to, target + amount);
        proof {
            let moved = view_of(program_id, accounts@);
            assert(moved =~= start.transfer(*from, *to, amount as nat));
            assert forall|key: Address| #[trigger]
                moved.records.dom().contains(key) implies LedgerView::record_ok(
                key,
                moved.records[key],
            ) by {
                assert(LedgerView::record_ok(key, start.records[key]));
            }
        }
        *self = Ledger { program_id, accounts, supply };
    }
}

} // verus!
