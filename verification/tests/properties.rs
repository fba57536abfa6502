use pay_to_reply::approve_message_payment;
use pay_to_reply::create_message_payment;
use pay_to_reply::donate_funds;
use pay_to_reply::escrow_address;
use pay_to_reply::execute;
use pay_to_reply::reject_message_payment;
use pay_to_reply::Address;
use pay_to_reply::Authority;
use pay_to_reply::CreateMessagePayment;
use pay_to_reply::DonateFunds;
use pay_to_reply::EscrowError;
use pay_to_reply::EscrowStatus;
use pay_to_reply::Ledger;
use pay_to_reply::Operation;
use pay_to_reply::ProcessMessagePayment;

fn party(tag: u8) -> Address {
    Address { bytes: [tag; 32] }
}

fn signed(key: Address) -> Authority {
    Authority { key, is_signer: true }
}

fn home() -> Address {
    party(9)
}

fn address_for(message_id: &str) -> Address {
    escrow_address(&home(), message_id).unwrap().0
}

fn opening(sender: Address, recipient: Address, message_id: &str) -> CreateMessagePayment {
    CreateMessagePayment {
        sender: signed(sender),
        recipient,
        message_escrow: address_for(message_id),
    }
}

fn deciding(sender: Address, recipient: Address, message_id: &str) -> ProcessMessagePayment {
    ProcessMessagePayment {
        sender,
        recipient: signed(recipient),
        message_escrow: address_for(message_id),
    }
}

fn snapshot(ledger: &Ledger, keys: &[Address]) -> Vec<u64> {
    let mut held = Vec::new();
    for key in keys {
        held.push(ledger.balance(key));
    }
    held
}

#[test]
fn funds_are_conserved_through_every_operation() {
    let (alice, bob, carol) = (party(1), party(2), party(3));
    let first = address_for("first-message");
    let other = address_for("other-message");
    let everyone = [alice, bob, carol, first, other];
    let mut ledger = Ledger::new(home());
    assert!(ledger.deposit(&alice, 10_000));
    assert!(ledger.deposit(&bob, 2_500));
    let total: u64 = 12_500;

    let create = opening(alice, bob, "first-message");
    assert_eq!(create_message_payment(&mut ledger, &create, 3_000, "first-message".to_string(), 890, 1), Ok(()));
    assert_eq!(snapshot(&ledger, &everyone), vec![6_110, 2_500, 0, 3_890, 0]);
    assert_eq!(ledger.supply(), total);

    let create = opening(bob, carol, "other-message");
    assert_eq!(create_message_payment(&mut ledger, &create, 1_000, "other-message".to_string(), 890, 2), Ok(()));
    assert_eq!(snapshot(&ledger, &everyone), vec![6_110, 610, 0, 3_890, 1_890]);
    assert_eq!(ledger.supply(), total);

    let approve = deciding(alice, bob, "first-message");
    assert_eq!(approve_message_payment(&mut ledger, &approve, 890, 3), Ok(()));
    assert_eq!(snapshot(&ledger, &everyone), vec![6_110, 3_610, 0, 890, 1_890]);
    assert_eq!(ledger.supply(), total);

    let reject = deciding(bob, carol, "other-message");
    assert_eq!(reject_message_payment(&mut ledger, &reject, 890, 4), Ok(()));
    assert_eq!(snapshot(&ledger, &everyone), vec![6_110, 4_610, 0, 890, 890]);
    assert_eq!(ledger.supply(), total);

    let gift = DonateFunds { donor: signed(alice), donation_address: carol };
    assert_eq!(donate_funds(&mut ledger, &gift, 110), Ok(()));
    assert_eq!(snapshot(&ledger, &everyone), vec![6_000, 4_610, 110, 890, 890]);
    assert_eq!(ledger.supply(), total);
    assert_eq!(snapshot(&ledger, &everyone).iter().sum::<u64>(), total);
}

#[test]
fn a_failed_operation_changes_nothing() {
    let (alice, bob) = (party(1), party(2));
    let escrow = address_for("abc123");
    let mut ledger = Ledger::new(home());
    assert!(ledger.deposit(&alice, 700));
    let create = opening(alice, bob, "abc123");
    assert_eq!(
        create_message_payment(&mut ledger, &create, 650, "abc123".to_string(), 100, 5),
        Err(EscrowError::InsufficientFunds)
    );
    assert_eq!(snapshot(&ledger, &[alice, bob, escrow]), vec![700, 0, 0]);
    assert!(ledger.record(&escrow).is_none());
    assert_eq!(ledger.supply(), 700);
}

#[test]
fn a_record_is_settled_at_most_once() {
    let (alice, bob) = (party(1), party(2));
    let escrow = address_for("abc123");
    let decide = deciding(alice, bob, "abc123");

    let mut approved = Ledger::new(home());
    assert!(approved.deposit(&alice, 1_000));
    assert_eq!(create_message_payment(&mut approved, &opening(alice, bob, "abc123"), 500, "abc123".to_string(), 100, 1), Ok(()));
    assert_eq!(approve_message_payment(&mut approved, &decide, 100, 2), Ok(()));
    let after = snapshot(&approved, &[alice, bob, escrow]);
    assert_eq!(reject_message_payment(&mut approved, &decide, 100, 3), Err(EscrowError::InvalidEscrowStatus));
    assert_eq!(approve_message_payment(&mut approved, &decide, 0, 3), Err(EscrowError::InvalidEscrowStatus));
    assert_eq!(snapshot(&approved, &[alice, bob, escrow]), after);
    assert_eq!(approved.record(&escrow).unwrap().status, EscrowStatus::Approved);
    assert_eq!(approved.record(&escrow).unwrap().processed_at, 2);

    let mut rejected = Ledger::new(home());
    assert!(rejected.deposit(&alice, 1_000));
    assert_eq!(create_message_payment(&mut rejected, &opening(alice, bob, "abc123"), 500, "abc123".to_string(), 100, 1), Ok(()));
    assert_eq!(reject_message_payment(&mut rejected, &decide, 100, 2), Ok(()));
    let after = snapshot(&rejected, &[alice, bob, escrow]);
    assert_eq!(approve_message_payment(&mut rejected, &decide, 100, 3), Err(EscrowError::InvalidEscrowStatus));
    assert_eq!(reject_message_payment(&mut rejected, &decide, 100, 3), Err(EscrowError::InvalidEscrowStatus));
    assert_eq!(snapshot(&rejected, &[alice, bob, escrow]), after);
    assert_eq!(rejected.record(&escrow).unwrap().status, EscrowStatus::Rejected);
}

#[test]
fn a_settled_record_refuses_even_a_stranger_with_invalid_status() {
    let (alice, bob, mallory) = (party(1), party(2), party(6));
    let mut ledger = Ledger::new(home());
    assert!(ledger.deposit(&alice, 1_000));
    assert_eq!(create_message_payment(&mut ledger, &opening(alice, bob, "abc123"), 500, "abc123".to_string(), 100, 1), Ok(()));
    assert_eq!(approve_message_payment(&mut ledger, &deciding(alice, bob, "abc123"), 100, 2), Ok(()));
    assert_eq!(
        approve_message_payment(&mut ledger, &deciding(alice, mallory, "abc123"), 100, 3),
        Err(EscrowError::InvalidEscrowStatus)
    );
}

#[test]
fn only_the_stored_recipient_settles() {
    let (alice, bob, mallory) = (party(1), party(2), party(6));
    let escrow = address_for("abc123");
    let mut ledger = Ledger::new(home());
    assert!(ledger.deposit(&alice, 1_000));
    assert!(ledger.deposit(&mallory, 5));
    assert_eq!(create_message_payment(&mut ledger, &opening(alice, bob, "abc123"), 500, "abc123".to_string(), 100, 1), Ok(()));
    let before = snapshot(&ledger, &[alice, bob, mallory, escrow]);

    let stranger = deciding(alice, mallory, "abc123");
    assert_eq!(approve_message_payment(&mut ledger, &stranger, 100, 2), Err(EscrowError::InvalidRecipient));
    assert_eq!(reject_message_payment(&mut ledger, &stranger, 100, 2), Err(EscrowError::InvalidRecipient));

    let sender_decides = deciding(alice, alice, "abc123");
    assert_eq!(approve_message_payment(&mut ledger, &sender_decides, 100, 2), Err(EscrowError::InvalidRecipient));
    assert_eq!(reject_message_payment(&mut ledger, &sender_decides, 100, 2), Err(EscrowError::InvalidRecipient));

    let unsigned = ProcessMessagePayment {
        sender: alice,
        recipient: Authority { key: bob, is_signer: false },
        message_escrow: escrow,
    };
    assert_eq!(approve_message_payment(&mut ledger, &unsigned, 100, 2), Err(EscrowError::InvalidRecipient));
    assert_eq!(reject_message_payment(&mut ledger, &unsigned, 100, 2), Err(EscrowError::InvalidRecipient));

    assert_eq!(snapshot(&ledger, &[alice, bob, mallory, escrow]), before);
    let record = ledger.record(&escrow).unwrap();
    assert_eq!(record.status, EscrowStatus::Pending);
    assert_eq!(record.processed_at, 0);
}

#[test]
fn settlement_leaves_exactly_the_reserve() {
    let (alice, bob) = (party(1), party(2));
    let escrow = address_for("abc123");
    for (amount, extra, reserve) in [(0u64, 0u64, 0u64), (1, 0, 890_880), (500, 250, 100), (7, 1_000, 1)] {
        let mut ledger = Ledger::new(home());
        assert!(ledger.deposit(&alice, 2_000_000));
        assert_eq!(create_message_payment(&mut ledger, &opening(alice, bob, "abc123"), amount, "abc123".to_string(), reserve, 1), Ok(()));
        assert!(ledger.deposit(&escrow, extra));
        assert_eq!(approve_message_payment(&mut ledger, &deciding(alice, bob, "abc123"), reserve, 2), Ok(()));
        assert_eq!(ledger.balance(&escrow), reserve);
        assert_eq!(ledger.balance(&bob), amount + extra);
        assert_eq!(ledger.balance(&alice), 2_000_000 - reserve - amount);
    }
}

#[test]
fn payout_follows_the_balance_not_the_nominal_amount() {
    let (alice, bob) = (party(1), party(2));
    let escrow = address_for("abc123");
    let mut ledger = Ledger::new(home());
    assert!(ledger.deposit(&alice, 1_000));
    assert_eq!(create_message_payment(&mut ledger, &opening(alice, bob, "abc123"), 500, "abc123".to_string(), 100, 1), Ok(()));
    assert!(ledger.deposit(&escrow, 40));
    assert_eq!(reject_message_payment(&mut ledger, &deciding(alice, bob, "abc123"), 100, 2), Ok(()));
    assert_eq!(ledger.record(&escrow).unwrap().amount, 500);
    assert_eq!(ledger.balance(&alice), 940);
    assert_eq!(ledger.balance(&escrow), 100);
}

#[test]
fn a_shared_prefix_is_a_duplicate() {
    let (alice, bob, carol) = (party(1), party(2), party(3));
    let escrow = address_for("abc123");
    assert_eq!(address_for("abc1-something-else"), escrow);
    let mut ledger = Ledger::new(home());
    assert!(ledger.deposit(&alice, 1_000));
    assert!(ledger.deposit(&carol, 1_000));
    assert_eq!(create_message_payment(&mut ledger, &opening(alice, bob, "abc123"), 500, "abc123".to_string(), 100, 1), Ok(()));
    let before = snapshot(&ledger, &[alice, bob, carol, escrow]);

    let again = opening(carol, alice, "abc1-something-else");
    assert_eq!(
        create_message_payment(&mut ledger, &again, 10, "abc1-something-else".to_string(), 100, 2),
        Err(EscrowError::DuplicateEscrow)
    );
    let same = opening(alice, bob, "abc123");
    assert_eq!(
        create_message_payment(&mut ledger, &same, 500, "abc123".to_string(), 100, 2),
        Err(EscrowError::DuplicateEscrow)
    );

    assert_eq!(snapshot(&ledger, &[alice, bob, carol, escrow]), before);
    let record = ledger.record(&escrow).unwrap();
    assert_eq!(record.message_id, "abc123");
    assert_eq!(record.sender, alice);
    assert_eq!(record.recipient, bob);
    assert_eq!(record.amount, 500);
    assert_eq!(record.created_at, 1);
}

#[test]
fn a_settled_record_still_blocks_its_prefix() {
    let (alice, bob) = (party(1), party(2));
    let mut ledger = Ledger::new(home());
    assert!(ledger.deposit(&alice, 1_000));
    assert_eq!(create_message_payment(&mut ledger, &opening(alice, bob, "abc123"), 500, "abc123".to_string(), 100, 1), Ok(()));
    assert_eq!(reject_message_payment(&mut ledger, &deciding(alice, bob, "abc123"), 100, 2), Ok(()));
    assert_eq!(
        create_message_payment(&mut ledger, &opening(alice, bob, "abc1"), 5, "abc1".to_string(), 100, 3),
        Err(EscrowError::DuplicateEscrow)
    );
}

#[test]
fn a_different_prefix_is_another_record() {
    let (alice, bob) = (party(1), party(2));
    assert_ne!(address_for("abc123"), address_for("abd123"));
    let mut ledger = Ledger::new(home());
    assert!(ledger.deposit(&alice, 1_000));
    assert_eq!(create_message_payment(&mut ledger, &opening(alice, bob, "abc123"), 100, "abc123".to_string(), 100, 1), Ok(()));
    assert_eq!(create_message_payment(&mut ledger, &opening(alice, bob, "abd123"), 100, "abd123".to_string(), 100, 1), Ok(()));
    assert_eq!(ledger.balance(&alice), 600);
}

#[test]
fn execute_does_what_the_named_operation_does() {
    let (alice, bob, carol) = (party(1), party(2), party(3));
    let escrow = address_for("abc123");
    let mut ledger = Ledger::new(home());
    assert!(ledger.deposit(&alice, 1_000));
    let create = Operation::Create {
        payment: opening(alice, bob, "abc123"),
        amount: 500,
        message_id: "abc123".to_string(),
    };
    assert_eq!(execute(&mut ledger, create, 100, 1), Ok(()));
    assert_eq!(snapshot(&ledger, &[alice, bob, escrow]), vec![400, 0, 600]);

    let by_stranger = Operation::Reject { settlement: deciding(alice, carol, "abc123") };
    assert_eq!(execute(&mut ledger, by_stranger, 100, 2), Err(EscrowError::InvalidRecipient));

    let approve = Operation::Approve { settlement: deciding(alice, bob, "abc123") };
    assert_eq!(execute(&mut ledger, approve, 100, 2), Ok(()));
    assert_eq!(snapshot(&ledger, &[alice, bob, escrow]), vec![400, 500, 100]);

    let reject = Operation::Reject { settlement: deciding(alice, bob, "abc123") };
    assert_eq!(execute(&mut ledger, reject, 100, 3), Err(EscrowError::InvalidEscrowStatus));

    let gift = Operation::Donate {
        donation: DonateFunds { donor: signed(bob), donation_address: carol },
        amount: 120,
    };
    assert_eq!(execute(&mut ledger, gift, 100, 4), Ok(()));
    assert_eq!(snapshot(&ledger, &[alice, bob, carol, escrow]), vec![400, 380, 120, 100]);
    assert_eq!(ledger.supply(), 1_000);
}

#[test]
fn execute_rejects_on_the_second_record() {
    let (alice, bob) = (party(1), party(2));
    let escrow = address_for("wxyz-1");
    let mut ledger = Ledger::new(home());
    assert!(ledger.deposit(&alice, 300));
    let create = Operation::Create {
        payment: opening(alice, bob, "wxyz-1"),
        amount: 200,
        message_id: "wxyz-1".to_string(),
    };
    assert_eq!(execute(&mut ledger, create, 50, 10), Ok(()));
    let reject = Operation::Reject { settlement: deciding(alice, bob, "wxyz-1") };
    assert_eq!(execute(&mut ledger, reject, 50, 11), Ok(()));
    assert_eq!(snapshot(&ledger, &[alice, bob, escrow]), vec![250, 0, 50]);
    assert_eq!(ledger.record(&escrow).unwrap().status, EscrowStatus::Rejected);
}

#[test]
fn operations_on_other_accounts_may_run_in_either_order() {
    let (alice, bob, carol, dave) = (party(1), party(2), party(3), party(4));
    let escrow = address_for("abc123");
    let everyone = [alice, bob, carol, dave, escrow];
    let fresh = || {
        let mut ledger = Ledger::new(home());
        assert!(ledger.deposit(&alice, 1_000));
        assert!(ledger.deposit(&carol, 300));
        ledger
    };
    let gift = DonateFunds { donor: signed(carol), donation_address: dave };

    let mut create_first = fresh();
    assert_eq!(create_message_payment(&mut create_first, &opening(alice, bob, "abc123"), 500, "abc123".to_string(), 100, 1), Ok(()));
    assert_eq!(donate_funds(&mut create_first, &gift, 120), Ok(()));

    let mut gift_first = fresh();
    assert_eq!(donate_funds(&mut gift_first, &gift, 120), Ok(()));
    assert_eq!(create_message_payment(&mut gift_first, &opening(alice, bob, "abc123"), 500, "abc123".to_string(), 100, 1), Ok(()));

    assert_eq!(snapshot(&create_first, &everyone), vec![400, 0, 180, 120, 600]);
    assert_eq!(snapshot(&gift_first, &everyone), snapshot(&create_first, &everyone));
    assert_eq!(gift_first.record(&escrow).unwrap().status, create_first.record(&escrow).unwrap().status);

    let too_much = DonateFunds { donor: signed(carol), donation_address: dave };
    let mut refused_after = fresh();
    assert_eq!(create_message_payment(&mut refused_after, &opening(alice, bob, "abc123"), 500, "abc123".to_string(), 100, 1), Ok(()));
    assert_eq!(donate_funds(&mut refused_after, &too_much, 301), Err(EscrowError::InsufficientFunds));
    let mut refused_before = fresh();
    assert_eq!(donate_funds(&mut refused_before, &too_much, 301), Err(EscrowError::InsufficientFunds));
}

#[test]
fn record_accounts_keep_their_reserve_through_operations() {
    let (alice, bob, carol) = (party(1), party(2), party(3));
    let first = address_for("first-message");
    let other = address_for("other-message");
    let mut ledger = Ledger::new(home());
    assert!(ledger.deposit(&alice, 5_000));
    assert_eq!(create_message_payment(&mut ledger, &opening(alice, bob, "first-message"), 700, "first-message".to_string(), 200, 1), Ok(()));
    assert!(ledger.balance(&first) >= 200);
    assert_eq!(create_message_payment(&mut ledger, &opening(alice, carol, "other-message"), 0, "other-message".to_string(), 200, 2), Ok(()));
    assert!(ledger.balance(&first) >= 200 && ledger.balance(&other) >= 200);
    assert_eq!(reject_message_payment(&mut ledger, &deciding(alice, carol, "other-message"), 200, 3), Ok(()));
    assert!(ledger.balance(&first) >= 200 && ledger.balance(&other) >= 200);
    let gift = DonateFunds { donor: signed(alice), donation_address: first };
    assert_eq!(donate_funds(&mut ledger, &gift, 50), Ok(()));
    assert_eq!(approve_message_payment(&mut ledger, &deciding(alice, bob, "first-message"), 200, 4), Ok(()));
    assert_eq!(ledger.balance(&first), 200);
    assert_eq!(ledger.balance(&other), 200);
    assert_eq!(ledger.balance(&bob), 750);
    assert_eq!(ledger.supply(), 5_000);
}

#[test]
fn settlement_changes_only_status_and_settlement_time() {
    let (alice, bob) = (party(1), party(2));
    let escrow = address_for("abc123");
    let mut ledger = Ledger::new(home());
    assert!(ledger.deposit(&alice, 1_000));
    assert_eq!(create_message_payment(&mut ledger, &opening(alice, bob, "abc123"), 500, "abc123".to_string(), 100, 11), Ok(()));
    let before = ledger.record(&escrow).unwrap();
    assert_eq!(approve_message_payment(&mut ledger, &deciding(alice, bob, "abc123"), 100, 22), Ok(()));
    let after = ledger.record(&escrow).unwrap();
    assert_eq!(after.sender, before.sender);
    assert_eq!(after.recipient, before.recipient);
    assert_eq!(after.amount, before.amount);
    assert_eq!(after.message_id, before.message_id);
    assert_eq!(after.created_at, before.created_at);
    assert_eq!(before.status, EscrowStatus::Pending);
    assert_eq!(after.status, EscrowStatus::Approved);
    assert_eq!(before.processed_at, 0);
    assert_eq!(after.processed_at, 22);
    let gift = DonateFunds { donor: signed(alice), donation_address: escrow };
    assert_eq!(donate_funds(&mut ledger, &gift, 5), Ok(()));
    let later = ledger.record(&escrow).unwrap();
    assert_eq!(later.status, EscrowStatus::Approved);
    assert_eq!(later.processed_at, 22);
}
