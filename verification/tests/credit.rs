//! Bilateral credit and the credit ledger.
use nexus::credit::BilateralCredit;
use nexus::ledger::CreditLedger;
use nexus::types::Did;

fn did(s: &str) -> Did {
    Did::new(&format!("did:key:{s}"))
}

#[test]
fn new_credit_line_zero_balance() {
    let alice = did("alice");
    let bc = BilateralCredit::new(alice.clone(), 100, 50, 0);
    assert_eq!(bc.balance, 0);
    assert!(bc.can_extend(100));
    assert!(bc.can_borrow(50));
}

#[test]
fn record_positive_they_pay_me() {
    let alice = did("alice");
    let mut bc = BilateralCredit::new(alice, 100, 50, 0);
    bc.record(30, 1); // They pay me 30
    assert_eq!(bc.balance, 30);
    assert!(bc.can_extend(70)); // 30 + 70 = 100 (at limit)
    assert!(!bc.can_extend(71));
}

#[test]
fn record_negative_i_pay_them() {
    let alice = did("alice");
    let mut bc = BilateralCredit::new(alice, 100, 50, 0);
    bc.record(-40, 1); // I pay them 40
    assert_eq!(bc.balance, -40);
    assert!(bc.can_borrow(10)); // -40 + (-10) = -50 (at debt limit)
    assert!(!bc.can_borrow(11));
}

#[test]
fn total_volume_accumulates() {
    let alice = did("alice");
    let mut bc = BilateralCredit::new(alice, 1000, 1000, 0);
    bc.record(100, 1);
    bc.record(-50, 2);
    bc.record(200, 3);
    assert_eq!(bc.total_volume, 350);
    assert_eq!(bc.balance, 250);
}

#[test]
fn capacity_constraints() {
    let alice = did("alice");
    let bc = BilateralCredit::new(alice, 100, 100, 0);
    assert!(bc.can_extend(100));
    assert!(!bc.can_extend(101));
    assert!(bc.can_borrow(100));
    assert!(!bc.can_borrow(101));
}

#[test]
fn get_or_create_same_line() {
    let mut ledger = CreditLedger::new();
    let alice = did("alice");
    ledger.get_or_create(&alice, 100, 50, 0);
    ledger.get_or_create(&alice, 200, 100, 1);
    let line = ledger.get(&alice).unwrap();
    // Second call should return existing, not overwrite
    assert_eq!(line.credit_limit, 100);
}

#[test]
fn record_within_limits() {
    let mut ledger = CreditLedger::new();
    let bob = did("bob");
    ledger.get_or_create(&bob, 100, 50, 0);
    assert!(ledger.record(&bob, 30, 1).is_ok());
    assert_eq!(ledger.get(&bob).unwrap().balance, 30);
}

#[test]
fn record_exceeds_credit_limit() {
    let mut ledger = CreditLedger::new();
    let bob = did("bob");
    ledger.get_or_create(&bob, 10, 50, 0);
    assert!(ledger.record(&bob, 30, 1).is_err()); // 30 > 10 credit limit
}

#[test]
fn net_position() {
    let mut ledger = CreditLedger::new();
    let alice = did("alice");
    let bob = did("bob");
    ledger.get_or_create(&alice, 1000, 1000, 0);
    ledger.get_or_create(&bob, 1000, 1000, 0);
    ledger.record(&alice, 100, 1).unwrap(); // They owe me 100
    ledger.record(&bob, -50, 1).unwrap(); // I owe them 50
    assert_eq!(ledger.net_position(), 50);
}

#[test]
fn available_amounts_are_exact() {
    let mut bc = BilateralCredit::new(did("alice"), 100, 50, 0);
    bc.record(30, 1);
    assert_eq!(bc.available_credit(), 70);
    assert_eq!(bc.available_debt(), 80);
    assert_eq!(bc.my_position(), 30);
    bc.record(100, 2);
    assert_eq!(bc.available_credit(), 0);
    bc.record(-300, 3);
    assert_eq!(bc.available_debt(), 0);
    assert_eq!(bc.last_activity, 3);
    let wide = BilateralCredit::new(did("bob"), u64::MAX, u64::MAX, 0);
    assert_eq!(wide.available_credit(), u64::MAX);
    assert_eq!(wide.available_debt(), u64::MAX);
}

#[test]
fn ledger_names_its_complaints() {
    let mut ledger = CreditLedger::new();
    let bob = did("bob");
    assert_eq!(
        ledger.record(&bob, 1, 0).unwrap_err(),
        "no credit line with this counterparty"
    );
    ledger.get_or_create(&bob, 10, 5, 0);
    assert_eq!(ledger.record(&bob, 11, 0).unwrap_err(), "exceeds credit limit");
    assert_eq!(ledger.record(&bob, -6, 0).unwrap_err(), "exceeds debt limit");
    assert_eq!(ledger.record(&bob, -5, 1).unwrap(), -5);
}

#[test]
fn limits_hold_and_other_lines_are_left_alone() {
    let mut ledger = CreditLedger::new();
    let alice = did("alice");
    let bob = did("bob");
    ledger.get_or_create(&alice, 10, 10, 0);
    ledger.get_or_create(&bob, 10, 10, 0);
    for amount in [4, 7, -15, 3, -20, 9] {
        let _ = ledger.record(&alice, amount, 1);
        let balance = ledger.get(&alice).unwrap().balance;
        assert!(-10 <= balance && balance <= 10);
    }
    assert_eq!(ledger.get(&bob).unwrap().balance, 0);
    assert_eq!(ledger.get(&bob).unwrap().last_activity, 0);
}

#[test]
fn edges_follow_limits() {
    let mut ledger = CreditLedger::new();
    let alice = did("alice");
    let bob = did("bob");
    ledger.get_or_create(&alice, 100, 0, 0);
    ledger.get_or_create(&bob, 0, 50, 0).record(-20, 1);
    assert_eq!(ledger.outbound_edges(), vec![(alice.clone(), 100), (bob.clone(), 20)]);
    assert_eq!(ledger.inbound_edges(), vec![(bob.clone(), 30)]);
    ledger.set_limits(&bob, 5, 25);
    assert_eq!(ledger.get(&bob).unwrap().debt_limit, 25);
    ledger.get_mut(&alice).unwrap().record(100, 2);
    assert_eq!(ledger.outbound_edges(), vec![(bob, 25)]);
    assert_eq!(ledger.len(), 2);
    assert!(!ledger.is_empty());
    assert_eq!(ledger.iter().len(), 2);
}

#[test]
fn a_payment_and_its_reversal_cancel_out() {
    let mut bc = BilateralCredit::new(did("alice"), 100, 100, 0);
    bc.record(42, 1);
    bc.record(-42, 2);
    assert_eq!(bc.balance, 0);
    assert_eq!(bc.total_volume, 84);
}
