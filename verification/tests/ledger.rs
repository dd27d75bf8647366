use casino_escrow::ledger::{opening_balance, transfer};

#[test]
fn ledger_transfer_moves_the_amount() {
    let mut from = 100u64;
    let mut to = 5u64;
    assert!(transfer(&mut from, &mut to, 40));
    assert_eq!(from, 60);
    assert_eq!(to, 45);
}

#[test]
fn ledger_transfer_of_the_whole_balance() {
    let mut from = 100u64;
    let mut to = 0u64;
    assert!(transfer(&mut from, &mut to, 100));
    assert_eq!((from, to), (0, 100));
}

#[test]
fn ledger_transfer_refuses_a_short_balance() {
    let mut from = 39u64;
    let mut to = 5u64;
    assert!(!transfer(&mut from, &mut to, 40));
    assert_eq!((from, to), (39, 5));
}

#[test]
fn ledger_transfer_of_nothing_changes_nothing() {
    let mut from = 0u64;
    let mut to = 5u64;
    assert!(transfer(&mut from, &mut to, 0));
    assert_eq!((from, to), (0, 5));
}

#[test]
fn ledger_opening_balance_is_at_least_one() {
    assert_eq!(opening_balance(0), 1);
    assert_eq!(opening_balance(1), 1);
    assert_eq!(opening_balance(890_880), 890_880);
    assert_eq!(opening_balance(u64::MAX), u64::MAX);
}
