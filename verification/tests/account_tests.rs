use netlab::account::{locks_first_account_first, transfer, Account};

#[test]
fn transfer_moves_the_amount() {
    let mut a = Account::new(100, 1);
    let mut b = Account::new(100, 2);
    transfer(&mut a, &mut b, 100);
    assert_eq!(a.balance, 0);
    assert_eq!(b.balance, 200);
    transfer(&mut b, &mut a, 100);
    assert_eq!(a.balance + b.balance, 200);
    assert_eq!(a.id, 1);
    assert_eq!(b.id, 2);
}

#[test]
fn lock_order_is_by_id() {
    assert!(locks_first_account_first(1, 2));
    assert!(!locks_first_account_first(2, 1));
    assert!(!locks_first_account_first(3, 3));
}

#[test]
fn opposite_transfers_take_locks_in_the_same_order() {
    for (a, b) in [(1usize, 2usize), (7, 3), (5, 5)] {
        let first_ab = if locks_first_account_first(a, b) { a } else { b };
        let first_ba = if locks_first_account_first(b, a) { b } else { a };
        assert_eq!(first_ab, first_ba);
        assert_eq!(first_ab, a.min(b));
    }
}
