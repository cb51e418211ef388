//! Bank accounts moved between two threads: the transfer, and the order in
//! which the two account locks are taken so that two opposite transfers
//! cannot deadlock.
use vstd::prelude::*;

verus! {

#[derive(Debug)]
pub struct Account {
    pub balance: i32,
    pub id: usize,
}

impl Account {
    pub fn new(balance: i32, id: usize) -> (r: Self)
        ensures
            r.balance == balance,
            r.id == id,
    {
        Self { balance, id }
    }
}

/// Moves `amount` from one account to the other.
pub fn transfer(from: &mut Account, to: &mut Account, amount: i32)
    requires
        i32::MIN <= old(from).balance - amount <= i32::MAX,
        i32::MIN <= old(to).balance + amount <= i32::MAX,
    ensures
        final(from).balance == old(from).balance - amount,
        final(to).balance == old(to).balance + amount,
        final(from).balance + final(to).balance == old(from).balance + old(to).balance,
        final(from).id == old(from).id,
        final(to).id == old(to).id,
{
    from.balance -= amount;
    to.balance += amount;
}

/// Whether the lock of the first account is taken before that of the
/// second: the account with the smaller id is always locked first.
pub fn locks_first_account_first(first_id: usize, second_id: usize) -> (r: bool)
    ensures
        r == (first_id < second_id),
{
    first_id < second_id
}

/// The id of the account whose lock is taken first.
pub open spec fn first_locked_id(first_id: usize, second_id: usize) -> usize {
    if first_id < second_id {
        first_id
    } else {
        second_id
    }
}

/// Two transfers between the same accounts in opposite directions take the
/// locks in the same order, so neither can hold one lock while waiting for
/// the other's.
pub proof fn lemma_lock_order_symmetric(a: usize, b: usize)
    ensures
        first_locked_id(a, b) == first_locked_id(b, a),
        a != b ==> first_locked_id(a, b) < if first_locked_id(a, b) == a {
            b
        } else {
            a
        },
{
}

} // verus!
