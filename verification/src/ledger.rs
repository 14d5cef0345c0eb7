//! A minimal ledger: the balances the engine debits stakes from and pays
//! settlements into.  Identities are opaque, equality-comparable tokens;
//! one account per identity.

use vstd::prelude::*;

verus! {

/// One identity's balance.
#[derive(Clone, Copy, Debug, PartialEq, Eq, Structural)]
pub struct Account {
    pub owner: u64,
    pub balance: u64,
}

/// No two accounts share an owner.
pub open spec fn unique_owners(s: Seq<Account>) -> bool {
    forall|i: int, j: int| 0 <= i < j < s.len() ==> s[i].owner != s[j].owner
}

/// The balance held for `owner`: the balance of its account, or zero when
/// no account exists.
pub open spec fn balance_of(s: Seq<Account>, owner: u64) -> u64
    decreases s.len(),
{
    if s.len() == 0 {
        0
    } else if s.last().owner == owner {
        s.last().balance
    } else {
        balance_of(s.drop_last(), owner)
    }
}

/// The total value the ledger holds: the sum of all balances.
pub open spec fn sum_balances(s: Seq<Account>) -> int
    decreases s.len(),
{
    if s.len() == 0 {
        0
    } else {
        sum_balances(s.drop_last()) + s.last().balance
    }
}

/// Replacing the account at index `i` moves the total by the difference
/// of the two balances.
pub proof fn lemma_sum_balances_update(s: Seq<Account>, i: int, a: Account)
    requires
        0 <= i < s.len(),
    ensures
        sum_balances(s.update(i, a)) == sum_balances(s) - s[i].balance + a.balance,
    decreases s.len(),
{
    let s2 = s.update(i, a);
    if i == s.len() - 1 {
        assert(s2.drop_last() =~= s.drop_last());
    } else {
        assert(s2.last() == s.last());
        assert(s2.drop_last() =~= s.drop_last().update(i, a));
        lemma_sum_balances_update(s.drop_last(), i, a);
    }
}

/// Appending an account adds its balance to the total.
pub proof fn lemma_sum_balances_push(s: Seq<Account>, a: Account)
    ensures
        sum_balances(s.push(a)) == sum_balances(s) + a.balance,
{
    assert(s.push(a).drop_last() =~= s);
}

/// With owners unique, the account at index `i` carries exactly the
/// balance `balance_of` reports for its owner.
pub proof fn lemma_balance_at_index(s: Seq<Account>, i: int)
    requires
        unique_owners(s),
        0 <= i < s.len(),
    ensures
        balance_of(s, s[i].owner) == s[i].balance,
    decreases s.len(),
{
    if i == s.len() - 1 {
    } else {
        assert(s.last().owner != s[i].owner);
        assert(s.drop_last()[i] == s[i]);
        lemma_balance_at_index(s.drop_last(), i);
    }
}

/// An owner with no account holds balance zero.
pub proof fn lemma_balance_absent(s: Seq<Account>, owner: u64)
    requires
        forall|i: int| 0 <= i < s.len() ==> s[i].owner != owner,
    ensures
        balance_of(s, owner) == 0,
    decreases s.len(),
{
    if s.len() > 0 {
        lemma_balance_absent(s.drop_last(), owner);
    }
}

/// Replacing the account at index `i` by one with the same owner changes
/// that owner's balance and nobody else's.
pub proof fn lemma_balance_update(s: Seq<Account>, i: int, a: Account, owner: u64)
    requires
        unique_owners(s),
        0 <= i < s.len(),
        a.owner == s[i].owner,
    ensures
        balance_of(s.update(i, a), owner) == if owner == a.owner {
            a.balance
        } else {
            balance_of(s, owner)
        },
    decreases s.len(),
{
    let s2 = s.update(i, a);
    if i == s.len() - 1 {
        assert(s2.drop_last() =~= s.drop_last());
        if owner != a.owner {
            assert(balance_of(s2, owner) == balance_of(s2.drop_last(), owner));
        } else {
            if s.len() > 1 {
                lemma_balance_absent_prefix(s, owner);
            }
        }
    } else {
        assert(s2.last() == s.last());
        assert(s2.drop_last() =~= s.drop_last().update(i, a));
        lemma_balance_update(s.drop_last(), i, a, owner);
    }
}

/// With owners unique, the owner of the last account appears nowhere in
/// the prefix, so the prefix holds balance zero for it.
proof fn lemma_balance_absent_prefix(s: Seq<Account>, owner: u64)
    requires
        unique_owners(s),
        s.len() > 0,
        s.last().owner == owner,
    ensures
        balance_of(s.drop_last(), owner) == 0,
{
    assert forall|i: int| 0 <= i < s.drop_last().len() implies s.drop_last()[i].owner
        != owner by {
        assert(s[i] == s.drop_last()[i]);
    }
    lemma_balance_absent(s.drop_last(), owner);
}

/// Appending an account for a fresh owner gives that owner its balance and
/// changes nobody else's.
pub proof fn lemma_balance_push(s: Seq<Account>, a: Account, owner: u64)
    ensures
        balance_of(s.push(a), owner) == if owner == a.owner {
            a.balance
        } else {
            balance_of(s, owner)
        },
{
    assert(s.push(a).drop_last() =~= s);
}

/// The index of `owner`'s account, if one exists.
pub fn find_account(accounts: &Vec<Account>, owner: u64) -> (r: Option<usize>)
    ensures
        match r {
            Some(i) => i < accounts@.len() && accounts@[i as int].owner == owner,
            None => forall|i: int| 0 <= i < accounts@.len() ==> accounts@[i].owner != owner,
        },
{
    let mut i: usize = 0;
    while i < accounts.len()
        invariant
            i <= accounts@.len(),
            forall|j: int| 0 <= j < i ==> accounts@[j].owner != owner,
        decreases accounts@.len() - i,
    {
        if accounts[i].owner == owner {
            return Some(i);
        }
        i += 1;
    }
    None
}

/// Add `amount` to `owner`'s balance, opening the account if none exists.
pub fn credit(accounts: &mut Vec<Account>, owner: u64, amount: u64)
    requires
        unique_owners(old(accounts)@),
        balance_of(old(accounts)@, owner) + amount <= u64::MAX,
    ensures
        unique_owners(final(accounts)@),
        balance_of(final(accounts)@, owner) == balance_of(old(accounts)@, owner) + amount,
        forall|o: u64|
            o != owner ==> balance_of(final(accounts)@, o) == balance_of(old(accounts)@, o),
        sum_balances(final(accounts)@) == sum_balances(old(accounts)@) + amount,
{
    match find_account(accounts, owner) {
        Some(i) => {
            proof {
                lemma_balance_at_index(accounts@, i as int);
            }
            let b = accounts[i].balance;
            accounts[i] = Account { owner, balance: b + amount };
            proof {
                lemma_sum_balances_update(
                    old(accounts)@,
                    i as int,
                    Account { owner, balance: (b + amount) as u64 },
                );
                assert forall|o: u64| true implies balance_of(accounts@, o) == (if o == owner {
                    balance_of(old(accounts)@, owner) + amount
                } else {
                    balance_of(old(accounts)@, o) as int
                }) by {
                    lemma_balance_update(
                        old(accounts)@,
                        i as int,
                        Account { owner, balance: (b + amount) as u64 },
                        o,
                    );
                }
            }
        },
        None => {
            proof {
                lemma_balance_absent(accounts@, owner);
            }
            accounts.push(Account { owner, balance: amount });
            proof {
                lemma_sum_balances_push(old(accounts)@, Account { owner, balance: amount });
                assert forall|o: u64| true implies balance_of(accounts@, o) == (if o == owner {
                    balance_of(old(accounts)@, owner) + amount
                } else {
                    balance_of(old(accounts)@, o) as int
                }) by {
                    lemma_balance_push(old(accounts)@, Account { owner, balance: amount }, o);
                }
            }
        },
    }
}

/// Remove `amount` from `owner`'s balance.  The caller must have
/// established that the balance covers it.
pub fn debit(accounts: &mut Vec<Account>, owner: u64, amount: u64)
    requires
        unique_owners(old(accounts)@),
        balance_of(old(accounts)@, owner) >= amount,
    ensures
        unique_owners(final(accounts)@),
        balance_of(final(accounts)@, owner) == balance_of(old(accounts)@, owner) - amount,
        forall|o: u64|
            o != owner ==> balance_of(final(accounts)@, o) == balance_of(old(accounts)@, o),
        sum_balances(final(accounts)@) == sum_balances(old(accounts)@) - amount,
{
    match find_account(accounts, owner) {
        Some(i) => {
            proof {
                lemma_balance_at_index(accounts@, i as int);
            }
            let b = accounts[i].balance;
            accounts[i] = Account { owner, balance: b - amount };
            proof {
                lemma_sum_balances_update(
                    old(accounts)@,
                    i as int,
                    Account { owner, balance: (b - amount) as u64 },
                );
            }
            proof {
                assert forall|o: u64| true implies balance_of(accounts@, o) == (if o == owner {
                    balance_of(old(accounts)@, owner) - amount
                } else {
                    balance_of(old(accounts)@, o) as int
                }) by {
                    lemma_balance_update(
                        old(accounts)@,
                        i as int,
                        Account { owner, balance: (b - amount) as u64 },
                        o,
                    );
                }
            }
        },
        None => {
            proof {
                lemma_balance_absent(accounts@, owner);
            }
        },
    }
}

} // verus!
