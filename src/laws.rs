use vstd::prelude::*;

use crate::account::lemma_balance_le_sum;
use crate::account::lemma_balances_domain;
use crate::account::lemma_balances_at;
use crate::ledger::{mint_step, transfer_step, Ledger, TransferError};

verus! {

/// In a well-formed ledger no balance is negative, and none exceeds the
/// total supply.
pub proof fn lemma_balance_within_supply(l: Ledger, id: Seq<char>)
    requires
        l.wf(),
    ensures
        0 <= l.balance(id) <= l.supply(),
{
    lemma_balances_domain(l.records(), id);
    if l@.contains_key(id) {
        let i = choose|i: int| 0 <= i < l.records().len() && l.records()[i].id@ == id;
        lemma_balances_at(l.records(), i);
        lemma_balance_le_sum(l.records(), i);
    }
}

/// Minting `n` tokens into `id` raises its balance by exactly `n`, raises
/// the total supply by exactly `n`, and leaves every other balance alone.
pub proof fn lemma_mint_credits(pre: Ledger, post: Ledger, id: Seq<char>, n: nat)
    requires
        mint_step(pre, post, id, n),
    ensures
        post.balance(id) == pre.balance(id) + n,
        post.supply() == pre.supply() + n,
        forall|other: Seq<char>| other != id ==> post.balance(other) == pre.balance(other),
{
}

/// A transfer of `n` between two different accounts, out of a sender that
/// holds at least `n`, succeeds: the sender loses `n`, the recipient gains
/// `n`, the total supply is unchanged, and every other balance is kept.
pub proof fn lemma_transfer_moves(
    pre: Ledger,
    post: Ledger,
    from: Seq<char>,
    to: Seq<char>,
    n: nat,
    r: Result<(), TransferError>,
)
    requires
        transfer_step(pre, post, from, to, n, r),
        pre@.contains_key(from),
        pre.balance(from) >= n,
        from != to,
    ensures
        r is Ok,
        post.balance(from) == pre.balance(from) - n,
        post.balance(to) == pre.balance(to) + n,
        post.supply() == pre.supply(),
        forall|other: Seq<char>|
            other != from && other != to ==> post.balance(other) == pre.balance(other),
{
}

/// A transfer from an account to itself that succeeds changes no balance
/// and not the total supply.
pub proof fn lemma_self_transfer_keeps_balances(
    pre: Ledger,
    post: Ledger,
    id: Seq<char>,
    n: nat,
    r: Result<(), TransferError>,
)
    requires
        transfer_step(pre, post, id, id, n, r),
        r is Ok,
    ensures
        forall|other: Seq<char>| post.balance(other) == pre.balance(other),
        post.supply() == pre.supply(),
{
}

/// A transfer out of an identifier with no account fails with
/// `AccountNotFound` and changes no balance and not the total supply.
pub proof fn lemma_transfer_unknown_sender(
    pre: Ledger,
    post: Ledger,
    from: Seq<char>,
    to: Seq<char>,
    n: nat,
    r: Result<(), TransferError>,
)
    requires
        transfer_step(pre, post, from, to, n, r),
        !pre@.contains_key(from),
    ensures
        r == Err::<(), TransferError>(TransferError::AccountNotFound),
        post == pre,
        forall|other: Seq<char>| post.balance(other) == pre.balance(other),
        post.supply() == pre.supply(),
{
}

/// A transfer of more than the sender holds fails with
/// `InsufficientBalance` and changes no balance and not the total supply.
pub proof fn lemma_transfer_insufficient(
    pre: Ledger,
    post: Ledger,
    from: Seq<char>,
    to: Seq<char>,
    n: nat,
    r: Result<(), TransferError>,
)
    requires
        transfer_step(pre, post, from, to, n, r),
        pre@.contains_key(from),
        pre.balance(from) < n,
    ensures
        r == Err::<(), TransferError>(TransferError::InsufficientBalance),
        post == pre,
        forall|other: Seq<char>| post.balance(other) == pre.balance(other),
        post.supply() == pre.supply(),
{
}

/// An identifier with no account has a zero balance.
pub proof fn lemma_unknown_balance_zero(l: Ledger, id: Seq<char>)
    requires
        !l@.contains_key(id),
    ensures
        l.balance(id) == 0,
{
}

/// Queries read the ledger and nothing else: asking twice with no change in
/// between gives the same balance and the same supply.
pub proof fn lemma_queries_repeatable(
    l: Ledger,
    id: Seq<char>,
    first_balance: u64,
    second_balance: u64,
    first_supply: u64,
    second_supply: u64,
)
    requires
        first_balance == l.balance(id),
        second_balance == l.balance(id),
        first_supply == l.supply(),
        second_supply == l.supply(),
    ensures
        first_balance == second_balance,
        first_supply == second_supply,
{
}

} // verus!
