//! A minimal token ledger: accounts identified by strings, each holding a
//! balance, and a total supply that always equals the sum of the balances.

mod account;
mod laws;
mod ledger;

pub use account::{balances_of, ids_unique, sum_balances, Account};
pub use laws::{
    lemma_balance_within_supply, lemma_mint_credits, lemma_queries_repeatable,
    lemma_self_transfer_keeps_balances, lemma_transfer_insufficient, lemma_transfer_moves,
    lemma_transfer_unknown_sender, lemma_unknown_balance_zero,
};
pub use ledger::{
    balance_in, credited, mint_step, transfer_outcome, transfer_step, Ledger, TransferError,
};
