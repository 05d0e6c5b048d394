use vstd::prelude::*;

use crate::account::{
    balances_of, ids_unique, lemma_balance_le_sum, lemma_balances_at, lemma_balances_domain,
    lemma_prefix_sum_le, lemma_push, lemma_update, sum_balances, Account,
};

verus! {

/// Why a transfer was refused. A refused transfer changes nothing.
#[derive(Debug, Clone, Copy, PartialEq, Eq, Structural)]
pub enum TransferError {
    /// The sender has no stored account.
    AccountNotFound,
    /// The sender holds fewer tokens than the amount.
    InsufficientBalance,
}

impl TransferError {
    /// The text a caller of the ledger's interface receives for this error.
    pub fn message(&self) -> (r: &'static str)
        ensures
            *self == TransferError::AccountNotFound ==> r@ == "Sender account not found"@,
            *self == TransferError::InsufficientBalance ==> r@ == "Insufficient balance"@,
    {
        match self {
            TransferError::AccountNotFound => "Sender account not found",
            TransferError::InsufficientBalance => "Insufficient balance",
        }
    }
}

/// The balance of `id` in `m`; an identifier without an entry holds nothing.
pub open spec fn balance_in(m: Map<Seq<char>, nat>, id: Seq<char>) -> nat {
    if m.contains_key(id) {
        m[id]
    } else {
        0
    }
}

/// `m` with `amount` added to the balance of `id`, creating its entry if needed.
pub open spec fn credited(m: Map<Seq<char>, nat>, id: Seq<char>, amount: nat) -> Map<
    Seq<char>,
    nat,
> {
    m.insert(id, balance_in(m, id) + amount)
}

/// The accounts and their balances, and the total supply of tokens.
pub struct Ledger {
    accounts: Vec<Account>,
    total_supply: u64,
}

impl View for Ledger {
    type V = Map<Seq<char>, nat>;

    /// The balance of each stored account, keyed by identifier.
    open spec fn view(&self) -> Map<Seq<char>, nat> {
        balances_of(self.records())
    }
}

/// `post` is `pre` after `amount` tokens were minted into `id`.
pub open spec fn mint_step(pre: Ledger, post: Ledger, id: Seq<char>, amount: nat) -> bool {
    &&& post@ == credited(pre@, id, amount)
    &&& post.supply() == pre.supply() + amount
}

/// What a transfer of `amount` out of `from` returns on `pre`.
pub open spec fn transfer_outcome(pre: Ledger, from: Seq<char>, amount: nat) -> Result<
    (),
    TransferError,
> {
    if !pre@.contains_key(from) {
        Err(TransferError::AccountNotFound)
    } else if pre@[from] < amount {
        Err(TransferError::InsufficientBalance)
    } else {
        Ok(())
    }
}

/// `post` is `pre` after a transfer of `amount` from `from` to `to` that
/// returned `r`: on success the sender is debited and then the recipient
/// credited; on failure nothing changes.
pub open spec fn transfer_step(
    pre: Ledger,
    post: Ledger,
    from: Seq<char>,
    to: Seq<char>,
    amount: nat,
    r: Result<(), TransferError>,
) -> bool {
    &&& r == transfer_outcome(pre, from, amount)
    &&& match r {
        Ok(()) => {
            &&& post@ == credited(pre@.insert(from, (pre@[from] - amount) as nat), to, amount)
            &&& post.supply() == pre.supply()
        },
        Err(_) => post == pre,
    }
}

impl Ledger {
    /// The stored accounts, in the order they were opened.
    pub closed spec fn records(&self) -> Seq<Account> {
        self.accounts@
    }

    /// The total supply of tokens.
    pub closed spec fn supply(&self) -> nat {
        self.total_supply as nat
    }

    /// Identifiers are unique and the supply is the sum of all balances.
    pub open spec fn wf(&self) -> bool {
        &&& ids_unique(self.records())
        &&& self.supply() == sum_balances(self.records())
    }

    /// The balance of `id`, zero where it has no account.
    pub open spec fn balance(&self, id: Seq<char>) -> nat {
        balance_in(self@, id)
    }

    /// An empty ledger: no accounts and no supply.
    pub fn new() -> (r: Ledger)
        ensures
            r.wf(),
            r@ == Map::<Seq<char>, nat>::empty(),
            r.supply() == 0,
    {
        let r = Ledger { accounts: Vec::new(), total_supply: 0 };
        assert(r@ =~= Map::<Seq<char>, nat>::empty());
        r
    }

    /// The position of the account named `id`, if it has one.
    fn find(&self, id: &String) -> (r: Option<usize>)
        requires
            self.wf(),
        ensures
            match r {
                Some(i) => {
                    &&& i < self.records().len()
                    &&& self.records()[i as int].id@ == id@
                    &&& self@.contains_key(id@)
                    &&& self@[id@] == self.records()[i as int].balance
                },
                None => !self@.contains_key(id@),
            },
    {
        let mut i: usize = 0;
        while i < self.accounts.len()
            invariant
                self.wf(),
                i <= self.accounts.len(),
                forall|j: int| 0 <= j < i ==> self.accounts@[j].id@ != id@,
            decreases self.accounts.len() - i,
        {
            if self.accounts[i].id == *id {
                proof {
                    lemma_balances_at(self.records(), i as int);
                }
                return Some(i);
            }
            i = i + 1;
        }
        proof {
            lemma_balances_domain(self.records(), id@);
        }
        None
    }

    /// The position of the account named `id`, opening it with a zero
    /// balance where it has none. Stored accounts keep their positions.
    fn get_or_create(&mut self, id: String) -> (i: usize)
        requires
            old(self).wf(),
        ensures
            final(self).wf(),
            final(self)@ == credited(old(self)@, id@, 0),
            final(self).supply() == old(self).supply(),
            i < final(self).records().len(),
            final(self).records()[i as int].id@ == id@,
            old(self).records().len() <= final(self).records().len(),
            forall|j: int|
                0 <= j < old(self).records().len() ==> final(self).records()[j] == old(
                    self,
                ).records()[j],
    {
        match self.find(&id) {
            Some(i) => {
                assert(self@ =~= credited(self@, id@, 0));
                i
            },
            None => {
                let ghost pre = self.records();
                let a = Account { id, balance: 0 };
                proof {
                    lemma_balances_domain(pre, a.id@);
                    lemma_push(pre, a);
                }
                self.accounts.push(a);
                assert(self.records() == pre.push(a));
                self.accounts.len() - 1
            },
        }
    }

    /// Adds `amount` tokens to the account named `account_id`, opening it
    /// where it has none, and to the total supply.
    pub fn mint(&mut self, account_id: String, amount: u64)
        requires
            old(self).wf(),
            old(self).supply() + amount <= u64::MAX,
        ensures
            final(self).wf(),
            mint_step(*old(self), *final(self), account_id@, amount as nat),
    {
        let ghost id = account_id@;
        let i = self.get_or_create(account_id);
        let ghost mid = self.records();
        proof {
            lemma_balance_le_sum(mid, i as int);
            lemma_balances_at(mid, i as int);
        }
        let a = Account {
            id: self.accounts[i].id.clone(),
            balance: self.accounts[i].balance + amount,
        };
        proof {
            lemma_update(mid, i as int, a);
        }
        self.accounts.set(i, a);
        self.total_supply = self.total_supply + amount;
        assert(self@ =~= credited(old(self)@, id, amount as nat));
    }

    /// Moves `amount` tokens from the account named `from` to the one named
    /// `to`, opening the latter where it has none. The sender must have an
    /// account holding at least `amount`; otherwise nothing changes.
    pub fn transfer(&mut self, from: String, to: String, amount: u64) -> (r: Result<
        (),
        TransferError,
    >)
        requires
            old(self).wf(),
        ensures
            final(self).wf(),
            transfer_step(*old(self), *final(self), from@, to@, amount as nat, r),
    {
        let ghost pre = *self;
        let fi = match self.find(&from) {
            Some(fi) => fi,
            None => {
                return Err(TransferError::AccountNotFound);
            },
        };
        if self.accounts[fi].balance < amount {
            return Err(TransferError::InsufficientBalance);
        }
        let ghost to_id = to@;
        let ti = self.get_or_create(to);
        let ghost opened = self.records();
        let debited = Account {
            id: self.accounts[fi].id.clone(),
            balance: self.accounts[fi].balance - amount,
        };
        proof {
            lemma_update(opened, fi as int, debited);
        }
        self.accounts.set(fi, debited);
        let ghost mid = self.records();
        proof {
            lemma_balance_le_sum(mid, ti as int);
            lemma_balances_at(mid, ti as int);
        }
        let credited_to = Account {
            id: self.accounts[ti].id.clone(),
            balance: self.accounts[ti].balance + amount,
        };
        proof {
            lemma_update(mid, ti as int, credited_to);
        }
        self.accounts.set(ti, credited_to);
        assert(self@ =~= credited(
            pre@.insert(from@, (pre@[from@] - amount) as nat),
            to_id,
            amount as nat,
        ));
        Ok(())
    }

    /// The balance of the account named `account_id`; zero where it has none.
    pub fn balance_of(&self, account_id: &String) -> (r: u64)
        requires
            self.wf(),
        ensures
            r == self.balance(account_id@),
    {
        match self.find(account_id) {
            Some(i) => self.accounts[i].balance,
            None => 0,
        }
    }

    /// The total supply of tokens.
    pub fn total_supply(&self) -> (r: u64)
        ensures
            r == self.supply(),
    {
        self.total_supply
    }

    /// The stored accounts, for writing the ledger out.
    pub fn accounts(&self) -> (r: &Vec<Account>)
        ensures
            r@ == self.records(),
    {
        &self.accounts
    }

    /// Rebuilds a ledger from stored accounts and a stored supply. Succeeds
    /// exactly when the identifiers are unique and the supply is the sum of
    /// the balances.
    pub fn from_accounts(accounts: Vec<Account>, total_supply: u64) -> (r: Option<Ledger>)
        ensures
            r is Some <==> ids_unique(accounts@) && total_supply == sum_balances(accounts@),
            r matches Some(l) ==> l.records() == accounts@ && l.supply() == total_supply,
    {
        let n = accounts.len();
        let mut j: usize = 0;
        while j < n
            invariant
                n == accounts.len(),
                j <= n,
                ids_unique(accounts@.take(j as int)),
            decreases n - j,
        {
            let mut k: usize = 0;
            while k < j
                invariant
                    n == accounts.len(),
                    k <= j < n,
                    forall|m: int| 0 <= m < k ==> accounts@[m].id@ != accounts@[j as int].id@,
                decreases j - k,
            {
                if accounts[k].id == accounts[j].id {
                    assert(!ids_unique(accounts@));
                    return None;
                }
                k = k + 1;
            }
            assert(ids_unique(accounts@.take(j + 1)));
            j = j + 1;
        }
        assert(accounts@.take(n as int) =~= accounts@);
        let mut sum: u64 = 0;
        let mut i: usize = 0;
        while i < n
            invariant
                n == accounts.len(),
                i <= n,
                sum == sum_balances(accounts@.take(i as int)),
                sum <= total_supply,
            decreases n - i,
        {
            let b = accounts[i].balance;
            assert(accounts@.take(i + 1).drop_last() =~= accounts@.take(i as int));
            if b > total_supply - sum {
                proof {
                    lemma_prefix_sum_le(accounts@, i + 1);
                }
                return None;
            }
            sum = sum + b;
            i = i + 1;
        }
        if sum != total_supply {
            return None;
        }
        Some(Ledger { accounts, total_supply })
    }
}

} // verus!
