use vstd::prelude::*;

verus! {

/// One stored account: its identifier and the tokens it holds.
pub struct Account {
    pub id: String,
    pub balance: u64,
}

/// No two stored accounts share an identifier.
pub open spec fn ids_unique(s: Seq<Account>) -> bool {
    forall|i: int, j: int|
        0 <= i < s.len() && 0 <= j < s.len() && i != j ==> s[i].id@ != s[j].id@
}

/// The sum of the balances of the stored accounts.
pub open spec fn sum_balances(s: Seq<Account>) -> nat
    decreases s.len(),
{
    if s.len() == 0 {
        0
    } else {
        sum_balances(s.drop_last()) + s.last().balance as nat
    }
}

/// The balances the stored accounts record, keyed by identifier.
pub open spec fn balances_of(s: Seq<Account>) -> Map<Seq<char>, nat>
    decreases s.len(),
{
    if s.len() == 0 {
        Map::empty()
    } else {
        balances_of(s.drop_last()).insert(s.last().id@, s.last().balance as nat)
    }
}

/// An identifier has an entry exactly when some stored account carries it.
pub proof fn lemma_balances_domain(s: Seq<Account>, k: Seq<char>)
    ensures
        balances_of(s).contains_key(k) <==> exists|i: int| 0 <= i < s.len() && s[i].id@ == k,
    decreases s.len(),
{
    if s.len() > 0 {
        let t = s.drop_last();
        lemma_balances_domain(t, k);
        if balances_of(s).contains_key(k) && k != s.last().id@ {
            let i = choose|i: int| 0 <= i < t.len() && t[i].id@ == k;
            assert(s[i].id@ == k);
        }
        if exists|i: int| 0 <= i < s.len() && s[i].id@ == k {
            let i = choose|i: int| 0 <= i < s.len() && s[i].id@ == k;
            if i < s.len() - 1 {
                assert(t[i].id@ == k);
            }
        }
    }
}

/// With unique identifiers, the entry of a stored account is its balance.
pub proof fn lemma_balances_at(s: Seq<Account>, i: int)
    requires
        ids_unique(s),
        0 <= i < s.len(),
    ensures
        balances_of(s).contains_key(s[i].id@),
        balances_of(s)[s[i].id@] == s[i].balance,
    decreases s.len(),
{
    if i < s.len() - 1 {
        let t = s.drop_last();
        assert(ids_unique(t));
        lemma_balances_at(t, i);
        assert(t[i] == s[i]);
        assert(s.last() == s[s.len() - 1]);
    }
}

/// Appending an account records its balance under its identifier.
pub proof fn lemma_push(s: Seq<Account>, a: Account)
    ensures
        balances_of(s.push(a)) == balances_of(s).insert(a.id@, a.balance as nat),
        sum_balances(s.push(a)) == sum_balances(s) + a.balance,
{
    assert(s.push(a).drop_last() =~= s);
}

/// Replacing a stored account by one with the same identifier updates that
/// identifier's entry and shifts the sum by the change in balance.
pub proof fn lemma_update(s: Seq<Account>, i: int, a: Account)
    requires
        ids_unique(s),
        0 <= i < s.len(),
        a.id@ == s[i].id@,
    ensures
        ids_unique(s.update(i, a)),
        balances_of(s.update(i, a)) == balances_of(s).insert(a.id@, a.balance as nat),
        sum_balances(s.update(i, a)) + s[i].balance == sum_balances(s) + a.balance,
    decreases s.len(),
{
    let u = s.update(i, a);
    let t = s.drop_last();
    if i == s.len() - 1 {
        assert(u.drop_last() =~= t);
        assert(balances_of(u) =~= balances_of(s).insert(a.id@, a.balance as nat));
    } else {
        assert(u.drop_last() =~= t.update(i, a));
        assert(ids_unique(t));
        lemma_update(t, i, a);
        assert(s.last() == s[s.len() - 1]);
        assert(s.last().id@ != a.id@);
        assert(balances_of(u) =~= balances_of(s).insert(a.id@, a.balance as nat));
    }
}

/// Each stored balance is at most the sum of all of them.
pub proof fn lemma_balance_le_sum(s: Seq<Account>, i: int)
    requires
        0 <= i < s.len(),
    ensures
        s[i].balance <= sum_balances(s),
    decreases s.len(),
{
    if i < s.len() - 1 {
        lemma_balance_le_sum(s.drop_last(), i);
    }
}

/// The balances of a prefix of the stored accounts sum to at most the total.
pub proof fn lemma_prefix_sum_le(s: Seq<Account>, k: int)
    requires
        0 <= k <= s.len(),
    ensures
        sum_balances(s.take(k)) <= sum_balances(s),
    decreases s.len() - k,
{
    if k < s.len() {
        lemma_prefix_sum_le(s, k + 1);
        assert(s.take(k + 1).drop_last() =~= s.take(k));
    } else {
        assert(s.take(k) =~= s);
    }
}

} // verus!
