use wallet_backend::{Account, Ledger, TransferError};

fn s(x: &str) -> String {
    x.to_string()
}

fn alice_and_bob() -> Ledger {
    let mut l = Ledger::new();
    l.mint(s("alice"), 100);
    l.mint(s("bob"), 50);
    l
}

#[test]
fn new_ledger_is_empty() {
    let l = Ledger::new();
    assert_eq!(l.total_supply(), 0);
    assert_eq!(l.balance_of(&s("alice")), 0);
    assert!(l.accounts().is_empty());
}

#[test]
fn mint_two_accounts() {
    let l = alice_and_bob();
    assert_eq!(l.total_supply(), 150);
    assert_eq!(l.balance_of(&s("alice")), 100);
    assert_eq!(l.balance_of(&s("bob")), 50);
}

#[test]
fn mint_adds_to_existing_account() {
    let mut l = alice_and_bob();
    l.mint(s("alice"), 7);
    assert_eq!(l.balance_of(&s("alice")), 107);
    assert_eq!(l.balance_of(&s("bob")), 50);
    assert_eq!(l.total_supply(), 157);
    assert_eq!(l.accounts().len(), 2);
}

#[test]
fn mint_zero_opens_account() {
    let mut l = Ledger::new();
    l.mint(s("carol"), 0);
    assert_eq!(l.accounts().len(), 1);
    assert_eq!(l.transfer(s("carol"), s("bob"), 0), Ok(()));
}

#[test]
fn transfer_moves_tokens() {
    let mut l = alice_and_bob();
    assert_eq!(l.transfer(s("alice"), s("bob"), 30), Ok(()));
    assert_eq!(l.balance_of(&s("alice")), 70);
    assert_eq!(l.balance_of(&s("bob")), 80);
    assert_eq!(l.total_supply(), 150);
}

#[test]
fn transfer_insufficient_balance() {
    let mut l = alice_and_bob();
    l.transfer(s("alice"), s("bob"), 30).unwrap();
    assert_eq!(
        l.transfer(s("alice"), s("carol"), 1000),
        Err(TransferError::InsufficientBalance)
    );
    assert_eq!(l.balance_of(&s("alice")), 70);
    assert_eq!(l.balance_of(&s("bob")), 80);
    assert_eq!(l.balance_of(&s("carol")), 0);
    assert_eq!(l.total_supply(), 150);
    assert_eq!(l.accounts().len(), 2);
}

#[test]
fn transfer_unknown_sender() {
    let mut l = alice_and_bob();
    assert_eq!(
        l.transfer(s("dave"), s("bob"), 1),
        Err(TransferError::AccountNotFound)
    );
    assert_eq!(l.balance_of(&s("bob")), 50);
    assert_eq!(l.balance_of(&s("dave")), 0);
    assert_eq!(l.total_supply(), 150);
}

#[test]
fn transfer_unknown_sender_zero_amount() {
    let mut l = alice_and_bob();
    assert_eq!(
        l.transfer(s("dave"), s("bob"), 0),
        Err(TransferError::AccountNotFound)
    );
}

#[test]
fn transfer_opens_recipient() {
    let mut l = alice_and_bob();
    assert_eq!(l.transfer(s("bob"), s("erin"), 50), Ok(()));
    assert_eq!(l.balance_of(&s("bob")), 0);
    assert_eq!(l.balance_of(&s("erin")), 50);
    assert_eq!(l.accounts().len(), 3);
    // An emptied account stays stored and may still send nothing.
    assert_eq!(l.transfer(s("bob"), s("alice"), 0), Ok(()));
    assert_eq!(
        l.transfer(s("bob"), s("alice"), 1),
        Err(TransferError::InsufficientBalance)
    );
}

#[test]
fn transfer_whole_balance() {
    let mut l = alice_and_bob();
    assert_eq!(l.transfer(s("alice"), s("bob"), 100), Ok(()));
    assert_eq!(l.balance_of(&s("alice")), 0);
    assert_eq!(l.balance_of(&s("bob")), 150);
}

#[test]
fn self_transfer_keeps_balance() {
    let mut l = alice_and_bob();
    assert_eq!(l.transfer(s("alice"), s("alice"), 60), Ok(()));
    assert_eq!(l.balance_of(&s("alice")), 100);
    assert_eq!(l.total_supply(), 150);
    assert_eq!(
        l.transfer(s("alice"), s("alice"), 101),
        Err(TransferError::InsufficientBalance)
    );
}

#[test]
fn unknown_balance_is_zero() {
    let l = alice_and_bob();
    assert_eq!(l.balance_of(&s("zed")), 0);
    assert_eq!(l.balance_of(&s("")), 0);
}

#[test]
fn queries_repeat() {
    let l = alice_and_bob();
    assert_eq!(l.balance_of(&s("alice")), l.balance_of(&s("alice")));
    assert_eq!(l.total_supply(), l.total_supply());
    assert_eq!(l.balance_of(&s("alice")), 100);
}

#[test]
fn supply_up_to_the_largest_value() {
    let mut l = Ledger::new();
    l.mint(s("alice"), u64::MAX - 1);
    l.mint(s("bob"), 1);
    assert_eq!(l.total_supply(), u64::MAX);
    assert_eq!(l.transfer(s("bob"), s("alice"), 1), Ok(()));
    assert_eq!(l.balance_of(&s("alice")), u64::MAX);
}

#[test]
fn error_messages() {
    assert_eq!(TransferError::AccountNotFound.message(), "Sender account not found");
    assert_eq!(TransferError::InsufficientBalance.message(), "Insufficient balance");
}

fn acct(id: &str, balance: u64) -> Account {
    Account { id: s(id), balance }
}

#[test]
fn restore_round_trip() {
    let mut l = alice_and_bob();
    l.transfer(s("alice"), s("carol"), 5).unwrap();
    let stored: Vec<Account> = l
        .accounts()
        .iter()
        .map(|a| acct(&a.id, a.balance))
        .collect();
    let r = Ledger::from_accounts(stored, l.total_supply()).unwrap();
    assert_eq!(r.total_supply(), 150);
    assert_eq!(r.balance_of(&s("alice")), 95);
    assert_eq!(r.balance_of(&s("bob")), 50);
    assert_eq!(r.balance_of(&s("carol")), 5);
}

#[test]
fn restore_empty() {
    let r = Ledger::from_accounts(Vec::new(), 0).unwrap();
    assert_eq!(r.total_supply(), 0);
    assert!(Ledger::from_accounts(Vec::new(), 1).is_none());
}

#[test]
fn restore_rejects_duplicate_ids() {
    let v = vec![acct("a", 1), acct("b", 2), acct("a", 3)];
    assert!(Ledger::from_accounts(v, 6).is_none());
}

#[test]
fn restore_rejects_wrong_supply() {
    assert!(Ledger::from_accounts(vec![acct("a", 1), acct("b", 2)], 4).is_none());
    assert!(Ledger::from_accounts(vec![acct("a", 1), acct("b", 2)], 2).is_none());
}

#[test]
fn restore_rejects_overflowing_sum() {
    let v = vec![acct("a", u64::MAX), acct("b", 1)];
    assert!(Ledger::from_accounts(v, u64::MAX).is_none());
}
