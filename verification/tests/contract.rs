use airdrop_contract::account::AccountId;
use airdrop_contract::contract::Contract;
use airdrop_contract::contract::TRANSFER_GAS;

fn acct(s: &str) -> AccountId {
    AccountId::new(s.to_string()).expect("identifier should be valid")
}

fn accts(names: &[&str]) -> Vec<AccountId> {
    names.iter().map(|s| acct(s)).collect()
}

fn wallet_names(c: &Contract) -> Vec<String> {
    c.get_whitelisted_wallets().iter().map(|a| a.to_text()).collect()
}

#[test]
fn account_id_accepts_valid_identifiers() {
    for name in ["alice", "a1", "sub.account_0-x", "ab"] {
        let a = AccountId::new(name.to_string());
        assert!(a.is_some());
        assert_eq!(a.unwrap().as_str(), name);
    }
}

#[test]
fn account_id_rejects_malformed_identifiers() {
    assert!(AccountId::new("".to_string()).is_none());
    assert!(AccountId::new("a".to_string()).is_none());
    assert!(AccountId::new("Alice".to_string()).is_none());
    assert!(AccountId::new("has space".to_string()).is_none());
    assert!(AccountId::new("a".repeat(65)).is_none());
    assert!(AccountId::new("a".repeat(64)).is_some());
}

#[test]
fn store_wallets_is_idempotent() {
    let mut c = Contract::new(acct("token"));
    c.store_wallets(accts(&["alice", "bob"]));
    c.store_wallets(accts(&["alice", "charlie"]));
    assert_eq!(wallet_names(&c), vec!["alice", "bob", "charlie"]);
}

#[test]
fn store_wallets_dedups_within_one_batch() {
    let mut c = Contract::new(acct("token"));
    c.store_wallets(accts(&["alice", "alice", "bob", "alice"]));
    assert_eq!(wallet_names(&c), vec!["alice", "bob"]);
}

#[test]
fn store_wallets_same_batch_twice_changes_nothing() {
    let mut c = Contract::new(acct("token"));
    c.store_wallets(accts(&["alice", "bob"]));
    c.store_wallets(accts(&["alice", "bob"]));
    assert_eq!(wallet_names(&c), vec!["alice", "bob"]);
}

#[test]
fn store_wallets_empty_input_changes_nothing() {
    let mut c = Contract::new(acct("token"));
    c.store_wallets(accts(&["alice", "bob"]));
    c.store_wallets(Vec::new());
    assert_eq!(wallet_names(&c), vec!["alice", "bob"]);
}

#[test]
fn round_trip_returns_first_seen_order() {
    let mut c = Contract::new(acct("token"));
    c.store_wallets(accts(&["bob", "alice"]));
    c.store_wallets(accts(&["alice", "charlie", "bob"]));
    c.store_wallets(accts(&["dave"]));
    assert_eq!(wallet_names(&c), vec!["bob", "alice", "charlie", "dave"]);
}

#[test]
fn distribute_plans_one_call_per_wallet() {
    let mut c = Contract::new(acct("token"));
    c.store_wallets(accts(&["alice", "bob"]));
    let calls = c.distribute_tokens(7);
    assert_eq!(calls.len(), 2);
    for call in &calls {
        assert_eq!(call.target.as_str(), "token");
        assert_eq!(call.method_name, "ft_transfer");
        assert_eq!(call.amount, 7);
        assert_eq!(call.deposit, 0);
        assert_eq!(call.gas, TRANSFER_GAS);
        assert_eq!(call.gas, 1000000);
    }
    assert_eq!(calls[0].receiver.as_str(), "alice");
    assert_eq!(calls[1].receiver.as_str(), "bob");
    assert_eq!(calls[0].args, "{\"receiver_id\":\"alice\",\"amount\":7}");
    assert_eq!(calls[1].args, "{\"receiver_id\":\"bob\",\"amount\":7}");
}

#[test]
fn distribute_on_empty_whitelist_plans_nothing() {
    let c = Contract::new(acct("token"));
    let calls = c.distribute_tokens(1000);
    assert_eq!(calls.len(), 0);
}

#[test]
fn distribute_encodes_large_amounts() {
    let mut c = Contract::new(acct("token"));
    c.store_wallets(accts(&["alice"]));
    let calls = c.distribute_tokens(u64::MAX as u128);
    assert_eq!(
        calls[0].args,
        "{\"receiver_id\":\"alice\",\"amount\":18446744073709551615}"
    );
}

#[test]
fn end_to_end_distribution() {
    let mut c = Contract::new(acct("token"));
    c.store_wallets(accts(&["alice", "bob"]));
    c.store_wallets(accts(&["bob", "charlie"]));
    let calls = c.distribute_tokens(10);
    assert_eq!(wallet_names(&c), vec!["alice", "bob", "charlie"]);
    assert_eq!(calls.len(), 3);
    let receivers: Vec<&str> = calls.iter().map(|p| p.receiver.as_str()).collect();
    assert_eq!(receivers, vec!["alice", "bob", "charlie"]);
    for call in &calls {
        assert_eq!(call.target.as_str(), "token");
        assert_eq!(call.method_name, "ft_transfer");
        assert_eq!(call.amount, 10);
        assert_eq!(call.deposit, 0);
    }
    assert_eq!(calls[2].args, "{\"receiver_id\":\"charlie\",\"amount\":10}");
}

#[test]
fn snapshot_is_a_copy() {
    let mut c = Contract::new(acct("token"));
    c.store_wallets(accts(&["alice"]));
    let mut snapshot = c.get_whitelisted_wallets();
    snapshot.push(acct("bob"));
    assert_eq!(wallet_names(&c), vec!["alice"]);
}
