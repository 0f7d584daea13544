use tx_inspector::wallet::{after_load, first_step, wallet_endpoint, WalletStep};

fn names(list: &[&str]) -> Vec<String> {
    list.iter().map(|s| s.to_string()).collect()
}

#[test]
fn listed_wallet_is_ready() {
    let listed = names(&["Miner", "Trader"]);
    assert_eq!(first_step(&listed, &"Miner".to_string()), WalletStep::Ready);
    assert_eq!(first_step(&listed, &"Trader".to_string()), WalletStep::Ready);
}

#[test]
fn unlisted_wallet_is_loaded_first() {
    let listed = names(&["Miner"]);
    assert_eq!(first_step(&listed, &"Trader".to_string()), WalletStep::Load);
    assert_eq!(first_step(&Vec::new(), &"Miner".to_string()), WalletStep::Load);
    assert_eq!(first_step(&listed, &"miner".to_string()), WalletStep::Load);
}

#[test]
fn wallet_is_created_only_where_loading_failed() {
    assert_eq!(after_load(true), WalletStep::Ready);
    assert_eq!(after_load(false), WalletStep::Create);
}

#[test]
fn second_run_makes_no_call() {
    // First run: nothing listed, loading fails, the wallet is created.
    let mut listed: Vec<String> = Vec::new();
    let name = "Miner".to_string();
    assert_eq!(first_step(&listed, &name), WalletStep::Load);
    assert_eq!(after_load(false), WalletStep::Create);
    listed.push(name.clone());
    // Second run: the node lists the wallet.
    assert_eq!(first_step(&listed, &name), WalletStep::Ready);
}


#[test]
fn endpoint_of_a_wallet() {
    assert_eq!(
        wallet_endpoint("http://127.0.0.1:18443", "Miner"),
        "http://127.0.0.1:18443/wallet/Miner"
    );
    assert_eq!(wallet_endpoint("", ""), "/wallet/");
}
