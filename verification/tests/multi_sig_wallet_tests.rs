use pi_stellar_nexus::stablecoin::multi_sig_wallet::MultiSigWallet;

fn two_owners() -> Vec<String> {
    vec!["owner1".to_string(), "owner2".to_string()]
}

#[test]
fn test_propose_transaction() {
    let mut wallet = MultiSigWallet::new(two_owners(), 2);

    wallet.propose_transaction("tx1".to_string(), "Transfer 100 Pi Coins".to_string()).unwrap();
    assert!(wallet.get_transaction_status("tx1").is_some());
}

#[test]
fn test_sign_transaction() {
    let mut wallet = MultiSigWallet::new(two_owners(), 2);

    wallet.propose_transaction("tx1".to_string(), "Transfer 100 Pi Coins".to_string()).unwrap();
    assert!(wallet.sign_transaction("tx1", "owner1".to_string()).is_ok());
    assert!(wallet.sign_transaction("tx1", "owner1".to_string()).is_err());
}

#[test]
fn test_execute_transaction() {
    let mut wallet = MultiSigWallet::new(two_owners(), 2);

    wallet.propose_transaction("tx1".to_string(), "Transfer 100 Pi Coins".to_string()).unwrap();
    wallet.sign_transaction("tx1", "owner1".to_string()).unwrap();
    assert!(wallet.execute_transaction("tx1").is_err());

    wallet.sign_transaction("tx1", "owner2".to_string()).unwrap();
    assert!(wallet.execute_transaction("tx1").is_ok());
}

#[test]
fn two_of_two_scenario() {
    let mut wallet = MultiSigWallet::new(vec!["A".to_string(), "B".to_string()], 2);
    wallet.propose_transaction("tx1".to_string(), "pay".to_string()).unwrap();

    wallet.sign_transaction("tx1", "A".to_string()).unwrap();
    assert_eq!(
        wallet.execute_transaction("tx1").unwrap_err(),
        "Not enough signatures to execute transaction."
    );

    assert_eq!(
        wallet.sign_transaction("tx1", "A".to_string()).unwrap_err(),
        "Transaction already signed by this owner"
    );
    assert_eq!(wallet.get_transaction_status("tx1").unwrap().signature_count(), 1);

    wallet.sign_transaction("tx1", "B".to_string()).unwrap();
    assert_eq!(wallet.execute_transaction("tx1"), Ok(true));
    // nothing marks a transaction as executed: asking again gives the same answer
    assert_eq!(wallet.execute_transaction("tx1"), Ok(true));
}

#[test]
fn a_duplicate_id_is_refused() {
    let mut wallet = MultiSigWallet::new(two_owners(), 1);
    wallet.propose_transaction("tx1".to_string(), "first".to_string()).unwrap();
    wallet.sign_transaction("tx1", "owner1".to_string()).unwrap();
    let result = wallet.propose_transaction("tx1".to_string(), "second".to_string());
    assert_eq!(result.unwrap_err(), "Transaction already exists");
    let transaction = wallet.get_transaction_status("tx1").unwrap();
    assert_eq!(transaction.description(), "first");
    assert_eq!(transaction.signature_count(), 1);
}

#[test]
fn a_stranger_cannot_sign() {
    let mut wallet = MultiSigWallet::new(two_owners(), 1);
    wallet.propose_transaction("tx1".to_string(), "pay".to_string()).unwrap();
    assert_eq!(
        wallet.sign_transaction("tx1", "mallory".to_string()).unwrap_err(),
        "Signer is not an owner"
    );
    // the stranger is turned away before the transaction is looked up
    assert_eq!(
        wallet.sign_transaction("nope", "mallory".to_string()).unwrap_err(),
        "Signer is not an owner"
    );
    assert_eq!(wallet.get_transaction_status("tx1").unwrap().signature_count(), 0);
    assert!(!wallet.get_transaction_status("tx1").unwrap().is_signed_by("mallory"));
}

#[test]
fn unknown_transactions_are_reported() {
    let mut wallet = MultiSigWallet::new(two_owners(), 1);
    assert_eq!(
        wallet.sign_transaction("nope", "owner1".to_string()).unwrap_err(),
        "Transaction not found"
    );
    assert_eq!(wallet.execute_transaction("nope").unwrap_err(), "Transaction not found");
    assert!(wallet.get_transaction_status("nope").is_none());
}

#[test]
fn the_threshold_lies_between_one_and_the_number_of_owners() {
    assert!(MultiSigWallet::try_new(two_owners(), 0).is_none());
    assert!(MultiSigWallet::try_new(two_owners(), 3).is_none());
    assert!(MultiSigWallet::try_new(Vec::new(), 1).is_none());
    assert!(MultiSigWallet::try_new(two_owners(), 1).is_some());
    assert!(MultiSigWallet::try_new(two_owners(), 2).is_some());
}

#[test]
fn an_owner_named_twice_counts_once() {
    let owners = vec!["A".to_string(), "A".to_string(), "B".to_string()];
    assert!(MultiSigWallet::try_new(owners.clone(), 3).is_none());
    let mut wallet = MultiSigWallet::new(owners, 2);
    assert_eq!(wallet.get_owners(), vec!["A".to_string(), "B".to_string()]);
    assert_eq!(wallet.get_required_signatures(), 2);
    wallet.propose_transaction("tx1".to_string(), "pay".to_string()).unwrap();
    wallet.sign_transaction("tx1", "A".to_string()).unwrap();
    assert!(wallet.sign_transaction("tx1", "A".to_string()).is_err());
    assert!(wallet.execute_transaction("tx1").is_err());
    wallet.sign_transaction("tx1", "B".to_string()).unwrap();
    assert!(wallet.execute_transaction("tx1").is_ok());
    let transaction = wallet.get_transaction_status("tx1").unwrap();
    assert_eq!(transaction.get_signers(), vec!["A".to_string(), "B".to_string()]);
    assert_eq!(wallet.get_transaction_ids(), vec!["tx1".to_string()]);
}

#[test]
fn signatures_are_kept_per_transaction() {
    let mut wallet = MultiSigWallet::new(two_owners(), 1);
    wallet.propose_transaction("tx1".to_string(), "one".to_string()).unwrap();
    wallet.propose_transaction("tx2".to_string(), "two".to_string()).unwrap();
    wallet.sign_transaction("tx2", "owner2".to_string()).unwrap();
    assert!(wallet.execute_transaction("tx1").is_err());
    assert!(wallet.execute_transaction("tx2").is_ok());
    assert!(wallet.get_transaction_status("tx2").unwrap().is_signed_by("owner2"));
    assert!(!wallet.get_transaction_status("tx2").unwrap().is_signed_by("owner1"));
    assert_eq!(wallet.get_transaction_status("tx2").unwrap().description(), "two");
}
