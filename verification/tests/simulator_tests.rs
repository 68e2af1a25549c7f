use block_engine::bundle::Bundle;
use block_engine::bundle::BundleError;
use block_engine::bundle::Transaction;
use block_engine::simulator::MockSolanaRpcClient;
use block_engine::simulator::SolanaRpcClient;
use block_engine::simulator::TransactionSimulator;

#[test]
fn test_mock_rpc_client_success() {
    let mock_client = MockSolanaRpcClient::new();
    let transaction = Transaction::new("sig_success".to_string(), vec![1, 2, 3]);

    let result = mock_client.simulate_transaction(&transaction);
    assert!(result.success);
}

#[test]
fn test_mock_rpc_client_failure() {
    let mut mock_client = MockSolanaRpcClient::new();
    let transaction = Transaction::new("sig_failing".to_string(), vec![1, 2, 3]);

    mock_client.set_simulation_failure("sig_failing".to_string());

    let result = mock_client.simulate_transaction(&transaction);
    assert!(!result.success);
    assert!(result.error.is_some());
}

#[test]
fn test_validate_bundle_requires_all_success() {
    let mut mock_client = MockSolanaRpcClient::new();
    mock_client.set_simulation_failure("second".to_string());
    let simulator = TransactionSimulator::new(mock_client);

    let good = Bundle::new(
        vec![Transaction::new("first".to_string(), vec![1])],
        1000,
        "searcher".to_string(),
    );
    assert_eq!(simulator.validate_bundle(&good).unwrap(), true);

    let mixed = Bundle::new(
        vec![
            Transaction::new("first".to_string(), vec![1]),
            Transaction::new("second".to_string(), vec![2]),
        ],
        1000,
        "searcher".to_string(),
    );
    match simulator.validate_bundle(&mixed) {
        Err(BundleError::SimulationFailed(detail)) => {
            assert_eq!(detail, "Instruction failed");
        }
        _ => panic!("expected a simulation failure"),
    }
}

#[test]
fn test_validate_bundle_structural_errors() {
    let simulator = TransactionSimulator::new(MockSolanaRpcClient::new());

    let empty = Bundle::new(vec![], 1000, "searcher".to_string());
    assert!(matches!(simulator.validate_bundle(&empty), Err(BundleError::EmptyBundle)));

    let mut transactions = Vec::new();
    for i in 0..6 {
        transactions.push(Transaction::new(format!("sig_{}", i), vec![i as u8]));
    }
    let oversized = Bundle::new(transactions, 1000, "searcher".to_string());
    assert!(matches!(
        simulator.validate_bundle(&oversized),
        Err(BundleError::TooManyTransactions)
    ));
}

#[test]
fn test_simulate_bundle_reports_per_transaction() {
    let mut mock_client = MockSolanaRpcClient::new();
    mock_client.set_simulation_failure("bad".to_string());
    let simulator = TransactionSimulator::new(mock_client);

    let bundle = Bundle::new(
        vec![
            Transaction::new("ok".to_string(), vec![1]),
            Transaction::new("bad".to_string(), vec![2]),
        ],
        500,
        "searcher".to_string(),
    );
    let results = simulator.simulate_bundle(&bundle);
    assert_eq!(results.len(), 2);
    assert!(results[0].success);
    assert_eq!(results[0].compute_units_consumed, 5000);
    assert!(!results[1].success);
    assert_eq!(results[1].compute_units_consumed, 0);
}

#[test]
fn test_mock_accounts_round_trip() {
    let mut mock_client = MockSolanaRpcClient::new();
    let account = block_engine::simulator::MockAccount {
        pubkey: "alice".to_string(),
        lamports: 42,
        data: vec![1, 2],
    };
    mock_client.add_account(account);

    let found = mock_client.get_account(&"alice".to_string());
    assert_eq!(found.unwrap().lamports, 42);
    assert!(mock_client.get_account(&"bob".to_string()).is_none());

    let blockhash = mock_client.get_latest_blockhash();
    assert_eq!(blockhash.len(), 32);
}
