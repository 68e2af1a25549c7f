use block_engine::auction::BundleAuction;
use block_engine::block_assembler::BlockAssembler;
use block_engine::block_assembler::MockValidatorClient;
use block_engine::bundle::Bundle;
use block_engine::bundle::Transaction;
use block_engine::simulator::MockSolanaRpcClient;
use block_engine::simulator::TransactionSimulator;
use block_engine::transaction_pool::TransactionPool;

fn create_test_bundle(tip: u64, tx_count: usize) -> Bundle {
    let mut transactions = Vec::new();
    for i in 0..tx_count {
        let transaction = Transaction::new(format!("sig_{}_{}", tip, i), vec![i as u8, 7]);
        transactions.push(transaction);
    }
    Bundle::new(transactions, tip, format!("searcher_{}", tip))
}

#[test]
fn test_full_pipeline_integration() {
    let mut pool = TransactionPool::new(100);
    let simulator = TransactionSimulator::new(MockSolanaRpcClient::new());
    let mut auction = BundleAuction::new_with_simulator(1, simulator);
    let assembler = BlockAssembler::new("leader".to_string(), 50, 500_000);
    let mut validator_client = MockValidatorClient::new();

    let bundles = vec![
        create_test_bundle(5000, 2),
        create_test_bundle(3000, 1),
        create_test_bundle(1000, 1),
        create_test_bundle(4000, 3),
    ];

    for bundle in &bundles {
        pool.add_bundle(bundle.clone()).expect("Failed to add bundle to pool");
    }

    let pending_bundles = pool.get_pending_bundles(10);
    for bundle in pending_bundles {
        auction.add_bundle(bundle).expect("Failed to add bundle to auction");
    }

    let winners = auction.select_winning_bundles(3);
    assert_eq!(winners.len(), 3);
    assert_eq!(winners[0].tip_lamports, 5000);
    assert_eq!(winners[1].tip_lamports, 4000);
    assert_eq!(winners[2].tip_lamports, 3000);

    let template = assembler.create_block_template(1, vec![8; 32]);
    let block = assembler.assemble_block(template, winners);

    assembler.validate_block(&block).expect("Block validation failed");

    validator_client.submit_block(block.clone()).expect("Failed to submit block");

    let submitted_blocks = validator_client.get_submitted_blocks();
    assert_eq!(submitted_blocks.len(), 1);
    assert_eq!(submitted_blocks[0].slot, block.slot);
    assert_eq!(submitted_blocks[0].total_tips, 12000);
}

#[test]
fn test_auction_filters_failed_simulations() {
    let mut mock_rpc = MockSolanaRpcClient::new();

    let failing_bundle = create_test_bundle(10000, 1);
    let failing_tx_sig = failing_bundle.transactions[0].signature.clone();
    mock_rpc.set_simulation_failure(failing_tx_sig);

    let simulator = TransactionSimulator::new(mock_rpc);
    let mut auction = BundleAuction::new_with_simulator(1, simulator);

    let good_bundle = create_test_bundle(5000, 1);
    auction.add_bundle(good_bundle).expect("Good bundle should be added");

    let result = auction.add_bundle(failing_bundle);
    assert!(result.is_err(), "Failing bundle should be rejected");

    let winners = auction.select_winning_bundles(10);
    assert_eq!(winners.len(), 1);
    assert_eq!(winners[0].tip_lamports, 5000);
}

#[test]
fn test_block_assembler_transaction_limits() {
    let assembler = BlockAssembler::new("leader".to_string(), 5, 50_000);

    let bundles = vec![
        create_test_bundle(3000, 3),
        create_test_bundle(2000, 2),
        create_test_bundle(1000, 2),
    ];

    let template = assembler.create_block_template(1, vec![8; 32]);
    let block = assembler.assemble_block(template, bundles);

    assert_eq!(block.bundles.len(), 2);
    assert_eq!(block.transactions.len(), 5);
    assert_eq!(block.total_tips, 5000);
}

#[test]
fn integration_tests_test_auction_stats() {
    let simulator = TransactionSimulator::new(MockSolanaRpcClient::new());
    let mut auction = BundleAuction::new_with_simulator(42, simulator);

    let bundles = vec![
        create_test_bundle(1000, 1),
        create_test_bundle(2000, 1),
        create_test_bundle(3000, 1),
    ];

    for bundle in bundles {
        auction.add_bundle(bundle).expect("Failed to add bundle");
    }

    let stats = auction.get_auction_stats();

    assert_eq!(stats.slot, 42);
    assert_eq!(stats.total_bundles, 3);
    assert_eq!(stats.total_tip_value, 6000);
    assert_eq!(stats.highest_tip, 3000);
    assert_eq!(stats.avg_tip, 2000);
}

#[test]
fn test_validator_client_failure_handling() {
    let mut validator_client = MockValidatorClient::new();
    validator_client.set_failure_mode(true);

    let bundle = create_test_bundle(1000, 1);
    let block = block_engine::block_assembler::Block {
        slot: 1,
        parent_hash: vec![1; 32],
        blockhash: vec![2; 32],
        transactions: bundle.transactions.clone(),
        bundles: vec![bundle],
        timestamp: 1000,
        leader_pubkey: "leader".to_string(),
        total_fees: 5000,
        total_tips: 1000,
    };

    let result = validator_client.submit_block(block);
    assert!(result.is_err());

    let submitted_blocks = validator_client.get_submitted_blocks();
    assert_eq!(submitted_blocks.len(), 0);
}

#[test]
fn test_high_volume_bundle_processing() {
    let mut pool = TransactionPool::new(10000);
    let simulator = TransactionSimulator::new(MockSolanaRpcClient::new());
    let mut auction = BundleAuction::new_with_simulator(1, simulator);

    const NUM_BUNDLES: usize = 1000;

    for i in 0..NUM_BUNDLES {
        let bundle = create_test_bundle((i as u64 + 1) * 100, 1);
        pool.add_bundle(bundle).expect("Failed to add bundle");
    }

    let bundles = pool.get_pending_bundles(NUM_BUNDLES);
    for bundle in bundles {
        auction.add_bundle(bundle).expect("Failed to add to auction");
    }

    let winners = auction.select_winning_bundles(100);

    for i in 1..winners.len() {
        assert!(
            winners[i - 1].tip_lamports >= winners[i].tip_lamports,
            "Winners not properly sorted by tip"
        );
    }

    assert_eq!(winners[0].tip_lamports, NUM_BUNDLES as u64 * 100);
}

#[test]
fn test_bundle_validation() {
    let valid = create_test_bundle(100, 3);
    assert!(valid.validate().is_ok());

    let empty = Bundle::new(vec![], 100, "s".to_string());
    assert!(matches!(
        empty.validate(),
        Err(block_engine::bundle::BundleError::EmptyBundle)
    ));

    let oversized = create_test_bundle(100, 6);
    assert!(matches!(
        oversized.validate(),
        Err(block_engine::bundle::BundleError::TooManyTransactions)
    ));
}

#[test]
fn test_bundle_auction_without_simulator_admits_everything() {
    let mut auction: BundleAuction<MockSolanaRpcClient> = BundleAuction::new(5);
    assert!(auction.add_bundle(Bundle::new(vec![], 100, "s".to_string())).is_ok());
    assert!(auction.add_bundle(create_test_bundle(200, 1)).is_ok());
    let winners = auction.select_winning_bundles(5);
    assert_eq!(winners.len(), 2);
    assert_eq!(winners[0].tip_lamports, 200);
}
