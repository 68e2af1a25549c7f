use block_engine::block_assembler::Block;
use block_engine::bundle::Bundle;
use block_engine::validator::BlockSubmissionResult;
use block_engine::validator::MockValidator;
use block_engine::validator::ValidatorNetwork;

fn create_test_block() -> Block {
    let bundle = Bundle::new(vec![], 1000000, "test_searcher".to_string());

    Block {
        slot: 12345,
        parent_hash: vec![1; 32],
        blockhash: vec![2; 32],
        transactions: vec![],
        bundles: vec![bundle],
        timestamp: 1000,
        leader_pubkey: "leader".to_string(),
        total_fees: 1000000,
        total_tips: 1000000,
    }
}

#[test]
fn test_validator_accepts_valid_block() {
    let mut validator = MockValidator::new();
    let block = create_test_block();

    let result = validator.submit_block(block);

    match result {
        BlockSubmissionResult::Accepted { signature } => {
            assert!(!signature.is_empty());
        }
        BlockSubmissionResult::Rejected { .. } => {
            panic!("Expected block to be accepted");
        }
    }

    let stats = validator.get_stats();
    assert_eq!(stats.blocks_accepted, 1);
    assert_eq!(stats.blocks_rejected, 0);
}

#[test]
fn test_validator_rejects_invalid_block() {
    let mut validator = MockValidator::with_limits(0, 1000);
    let mut block = create_test_block();

    let transaction =
        block_engine::bundle::Transaction::new("extra_sig".to_string(), vec![1, 2, 3]);
    block.transactions.push(transaction);

    let result = validator.submit_block(block);

    match result {
        BlockSubmissionResult::Rejected { reason } => {
            assert!(reason.contains("too many transactions"));
        }
        BlockSubmissionResult::Accepted { .. } => {
            panic!("Expected block to be rejected");
        }
    }

    let stats = validator.get_stats();
    assert_eq!(stats.blocks_accepted, 0);
    assert_eq!(stats.blocks_rejected, 1);
}

#[test]
fn test_validator_with_failure_rate() {
    let mut validator = MockValidator::with_failure_rate(1000);
    let block = create_test_block();

    let result = validator.submit_block(block);

    match result {
        BlockSubmissionResult::Rejected { .. } => {}
        BlockSubmissionResult::Accepted { .. } => {
            panic!("Expected block to be rejected with 100% failure rate");
        }
    }
}

#[test]
fn test_validator_network() {
    let mut network = ValidatorNetwork::new(3);
    let block = create_test_block();

    let results = network.submit_block_to_network(block);

    assert_eq!(results.len(), 3);

    let accepted_count = results
        .iter()
        .filter(|(_, result)| matches!(result, BlockSubmissionResult::Accepted { .. }))
        .count();

    assert!(accepted_count > 0, "At least one validator should accept the block");
}

#[test]
fn test_validator_rejects_zero_timestamp() {
    let mut validator = MockValidator::new();
    let mut block = create_test_block();
    block.timestamp = 0;

    match validator.submit_block(block) {
        BlockSubmissionResult::Rejected { reason } => {
            assert!(reason.contains("Invalid timestamp"));
        }
        BlockSubmissionResult::Accepted { .. } => panic!("Expected rejection"),
    }
}

#[test]
fn test_validator_stats_aggregate_accepted_only() {
    let mut validator = MockValidator::new();
    let good = create_test_block();
    validator.submit_block(good.clone());

    let mut bad = create_test_block();
    bad.timestamp = 0;
    validator.submit_block(bad);

    let stats = validator.get_stats();
    assert_eq!(stats.blocks_accepted, 1);
    assert_eq!(stats.blocks_rejected, 1);
    assert_eq!(stats.total_blocks_processed, 2);
    assert_eq!(stats.acceptance_rate_per_mille, 500);
    assert_eq!(stats.total_fees_processed, good.total_fees);
    assert_eq!(stats.total_tips_processed, good.total_tips);
    assert_eq!(stats.total_transactions_processed, 0);

    validator.clear_history();
    let cleared = validator.get_stats();
    assert_eq!(cleared.total_blocks_processed, 0);
    assert_eq!(cleared.acceptance_rate_per_mille, 0);

    assert_eq!(validator.get_accepted_blocks().len(), 0);
    assert_eq!(validator.get_rejected_blocks().len(), 0);
}
