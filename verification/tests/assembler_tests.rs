use std::time::Duration;
use std::time::Instant;

use block_engine::block_assembler::Block;
use block_engine::block_assembler::BlockValidationError;
use block_engine::block_assembler::compute_block_hash;
use block_engine::block_assembler::BlockAssembler;
use block_engine::block_assembler::MockValidatorClient;
use block_engine::block_assembler::assemble_block;
use block_engine::block_assembler::assemble_block_with_params;
use block_engine::bundle::Bundle;
use block_engine::bundle::Transaction;

fn create_test_bundle(tip: u64, tx_count: usize) -> Bundle {
    let mut transactions = Vec::new();
    for i in 0..tx_count {
        let transaction = Transaction::new(format!("sig_{}_{}", tip, i), vec![i as u8, 1, 2]);
        transactions.push(transaction);
    }
    Bundle::new(transactions, tip, format!("searcher_{}", tip))
}

#[test]
fn test_assemble_block() {
    let assembler = BlockAssembler::new("leader".to_string(), 100, 500_000);

    let template = assembler.create_block_template(1, vec![9; 32]);
    let bundles = vec![create_test_bundle(2000, 2), create_test_bundle(1000, 1)];

    let block = assembler.assemble_block(template, bundles);

    assert_eq!(block.slot, 1);
    assert_eq!(block.bundles.len(), 2);
    assert_eq!(block.transactions.len(), 3);
    assert_eq!(block.total_tips, 3000);
}

#[test]
fn test_transaction_limit() {
    let assembler = BlockAssembler::new("leader".to_string(), 2, 500_000);

    let template = assembler.create_block_template(1, vec![9; 32]);
    let bundles = vec![create_test_bundle(2000, 2), create_test_bundle(1000, 2)];

    let block = assembler.assemble_block(template, bundles);

    assert_eq!(block.bundles.len(), 1);
    assert_eq!(block.transactions.len(), 2);
    assert_eq!(block.total_tips, 2000);
}

#[test]
fn test_validate_block() {
    let assembler = BlockAssembler::new("leader".to_string(), 10, 50_000);

    let bundle = create_test_bundle(1000, 1);
    let block = Block {
        slot: 1,
        parent_hash: vec![1; 32],
        blockhash: vec![2; 32],
        transactions: bundle.transactions.clone(),
        bundles: vec![bundle],
        timestamp: 1000,
        leader_pubkey: "leader".to_string(),
        total_fees: 5000,
        total_tips: 1000,
    };

    assert!(assembler.validate_block(&block).is_ok());
}

#[test]
fn test_validate_block_error_variants() {
    let tight = BlockAssembler::new("leader".to_string(), 0, 1000);
    let bundle = create_test_bundle(1000, 1);
    let block = Block {
        slot: 1,
        parent_hash: vec![1; 32],
        blockhash: vec![2; 32],
        transactions: bundle.transactions.clone(),
        bundles: vec![bundle.clone()],
        timestamp: 1000,
        leader_pubkey: "leader".to_string(),
        total_fees: 5000,
        total_tips: 1000,
    };
    assert!(matches!(
        tight.validate_block(&block),
        Err(BlockValidationError::TooManyTransactions)
    ));

    let low_budget = BlockAssembler::new("leader".to_string(), 10, 4000);
    assert!(matches!(
        low_budget.validate_block(&block),
        Err(BlockValidationError::TooManyComputeUnits)
    ));

    let roomy = BlockAssembler::new("leader".to_string(), 10, 50_000);
    let missing = Block {
        slot: 1,
        parent_hash: vec![1; 32],
        blockhash: vec![2; 32],
        transactions: vec![],
        bundles: vec![bundle],
        timestamp: 1000,
        leader_pubkey: "leader".to_string(),
        total_fees: 0,
        total_tips: 1000,
    };
    assert!(matches!(
        roomy.validate_block(&missing),
        Err(BlockValidationError::MissingBundleTransaction)
    ));
}

#[test]
fn test_mock_validator_client() {
    let mut client = MockValidatorClient::new();
    let bundle = create_test_bundle(1000, 1);

    let block = Block {
        slot: 1,
        parent_hash: vec![1; 32],
        blockhash: vec![2; 32],
        transactions: bundle.transactions.clone(),
        bundles: vec![bundle],
        timestamp: 1000,
        leader_pubkey: "leader".to_string(),
        total_fees: 5000,
        total_tips: 1000,
    };

    let signature = client.submit_block(block.clone()).unwrap();
    assert!(!signature.is_empty());

    let submitted = client.get_submitted_blocks();
    assert_eq!(submitted.len(), 1);
    assert_eq!(submitted[0].slot, block.slot);
}

#[test]
fn test_mock_validator_client_failure() {
    let mut client = MockValidatorClient::new();
    client.set_failure_mode(true);

    let bundle = create_test_bundle(1000, 1);
    let block = Block {
        slot: 1,
        parent_hash: vec![1; 32],
        blockhash: vec![2; 32],
        transactions: bundle.transactions.clone(),
        bundles: vec![bundle],
        timestamp: 1000,
        leader_pubkey: "leader".to_string(),
        total_fees: 5000,
        total_tips: 1000,
    };

    assert!(client.submit_block(block).is_err());
    assert_eq!(client.get_submitted_blocks().len(), 0);
}

#[test]
fn test_assemble_block_functionality() {
    let mut bundles = Vec::new();
    for i in 0..3u64 {
        let transaction = Transaction::new(format!("sig_{}", i), vec![i as u8; 32]);
        let bundle = Bundle::new(vec![transaction], (i + 1) * 1000000, format!("searcher_{}", i));
        bundles.push(bundle);
    }

    let (block, summary) = assemble_block(bundles.clone());

    assert_eq!(block.transactions.len(), 3);
    assert_eq!(block.bundles.len(), 3);
    assert_eq!(block.total_fees, 6000000);
    assert_eq!(block.total_tips, 6000000);

    assert_eq!(summary.transaction_count, 3);
    assert_eq!(summary.bundle_ids.len(), 3);
    assert_eq!(summary.total_fees, 6000000);
    assert!(!summary.block_hash.is_empty());
    assert!(!summary.block_id.is_empty());

    // The hash covers the wall-clock timestamp: wait for the next second so
    // the two assemblies are stamped differently.
    let first_timestamp = block.timestamp;
    let start = Instant::now();
    loop {
        let (probe, _) = assemble_block(bundles.clone());
        if probe.timestamp != first_timestamp {
            break;
        }
        if start.elapsed() > Duration::from_secs(3) {
            break;
        }
    }
    let (_, summary2) = assemble_block(bundles);
    assert_ne!(summary.block_hash, summary2.block_hash);
    assert_ne!(summary.block_id, summary2.block_id);
}

#[test]
fn test_assemble_block_with_params() {
    let bundle = Bundle::new(vec![], 1000000, "test_searcher".to_string());

    let slot = 12345;
    let parent_hash = vec![3u8; 32];
    let leader_pubkey = "leader".to_string();

    let (block, _summary) =
        assemble_block_with_params(vec![bundle], slot, parent_hash.clone(), leader_pubkey.clone());

    assert_eq!(block.slot, slot);
    assert_eq!(block.parent_hash, parent_hash);
    assert_eq!(block.leader_pubkey, leader_pubkey);
    assert_eq!(block.total_fees, 1000000);
}

#[test]
fn test_block_hash_is_32_bytes_and_input_sensitive() {
    let tx = Transaction::new("sig".to_string(), vec![1, 2, 3, 4]);
    let one = compute_block_hash(&vec![tx.clone()], &vec![5], 77);
    assert_eq!(one.len(), 32);

    let other = compute_block_hash(&vec![tx], &vec![5], 78);
    assert_eq!(other.len(), 32);
    assert_ne!(one, other);
}
