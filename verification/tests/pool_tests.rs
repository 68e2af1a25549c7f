use block_engine::bundle::Bundle;
use block_engine::bundle::Transaction;
use block_engine::transaction_pool::PoolError;
use block_engine::transaction_pool::TransactionPool;

fn create_test_bundle(tip: u64) -> Bundle {
    let transaction = Transaction::new(format!("sig_{}", tip), vec![1, 2, 3]);
    Bundle::new(vec![transaction], tip, format!("searcher_{}", tip))
}

#[test]
fn test_add_bundle() {
    let mut pool = TransactionPool::new(10);
    let bundle = create_test_bundle(1000);
    let bundle_id = bundle.id;

    assert!(pool.add_bundle(bundle).is_ok());
    assert!(pool.get_bundle(bundle_id).is_some());
}

#[test]
fn test_pool_full() {
    let mut pool = TransactionPool::new(1);
    let bundle1 = create_test_bundle(1000);
    let bundle2 = create_test_bundle(2000);

    assert!(pool.add_bundle(bundle1).is_ok());
    assert!(matches!(pool.add_bundle(bundle2), Err(PoolError::PoolFull)));
}

#[test]
fn test_remove_bundle() {
    let mut pool = TransactionPool::new(10);
    let bundle = create_test_bundle(1000);
    let bundle_id = bundle.id;

    pool.add_bundle(bundle).unwrap();
    assert!(pool.remove_bundle(bundle_id).is_some());
    assert!(pool.get_bundle(bundle_id).is_none());
}

#[test]
fn test_get_pending_bundles() {
    let mut pool = TransactionPool::new(10);

    for i in 0..5 {
        let bundle = create_test_bundle(1000 + i);
        pool.add_bundle(bundle).unwrap();
    }

    let pending = pool.get_pending_bundles(3);
    assert_eq!(pending.len(), 3);
}

#[test]
fn test_get_bundles_by_tip_range() {
    let mut pool = TransactionPool::new(10);

    pool.add_bundle(create_test_bundle(500)).unwrap();
    pool.add_bundle(create_test_bundle(1000)).unwrap();
    pool.add_bundle(create_test_bundle(1500)).unwrap();
    pool.add_bundle(create_test_bundle(2000)).unwrap();

    let bundles = pool.get_bundles_by_tip_range(1000, 1500);
    assert_eq!(bundles.len(), 2);
    assert!(bundles.iter().all(|b| b.tip_lamports >= 1000 && b.tip_lamports <= 1500));
}

#[test]
fn test_pool_stats() {
    let mut pool = TransactionPool::new(10);

    pool.add_bundle(create_test_bundle(1000)).unwrap();
    pool.add_bundle(create_test_bundle(2000)).unwrap();

    let stats = pool.get_stats();
    assert_eq!(stats.total_bundles, 2);
    assert_eq!(stats.pending_count, 2);
    assert_eq!(stats.total_tip_value, 3000);
    assert_eq!(stats.avg_tip, 1500);
}

#[test]
fn test_pool_never_exceeds_capacity() {
    let mut pool = TransactionPool::new(3);
    let mut accepted = 0;
    for i in 0..10 {
        if pool.add_bundle(create_test_bundle(100 + i)).is_ok() {
            accepted += 1;
        }
    }
    assert_eq!(accepted, 3);
    let stats = pool.get_stats();
    assert!(stats.total_bundles <= 3);
}

#[test]
fn test_pool_rejects_invalid_bundle() {
    let mut pool = TransactionPool::new(10);
    let empty = Bundle::new(vec![], 1000, "searcher".to_string());
    assert!(matches!(pool.add_bundle(empty), Err(PoolError::InvalidBundle(_))));

    let mut transactions = Vec::new();
    for i in 0..6 {
        transactions.push(Transaction::new(format!("sig_{}", i), vec![i as u8]));
    }
    let oversized = Bundle::new(transactions, 1000, "searcher".to_string());
    match pool.add_bundle(oversized) {
        Err(PoolError::InvalidBundle(message)) => {
            assert_eq!(message, "Bundle contains too many transactions (max 5)");
        }
        _ => panic!("expected an invalid-bundle error"),
    }
}

#[test]
fn test_pool_avg_tip_truncates() {
    let mut pool = TransactionPool::new(10);
    pool.add_bundle(create_test_bundle(1000)).unwrap();
    pool.add_bundle(create_test_bundle(2000)).unwrap();
    pool.add_bundle(create_test_bundle(500)).unwrap();
    let stats = pool.get_stats();
    assert_eq!(stats.total_tip_value, 3500);
    assert_eq!(stats.avg_tip, 1166);

    pool.clear();
    let empty_stats = pool.get_stats();
    assert_eq!(empty_stats.total_bundles, 0);
    assert_eq!(empty_stats.avg_tip, 0);
}

#[test]
fn test_pool_event_notifications() {
    let mut pool = TransactionPool::new(10);
    let mut event_receiver = pool.subscribe_events();

    let bundle = create_test_bundle(1000);
    let bundle_id = bundle.id;

    pool.add_bundle(bundle).expect("Failed to add bundle");

    let event = event_receiver.try_recv().expect("Failed to receive event");
    match event {
        block_engine::transaction_pool::PoolEvent::BundleAdded(id) => assert_eq!(id, bundle_id),
        _ => panic!("Expected BundleAdded event"),
    }

    pool.remove_bundle(bundle_id);

    let event = event_receiver.try_recv().expect("Failed to receive event");
    match event {
        block_engine::transaction_pool::PoolEvent::BundleRemoved(id) => assert_eq!(id, bundle_id),
        _ => panic!("Expected BundleRemoved event"),
    }
}

#[test]
fn test_pool_tip_range_queries() {
    let mut pool = TransactionPool::new(100);

    let tips = vec![500, 1000, 1500, 2000, 2500, 3000];
    for tip in tips {
        let bundle = create_test_bundle(tip);
        pool.add_bundle(bundle).expect("Failed to add bundle");
    }

    let mid_range_bundles = pool.get_bundles_by_tip_range(1000, 2500);
    assert_eq!(mid_range_bundles.len(), 4);

    let high_tip_bundles = pool.get_bundles_by_tip_range(2000, 5000);
    assert_eq!(high_tip_bundles.len(), 3);

    let exact_match = pool.get_bundles_by_tip_range(1500, 1500);
    assert_eq!(exact_match.len(), 1);
}
