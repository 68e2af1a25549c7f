use std::time::Duration;
use std::time::Instant;

use block_engine::auction::AuctionWindow;
use block_engine::auction::simulate_auction_with_bundles;
use block_engine::bundle::Bundle;

fn busy_wait(duration: Duration) {
    let start = Instant::now();
    while start.elapsed() < duration {}
}

#[test]
fn auction_test_auction_window_ranking() {
    let bundles = vec![
        Bundle::new(vec![], 1000000, "searcher_a".to_string()),
        Bundle::new(vec![], 2000000, "searcher_b".to_string()),
        Bundle::new(vec![], 500000, "searcher_c".to_string()),
        Bundle::new(vec![], 1500000, "searcher_d".to_string()),
    ];

    let window_id = 123;
    let max_bundles = 2;

    let winners = simulate_auction_with_bundles(window_id, bundles, max_bundles);

    assert_eq!(winners.len(), 2);
    assert_eq!(winners[0].tip_lamports, 2000000);
    assert_eq!(winners[1].tip_lamports, 1500000);
    assert_eq!(winners[0].searcher_pubkey, "searcher_b");
    assert_eq!(winners[1].searcher_pubkey, "searcher_d");
}

#[test]
fn auction_tests_test_auction_window_ranking() {
    let bundles = vec![
        Bundle::new(vec![], 1000000, "searcher_a".to_string()),
        Bundle::new(vec![], 2000000, "searcher_b".to_string()),
        Bundle::new(vec![], 500000, "searcher_c".to_string()),
        Bundle::new(vec![], 1500000, "searcher_d".to_string()),
    ];

    let winners = simulate_auction_with_bundles(123, bundles, 2);

    assert_eq!(winners.len(), 2);
    assert_eq!(winners[0].tip_lamports, 2000000);
    assert_eq!(winners[1].tip_lamports, 1500000);
    assert_eq!(winners[0].searcher_pubkey, "searcher_b");
    assert_eq!(winners[1].searcher_pubkey, "searcher_d");
}

#[test]
fn auction_test_auction_window_deterministic_tiebreaking() {
    let bundle_a = Bundle::new(vec![], 1000000, "searcher_a".to_string());
    let bundle_b = Bundle::new(vec![], 1000000, "searcher_b".to_string());

    let bundles = vec![bundle_b.clone(), bundle_a.clone()];

    let winners = simulate_auction_with_bundles(1, bundles, 2);

    assert_eq!(winners.len(), 2);
    assert_eq!(winners[0].tip_lamports, 1000000);
    assert_eq!(winners[1].tip_lamports, 1000000);
    assert!(winners[0].id < winners[1].id);
}

#[test]
fn auction_tests_test_auction_window_deterministic_tiebreaking() {
    let bundle_a = Bundle::new(vec![], 1000000, "searcher_a".to_string());
    let bundle_b = Bundle::new(vec![], 1000000, "searcher_b".to_string());

    let bundles = vec![bundle_b.clone(), bundle_a.clone()];

    let winners = simulate_auction_with_bundles(1, bundles, 2);

    assert_eq!(winners.len(), 2);
    assert_eq!(winners[0].tip_lamports, 1000000);
    assert_eq!(winners[1].tip_lamports, 1000000);
    assert!(winners[0].id < winners[1].id);
}

#[test]
fn auction_test_auction_window_timing() {
    let mut window = AuctionWindow::new(456, 50, 5);

    assert!(window.is_window_open());

    let bundle = Bundle::new(vec![], 1000000, "test_searcher".to_string());
    assert!(window.try_add_bundle(bundle));

    busy_wait(Duration::from_millis(60));

    assert!(!window.is_window_open());

    let late_bundle = Bundle::new(vec![], 2000000, "late_searcher".to_string());
    assert!(!window.try_add_bundle(late_bundle));
}

#[test]
fn auction_test_auction_stats() {
    let bundles = vec![
        Bundle::new(vec![], 1000000, "searcher_1".to_string()),
        Bundle::new(vec![], 2000000, "searcher_2".to_string()),
        Bundle::new(vec![], 500000, "searcher_3".to_string()),
    ];

    let mut window = AuctionWindow::new(789, 200, 5);
    for bundle in bundles {
        window.try_add_bundle(bundle);
    }

    let stats = window.get_auction_stats();
    assert_eq!(stats.total_bundles, 3);
    assert_eq!(stats.total_tip_value, 3500000);
    assert_eq!(stats.highest_tip, 2000000);
    assert_eq!(stats.lowest_tip, 500000);
    assert_eq!(stats.avg_tip, 1166666);
}

#[test]
fn auction_tests_test_auction_stats() {
    let bundles = vec![
        Bundle::new(vec![], 1000000, "searcher_1".to_string()),
        Bundle::new(vec![], 2000000, "searcher_2".to_string()),
        Bundle::new(vec![], 500000, "searcher_3".to_string()),
    ];

    let mut window = AuctionWindow::new(789, 200, 5);
    for bundle in bundles {
        window.try_add_bundle(bundle);
    }

    let stats = window.get_auction_stats();
    assert_eq!(stats.total_bundles, 3);
    assert_eq!(stats.total_tip_value, 3500000);
    assert_eq!(stats.highest_tip, 2000000);
    assert_eq!(stats.lowest_tip, 500000);
    assert_eq!(stats.avg_tip, 1166666);
}

#[test]
fn test_ranking_is_deterministic_over_arrival_order() {
    let a = Bundle::new(vec![], 1000, "s1".to_string());
    let b = Bundle::new(vec![], 2000, "s2".to_string());
    let c = Bundle::new(vec![], 2000, "s3".to_string());
    let d = Bundle::new(vec![], 500, "s4".to_string());

    let one_order = vec![a.clone(), b.clone(), c.clone(), d.clone()];
    let other_order = vec![d, c, a, b];

    let winners1 = simulate_auction_with_bundles(7, one_order, 3);
    let winners2 = simulate_auction_with_bundles(7, other_order, 3);

    assert_eq!(winners1.len(), winners2.len());
    for (w1, w2) in winners1.iter().zip(winners2.iter()) {
        assert_eq!(w1.id, w2.id);
        assert_eq!(w1.tip_lamports, w2.tip_lamports);
    }
}

#[test]
fn test_zero_winner_cutoff() {
    let bundles = vec![Bundle::new(vec![], 1000, "s".to_string())];
    let winners = simulate_auction_with_bundles(9, bundles, 0);
    assert_eq!(winners.len(), 0);
}
