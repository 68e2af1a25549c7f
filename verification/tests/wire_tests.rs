use block_engine::encoding::u64_le_bytes;
use block_engine::encoding::u64_string;
use block_engine::encoding::uuid_string;
use block_engine::platform::hash_str;
use block_engine::wire::WireBundle;
use block_engine::wire::build_ordered_block;
use block_engine::wire::create_simple_hash;
use block_engine::wire::fallback_order;

fn wire_bundle(id: &str, tip: u64) -> WireBundle {
    WireBundle {
        id: id.to_string(),
        transactions: vec!["payload".to_string()],
        tip,
        searcher_pubkey: "searcher".to_string(),
        timestamp: 1000,
    }
}

#[test]
fn test_u64_le_bytes_exact() {
    assert_eq!(u64_le_bytes(0x0102030405060708), vec![8, 7, 6, 5, 4, 3, 2, 1]);
    assert_eq!(u64_le_bytes(0), vec![0; 8]);
}

#[test]
fn test_u64_string_exact() {
    assert_eq!(u64_string(0), "0");
    assert_eq!(u64_string(7), "7");
    assert_eq!(u64_string(12345), "12345");
    assert_eq!(u64_string(u64::MAX), "18446744073709551615");
}

#[test]
fn test_uuid_string_exact() {
    assert_eq!(uuid_string(0), "00000000-0000-0000-0000-000000000000");
    assert_eq!(
        uuid_string(0x0123456789abcdef0123456789abcdefu128),
        "01234567-89ab-cdef-0123-456789abcdef"
    );
}

#[test]
fn test_hash_str_is_deterministic() {
    assert_eq!(hash_str("bundle-1"), hash_str("bundle-1"));
    assert_ne!(hash_str("alpha"), hash_str("beta"));
}

#[test]
fn test_create_simple_hash_exact() {
    let one = vec![wire_bundle("bundle-1", 7)];
    assert_eq!(
        create_simple_hash(&one),
        "7dc08e5071df4bf3ff57688b4189e9aaeed1c6d8a69c5b539813b5270882c662"
    );

    let two = vec![wire_bundle("a", 1), wire_bundle("b", 2)];
    assert_eq!(
        create_simple_hash(&two),
        "ca1e47a759264a8b61478ccee6dae127b695f416625b118f8cbaad1889086e9f"
    );

    let none: Vec<WireBundle> = Vec::new();
    assert_eq!(
        create_simple_hash(&none),
        "e3b0c44298fc1c149afbf4c8996fb92427ae41e4649b934ca495991b7852b855"
    );
}

#[test]
fn test_fallback_order_sorts_by_tip() {
    let bundles = vec![
        wire_bundle("x", 300),
        wire_bundle("y", 100),
        wire_bundle("z", 200),
    ];
    let ordered = fallback_order(&bundles);
    assert_eq!(ordered.len(), 3);
    assert_eq!(ordered[0].tip, 100);
    assert_eq!(ordered[1].tip, 200);
    assert_eq!(ordered[2].tip, 300);
}

#[test]
fn test_build_ordered_block() {
    let bundles = vec![wire_bundle("bundle-1", 7)];
    let block = build_ordered_block(42, bundles);
    assert_eq!(block.window_id, 42);
    assert_eq!(block.ordered_bundles.len(), 1);
    assert_eq!(
        block.ordered_hash,
        "7dc08e5071df4bf3ff57688b4189e9aaeed1c6d8a69c5b539813b5270882c662"
    );
}
