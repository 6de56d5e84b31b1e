use apraxus_node::block::Block;
use apraxus_node::transaction::{legacy_message, SignedTransaction};

fn plain_tx(sender: &str, recipient: &str, amount: u64, nonce: u64, fee: u64) -> SignedTransaction {
    SignedTransaction {
        sender: sender.to_string(),
        recipient: recipient.to_string(),
        amount,
        nonce,
        fee,
        public_key: [0u8; 32],
        signature: [0u8; 64],
    }
}

#[test]
fn legacy_message_concatenates_fields() {
    assert_eq!(legacy_message("alice", "bob", 10, 2), "alicebob102");
}

#[test]
fn message_appends_fee_after_nonce() {
    let tx = plain_tx("alice", "bob", 10, 2, 100_000);
    assert_eq!(tx.message(), "alicebob102100000");
}

#[test]
fn derived_address_is_sha256_of_public_key_in_hex() {
    let tx = plain_tx("a", "b", 1, 0, 0);
    assert_eq!(
        tx.derived_address(),
        "66687aadf862bd776c8fc18b8e9f8e20089714856ee233b3902a591d0d5f2925"
    );
}

#[test]
fn unsigned_transactions_fail_verification() {
    assert!(!plain_tx("a", "b", 1, 0, 100_000).verify_signature());
    assert!(!plain_tx("a", "b", 0, 0, 100_000).verify_signature());
    assert!(!plain_tx("", "b", 1, 0, 100_000).verify_signature());
    assert!(!plain_tx("a", "", 1, 0, 100_000).verify_signature());
    assert!(!plain_tx("a", "a", 1, 0, 100_000).verify_signature());
}

#[test]
fn block_hash_of_empty_block() {
    let hash = Block::calculate_hash(0, "2024-01-01T00:00:00+00:00", "0", &[]);
    assert_eq!(hash, "5fe110c01e5af6275466e1d2d1331e96b36df4b80ce990f926136a8d4e45bbd9");
}

#[test]
fn block_hash_covers_transaction_messages() {
    let one = vec![plain_tx("s", "r", 5, 7, 100_000)];
    assert_eq!(
        Block::calculate_hash(1, "T", "abc", &one),
        "ad5d617a0ddf60b07cf6e2743f93911b8e1f1f3e27bbe9e32a73f91a5d68698e"
    );
    let two = vec![plain_tx("s", "r", 5, 7, 100_000), plain_tx("x", "y", 1, 2, 0)];
    assert_eq!(
        Block::calculate_hash(1, "T", "abc", &two),
        "6e0f1b01ba03ff04683d0d1efc4e5eff41392a7b997fbe85d0b59657c4bdf671"
    );
}

#[test]
fn blocks_carry_their_own_hash() {
    let block = Block::with_timestamp(0, "2024-01-01T00:00:00+00:00".to_string(), "0".to_string(), Vec::new());
    assert_eq!(block.hash, "5fe110c01e5af6275466e1d2d1331e96b36df4b80ce990f926136a8d4e45bbd9");
    assert!(block.is_valid());
    let fresh = Block::new(3, "prev".to_string(), vec![plain_tx("s", "r", 5, 7, 100_000)]).unwrap();
    assert!(fresh.is_valid());
    assert_eq!(fresh.index, 3);
}

#[test]
fn tampered_block_is_invalid() {
    let mut block = Block::new(1, "prev".to_string(), vec![plain_tx("s", "r", 5, 7, 100_000)]).unwrap();
    block.transactions[0].amount = 6;
    assert!(!block.is_valid());
}
