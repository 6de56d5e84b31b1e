use apraxus_node::block::Block;
use apraxus_node::transaction::SignedTransaction;
use apraxus_node::balances::Balances;
use apraxus_node::blockchain::{Blockchain, APXS_DEFAULT_FEE, APXS_FEE_POOL_ADDRESS, APXS_MAX_SUPPLY};
use apraxus_node::loading::LoadError;
use apraxus_node::wallet::Wallet;

const UNITS: u64 = 100_000_000;

fn funded_chain() -> (Blockchain, Wallet, Wallet) {
    let alice = Wallet::new().unwrap();
    let bob = Wallet::new().unwrap();
    let mut chain = Blockchain::new().unwrap();
    chain.add_genesis_balance(alice.address().to_string(), APXS_MAX_SUPPLY);
    (chain, alice, bob)
}

#[test]
fn token_information() {
    assert_eq!(Blockchain::token_name(), "Apraxus");
    assert_eq!(Blockchain::token_symbol(), "APXS");
    assert_eq!(Blockchain::decimals(), 8);
    assert_eq!(Blockchain::max_supply(), 100_000_000_000_000_000);
    assert_eq!(Blockchain::atomic_units_per_apxs(), 100_000_000);
    assert_eq!(Blockchain::default_fee(), 100_000);
}

#[test]
fn new_chain_is_valid_with_a_genesis_block() {
    let chain = Blockchain::new().unwrap();
    assert_eq!(chain.block_count(), 1);
    assert_eq!(chain.blocks[0].index, 0);
    assert_eq!(chain.blocks[0].previous_hash, "0");
    assert!(chain.blocks[0].transactions.is_empty());
    assert_eq!(chain.total_supply, 0);
    assert!(chain.is_chain_valid());
}

#[test]
fn genesis_balance_mints_once_and_within_max_supply() {
    let mut chain = Blockchain::new().unwrap();
    chain.add_genesis_balance("alice".to_string(), 1_000);
    assert_eq!(chain.balance_of("alice"), 1_000);
    assert_eq!(chain.total_supply, 1_000);
    chain.add_genesis_balance("alice".to_string(), 5);
    assert_eq!(chain.balance_of("alice"), 1_000);
    assert_eq!(chain.total_supply, 1_000);
    chain.add_genesis_balance("bob".to_string(), APXS_MAX_SUPPLY);
    assert_eq!(chain.balance_of("bob"), 0);
    assert_eq!(chain.total_supply, 1_000);
    chain.add_genesis_balance("bob".to_string(), APXS_MAX_SUPPLY - 1_000);
    assert_eq!(chain.total_supply, APXS_MAX_SUPPLY);
    assert_eq!(chain.calculated_supply(), APXS_MAX_SUPPLY);
    assert!(chain.is_chain_valid());
}

#[test]
fn transfer_is_admitted_and_mined() {
    let (mut chain, alice, bob) = funded_chain();
    let tx = alice.create_transaction(bob.address(), 25 * UNITS, APXS_DEFAULT_FEE);
    assert!(chain.add_transaction(tx.clone()));
    assert_eq!(chain.pending_transactions.len(), 1);
    assert_eq!(chain.balance_of(alice.address()), APXS_MAX_SUPPLY);
    assert!(chain.mine_pending_transactions());
    assert!(chain.pending_transactions.is_empty());
    assert_eq!(chain.block_count(), 2);
    assert_eq!(chain.blocks[1].index, 1);
    assert_eq!(chain.blocks[1].previous_hash, chain.blocks[0].hash);
    assert_eq!(chain.blocks[1].transactions.len(), 1);
    assert_eq!(chain.balance_of(alice.address()), APXS_MAX_SUPPLY - 25 * UNITS - APXS_DEFAULT_FEE);
    assert_eq!(chain.balance_of(bob.address()), 25 * UNITS);
    assert_eq!(chain.fee_pool_balance(), APXS_DEFAULT_FEE);
    assert_eq!(chain.balance_of(APXS_FEE_POOL_ADDRESS), APXS_DEFAULT_FEE);
    assert_eq!(chain.calculated_supply(), APXS_MAX_SUPPLY);
    assert!(chain.is_chain_valid());
}

#[test]
fn duplicate_transfers_are_refused() {
    let (mut chain, alice, bob) = funded_chain();
    let tx = alice.create_transaction(bob.address(), 10, 1);
    assert!(chain.add_transaction(tx.clone()));
    assert!(!chain.add_transaction(tx.clone()));
    assert!(chain.mine_pending_transactions());
    assert!(!chain.add_transaction(tx));
    assert!(chain.add_transaction(alice.create_transaction(bob.address(), 10, 2)));
}

#[test]
fn transfers_beyond_the_available_balance_are_refused() {
    let alice = Wallet::new().unwrap();
    let bob = Wallet::new().unwrap();
    let mut chain = Blockchain::new().unwrap();
    chain.add_genesis_balance(alice.address().to_string(), 1_000_000);
    assert!(!chain.add_transaction(alice.create_transaction(bob.address(), 900_001, 1)));
    assert!(chain.add_transaction(alice.create_transaction(bob.address(), 500_000, 1)));
    // 1_000_000 - 600_000 pending leaves 400_000: not enough for 300_001 + fee.
    assert!(!chain.add_transaction(alice.create_transaction(bob.address(), 300_001, 2)));
    assert!(chain.add_transaction(alice.create_transaction(bob.address(), 300_000, 2)));
    assert!(!chain.add_transaction(bob.create_transaction(alice.address(), 1, 1)));
}

#[test]
fn invalid_or_cheap_transfers_are_refused() {
    let (mut chain, alice, bob) = funded_chain();
    let mut cheap = alice.create_transaction(bob.address(), 10, 1);
    cheap.fee = APXS_DEFAULT_FEE - 1;
    assert!(!chain.add_transaction(cheap));
    assert!(!chain.add_transaction(alice.create_transaction(bob.address(), 0, 1)));
    assert!(chain.pending_transactions.is_empty());
}

#[test]
fn mining_skips_transfers_that_no_longer_fit() {
    let alice = Wallet::new().unwrap();
    let bob = Wallet::new().unwrap();
    let mut chain = Blockchain::new().unwrap();
    chain.add_genesis_balance(alice.address().to_string(), 1_000_000);
    let first = alice.create_transaction(bob.address(), 500_000, 1);
    let second = alice.create_transaction(bob.address(), 500_000, 2);
    chain.pending_transactions.push(first);
    chain.pending_transactions.push(second);
    assert!(chain.mine_pending_transactions());
    assert_eq!(chain.blocks[1].transactions.len(), 1);
    assert_eq!(chain.balance_of(alice.address()), 400_000);
    assert_eq!(chain.balance_of(bob.address()), 500_000);
    assert_eq!(chain.fee_pool_balance(), 100_000);
    assert!(chain.is_chain_valid());
}

#[test]
fn mining_with_nothing_valid_empties_the_mempool_only() {
    let (mut chain, alice, bob) = funded_chain();
    let mut bad = alice.create_transaction(bob.address(), 10, 1);
    bad.amount = 11;
    chain.pending_transactions.push(bad);
    assert!(chain.mine_pending_transactions());
    assert!(chain.pending_transactions.is_empty());
    assert_eq!(chain.block_count(), 1);
    assert!(chain.mine_pending_transactions());
    assert_eq!(chain.block_count(), 1);
}

#[test]
fn tampering_invalidates_the_chain() {
    let (mut chain, alice, bob) = funded_chain();
    assert!(chain.add_transaction(alice.create_transaction(bob.address(), 10, 1)));
    assert!(chain.mine_pending_transactions());
    assert!(chain.is_chain_valid());
    chain.blocks[1].transactions[0].amount = 1_000;
    assert!(!chain.is_chain_valid());
}

#[test]
fn supply_mismatch_invalidates_the_chain() {
    let (mut chain, _alice, _bob) = funded_chain();
    chain.balances.insert("mallory".to_string(), 5);
    assert!(!chain.is_chain_valid());
}

#[test]
fn longer_valid_chains_replace_shorter_ones() {
    let (mut longer, alice, bob) = funded_chain();
    assert!(longer.add_transaction(alice.create_transaction(bob.address(), 10, 1)));
    assert!(longer.mine_pending_transactions());
    let (mut local, _, _) = funded_chain();
    assert!(longer.is_longer_than(&local));
    assert!(!local.is_longer_than(&longer));
    assert!(local.replace_if_longer(longer));
    assert_eq!(local.block_count(), 2);
    assert_eq!(local.balance_of(bob.address()), 10);
    let (short, _, _) = funded_chain();
    assert!(!local.replace_if_longer(short));
    assert_eq!(local.block_count(), 2);
}

#[test]
fn peer_chains_must_be_valid_and_longer() {
    let (mut peer, alice, bob) = funded_chain();
    assert!(peer.add_transaction(alice.create_transaction(bob.address(), 10, 1)));
    assert!(peer.mine_pending_transactions());
    peer.total_supply = 5;
    let (mut local, _, _) = funded_chain();
    assert!(!local.replace_with_peer(peer));
    assert_eq!(local.block_count(), 1);
    let (mut good, alice2, bob2) = funded_chain();
    assert!(good.add_transaction(alice2.create_transaction(bob2.address(), 10, 1)));
    assert!(good.mine_pending_transactions());
    assert!(local.replace_with_peer(good));
    assert_eq!(local.block_count(), 2);
}

#[test]
fn valid_chains_pass_the_load_checks() {
    let (mut chain, alice, bob) = funded_chain();
    assert!(chain.add_transaction(alice.create_transaction(bob.address(), 10, 1)));
    assert!(chain.mine_pending_transactions());
    let loaded = chain.validate_loaded().ok().unwrap();
    assert_eq!(loaded.block_count(), 2);
    assert_eq!(loaded.total_supply, APXS_MAX_SUPPLY);
}

#[test]
fn legacy_supply_is_recovered_on_load() {
    let (mut chain, _alice, _bob) = funded_chain();
    chain.total_supply = 0;
    let loaded = chain.validate_loaded().ok().unwrap();
    assert_eq!(loaded.total_supply, APXS_MAX_SUPPLY);
}

#[test]
fn load_errors_name_the_failing_check() {
    let (mut chain, _alice, _bob) = funded_chain();
    chain.total_supply = 7;
    let err = chain.validate_loaded().err().unwrap();
    assert!(matches!(err, LoadError::SupplyMismatch));
    assert_eq!(err.message(), "Blockchain validation failed: supply mismatch.");

    let mut chain = Blockchain::new().unwrap();
    chain.total_supply = APXS_MAX_SUPPLY + 1;
    let err = chain.validate_loaded().err().unwrap();
    assert_eq!(err.message(), "Blockchain validation failed: maximum supply exceeded.");

    let mut chain = Blockchain::new().unwrap();
    chain.blocks[0].timestamp = "changed".to_string();
    let err = chain.validate_loaded().err().unwrap();
    assert_eq!(err.message(), "Blockchain validation failed: block #0 hash is invalid.");
}

#[test]
fn load_error_messages() {
    assert_eq!(LoadError::InvalidGenesisIndex.message(), "Invalid genesis block index.");
    assert_eq!(LoadError::InvalidGenesisPreviousHash.message(), "Invalid genesis previous hash.");
    assert_eq!(
        LoadError::PreviousHashMismatch(3).message(),
        "Blockchain validation failed: block #3 previous hash mismatch."
    );
    assert_eq!(
        LoadError::NumberingError(12).message(),
        "Blockchain validation failed: block numbering error at block #12."
    );
    assert_eq!(
        LoadError::InvalidTransaction(4).message(),
        "Blockchain validation failed: invalid transaction in block #4."
    );
    assert_eq!(
        LoadError::InvalidBlockHash(0).message(),
        "Blockchain validation failed: block #0 hash is invalid."
    );
}

#[test]
fn balances_map_addresses_to_amounts() {
    let mut balances = Balances::new();
    assert!(balances.is_empty());
    balances.insert("a".to_string(), 5);
    balances.insert("b".to_string(), 7);
    balances.insert("a".to_string(), 9);
    assert_eq!(balances.len(), 2);
    assert_eq!(balances.get("a"), Some(9));
    assert_eq!(balances.amount("c"), 0);
    assert!(balances.contains_key("b"));
    assert!(!balances.contains_key("c"));
    assert_eq!(balances.saturating_total(), 16);
    balances.insert("c".to_string(), u64::MAX);
    assert_eq!(balances.saturating_total(), u64::MAX);
    assert_eq!(balances.to_pairs().len(), 3);
}

fn chain_of(blocks: Vec<Block>) -> Blockchain {
    Blockchain { blocks, pending_transactions: Vec::new(), balances: Balances::new(), total_supply: 0 }
}

fn unsigned(sender: &str) -> SignedTransaction {
    SignedTransaction {
        sender: sender.to_string(),
        recipient: "r".to_string(),
        amount: 1,
        nonce: 0,
        fee: APXS_DEFAULT_FEE,
        public_key: [0u8; 32],
        signature: [0u8; 64],
    }
}

#[test]
fn load_checks_report_each_block_error() {
    let ts = "2024-01-01T00:00:00+00:00".to_string();

    let bad_index = chain_of(vec![Block::with_timestamp(1, ts.clone(), "0".to_string(), Vec::new())]);
    assert!(!bad_index.is_chain_valid());
    assert!(matches!(bad_index.validate_loaded().err().unwrap(), LoadError::InvalidGenesisIndex));

    let bad_previous = chain_of(vec![Block::with_timestamp(0, ts.clone(), "x".to_string(), Vec::new())]);
    assert!(!bad_previous.is_chain_valid());
    assert!(matches!(
        bad_previous.validate_loaded().err().unwrap(),
        LoadError::InvalidGenesisPreviousHash
    ));

    let genesis = || Block::with_timestamp(0, ts.clone(), "0".to_string(), Vec::new());
    let genesis_hash = genesis().hash.clone();

    let unlinked = chain_of(vec![genesis(), Block::with_timestamp(1, ts.clone(), "wrong".to_string(), Vec::new())]);
    assert!(!unlinked.is_chain_valid());
    assert!(matches!(unlinked.validate_loaded().err().unwrap(), LoadError::PreviousHashMismatch(1)));

    let misnumbered = chain_of(vec![genesis(), Block::with_timestamp(5, ts.clone(), genesis_hash.clone(), Vec::new())]);
    assert!(!misnumbered.is_chain_valid());
    assert!(matches!(misnumbered.validate_loaded().err().unwrap(), LoadError::NumberingError(5)));

    let forged = chain_of(vec![genesis(), Block::with_timestamp(1, ts.clone(), genesis_hash.clone(), vec![unsigned("s")])]);
    assert!(!forged.is_chain_valid());
    assert!(matches!(forged.validate_loaded().err().unwrap(), LoadError::InvalidTransaction(1)));

    let fine = chain_of(vec![genesis(), Block::with_timestamp(1, ts.clone(), genesis_hash, Vec::new())]);
    assert!(fine.is_chain_valid());
    assert!(fine.validate_loaded().is_ok());
}

#[test]
fn genesis_transactions_pass_the_load_checks_but_not_validity() {
    let alice = Wallet::new().unwrap();
    let tx = alice.create_transaction("bob", 5, 1);
    let chain = chain_of(vec![Block::with_timestamp(0, "t".to_string(), "0".to_string(), vec![tx])]);
    assert!(!chain.is_chain_valid());
    assert!(chain.validate_loaded().is_ok());
}

#[test]
fn empty_chains_are_invalid() {
    let chain = chain_of(Vec::new());
    assert!(!chain.is_chain_valid());
}

#[test]
fn everything_admitted_is_mined() {
    let alice = Wallet::new().unwrap();
    let bob = Wallet::new().unwrap();
    let carol = Wallet::new().unwrap();
    let mut chain = Blockchain::new().unwrap();
    chain.add_genesis_balance(alice.address().to_string(), 2_000_000);
    chain.add_genesis_balance(bob.address().to_string(), 300_000);
    assert!(chain.add_transaction(alice.create_transaction(bob.address(), 700_000, 1)));
    assert!(chain.add_transaction(bob.create_transaction(carol.address(), 200_000, 1)));
    assert!(chain.add_transaction(alice.create_transaction(carol.address(), 1_100_000, 2)));
    assert!(!chain.add_transaction(alice.create_transaction(carol.address(), 1, 3)));
    assert!(chain.mine_pending_transactions());
    assert_eq!(chain.blocks[1].transactions.len(), 3);
    assert_eq!(chain.balance_of(alice.address()), 0);
    assert_eq!(chain.balance_of(bob.address()), 700_000);
    assert_eq!(chain.balance_of(carol.address()), 1_300_000);
    assert_eq!(chain.fee_pool_balance(), 300_000);
    assert_eq!(chain.calculated_supply(), chain.total_supply);
    assert!(chain.is_chain_valid());
}
