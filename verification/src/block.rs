//! Blocks of the chain and their SHA-256 hash.

use vstd::prelude::*;
use vstd::string::StringExecFns;
use vstd::utf8::encode_utf8;

use crate::crypto::{now_rfc3339, sha256, sha256_digest};
use crate::text::{all_lower_hex, decimal, hex_lower, push_decimal, to_hex_lower};
use crate::transaction::SignedTransaction;

verus! {

/// A block: its position, creation time, the hash of the block before it,
/// the transfers it confirms, and its own hash.
pub struct Block {
    pub index: u64,
    pub timestamp: String,
    pub previous_hash: String,
    pub transactions: Vec<SignedTransaction>,
    pub hash: String,
}

/// The signed messages of `txs` (current format), concatenated in order.
pub open spec fn transactions_text(txs: Seq<SignedTransaction>) -> Seq<char>
    decreases txs.len(),
{
    if txs.len() == 0 {
        seq![]
    } else {
        transactions_text(txs.drop_last()) + txs.last().message_text()
    }
}

/// The text a block's hash is taken over: index (decimal), timestamp,
/// previous hash and the transactions' messages, with no separators.
pub open spec fn hash_input(
    index: u64,
    timestamp: Seq<char>,
    previous_hash: Seq<char>,
    txs: Seq<SignedTransaction>,
) -> Seq<char> {
    decimal(index as nat) + timestamp + previous_hash + transactions_text(txs)
}

/// A block hash: lowercase hexadecimal SHA-256 of the UTF-8 bytes of
/// `hash_input`.
pub open spec fn block_hash(
    index: u64,
    timestamp: Seq<char>,
    previous_hash: Seq<char>,
    txs: Seq<SignedTransaction>,
) -> Seq<char> {
    hex_lower(sha256_digest(encode_utf8(hash_input(index, timestamp, previous_hash, txs))))
}

impl Block {
    /// The recorded hash is the hash of the block's contents.
    pub open spec fn hash_valid(self) -> bool {
        self.hash@ == block_hash(self.index, self.timestamp@, self.previous_hash@, self.transactions@)
    }

    /// The hash of a block with these contents.
    pub fn calculate_hash(
        index: u64,
        timestamp: &str,
        previous_hash: &str,
        transactions: &[SignedTransaction],
    ) -> (r: String)
        ensures
            r@ == block_hash(index, timestamp@, previous_hash@, transactions@),
            r@.len() == 64,
            all_lower_hex(r@),
    {
        let mut input = String::new();
        push_decimal(&mut input, index);
        input.append(timestamp);
        input.append(previous_hash);
        let n = transactions.len();
        for i in 0..n
            invariant
                n == transactions@.len(),
                input@ == decimal(index as nat) + timestamp@ + previous_hash@ + transactions_text(
                    transactions@.take(i as int),
                ),
        {
            let message = transactions[i].message();
            input.append(message.as_str());
            assert(transactions@.take(i + 1).drop_last() =~= transactions@.take(i as int));
            assert(input@ =~= decimal(index as nat) + timestamp@ + previous_hash@ + transactions_text(
                transactions@.take(i + 1),
            ));
        }
        assert(transactions@.take(n as int) =~= transactions@);
        let digest = sha256(input.as_str().as_bytes());
        to_hex_lower(digest.as_slice())
    }

    /// A block with the given contents and creation time, carrying its own
    /// hash.
    pub fn with_timestamp(
        index: u64,
        timestamp: String,
        previous_hash: String,
        transactions: Vec<SignedTransaction>,
    ) -> (b: Block)
        ensures
            b.index == index,
            b.timestamp@ == timestamp@,
            b.previous_hash@ == previous_hash@,
            b.transactions@ == transactions@,
            b.hash_valid(),
            b.hash@.len() == 64,
            all_lower_hex(b.hash@),
    {
        let hash = Self::calculate_hash(
            index,
            timestamp.as_str(),
            previous_hash.as_str(),
            transactions.as_slice(),
        );
        Block { index, timestamp, previous_hash, transactions, hash }
    }

    /// A block created now, carrying its own hash, or `None` where the
    /// system clock cannot be read as a date after the Unix epoch.
    pub fn new(index: u64, previous_hash: String, transactions: Vec<SignedTransaction>) -> (r:
        Option<Block>)
        ensures
            r matches Some(b) ==> {
                &&& b.index == index
                &&& b.previous_hash@ == previous_hash@
                &&& b.transactions@ == transactions@
                &&& b.hash_valid()
                &&& b.hash@.len() == 64
                &&& all_lower_hex(b.hash@)
            },
    {
        match now_rfc3339() {
            Some(timestamp) => Some(Self::with_timestamp(index, timestamp, previous_hash, transactions)),
            None => None,
        }
    }

    /// Whether the recorded hash matches the block's contents.
    pub fn is_valid(&self) -> (r: bool)
        ensures
            r == self.hash_valid(),
    {
        let calculated = Self::calculate_hash(
            self.index,
            self.timestamp.as_str(),
            self.previous_hash.as_str(),
            self.transactions.as_slice(),
        );
        self.hash == calculated
    }
}

} // verus!
