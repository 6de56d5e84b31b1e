//! Checking a chain read from storage: recovery of the supply of chains
//! stored before it was recorded, and the first failing check, if any.

use vstd::prelude::*;
use vstd::string::StringExecFns;

use crate::balances::cap_u64;
use crate::block::Block;
use crate::blockchain::{block_ok, confirmable, Blockchain, APXS_MAX_SUPPLY};
use crate::text::{decimal, push_decimal, str_eq};

verus! {

/// Why a chain read from storage is refused.
pub enum LoadError {
    MaxSupplyExceeded,
    SupplyMismatch,
    /// The block with this index has a wrong hash.
    InvalidBlockHash(u64),
    InvalidGenesisIndex,
    InvalidGenesisPreviousHash,
    /// The block with this index does not link to its predecessor's hash.
    PreviousHashMismatch(u64),
    /// The block with this index does not carry the next index.
    NumberingError(u64),
    /// The block with this index holds a transfer whose signature fails.
    InvalidTransaction(u64),
}

impl LoadError {
    /// The error's message.
    pub open spec fn text(self) -> Seq<char> {
        match self {
            LoadError::MaxSupplyExceeded => "Blockchain validation failed: maximum supply exceeded."@,
            LoadError::SupplyMismatch => "Blockchain validation failed: supply mismatch."@,
            LoadError::InvalidBlockHash(i) => "Blockchain validation failed: block #"@ + decimal(
                i as nat,
            ) + " hash is invalid."@,
            LoadError::InvalidGenesisIndex => "Invalid genesis block index."@,
            LoadError::InvalidGenesisPreviousHash => "Invalid genesis previous hash."@,
            LoadError::PreviousHashMismatch(i) => "Blockchain validation failed: block #"@
                + decimal(i as nat) + " previous hash mismatch."@,
            LoadError::NumberingError(i) => "Blockchain validation failed: block numbering error at block #"@
                + decimal(i as nat) + "."@,
            LoadError::InvalidTransaction(i) => "Blockchain validation failed: invalid transaction in block #"@
                + decimal(i as nat) + "."@,
        }
    }

    /// The error's message.
    pub fn message(&self) -> (r: String)
        ensures
            r@ == self.text(),
    {
        let mut s = String::new();
        match self {
            LoadError::MaxSupplyExceeded => {
                s.append("Blockchain validation failed: maximum supply exceeded.");
            },
            LoadError::SupplyMismatch => {
                s.append("Blockchain validation failed: supply mismatch.");
            },
            LoadError::InvalidBlockHash(i) => {
                s.append("Blockchain validation failed: block #");
                push_decimal(&mut s, *i);
                s.append(" hash is invalid.");
            },
            LoadError::InvalidGenesisIndex => {
                s.append("Invalid genesis block index.");
            },
            LoadError::InvalidGenesisPreviousHash => {
                s.append("Invalid genesis previous hash.");
            },
            LoadError::PreviousHashMismatch(i) => {
                s.append("Blockchain validation failed: block #");
                push_decimal(&mut s, *i);
                s.append(" previous hash mismatch.");
            },
            LoadError::NumberingError(i) => {
                s.append("Blockchain validation failed: block numbering error at block #");
                push_decimal(&mut s, *i);
                s.append(".");
            },
            LoadError::InvalidTransaction(i) => {
                s.append("Blockchain validation failed: invalid transaction in block #");
                push_decimal(&mut s, *i);
                s.append(".");
            },
        }
        assert(s@ =~= self.text());
        s
    }
}

/// The first failing check of block `i` when a chain is loaded: its hash;
/// for the genesis block its index and previous hash; for later blocks the
/// link to the predecessor, the index, and the transfers' signatures.
pub open spec fn block_error(blocks: Seq<Block>, i: int) -> Option<LoadError> {
    let b = blocks[i];
    if !b.hash_valid() {
        Some(LoadError::InvalidBlockHash(b.index))
    } else if i == 0 {
        if b.index != 0 {
            Some(LoadError::InvalidGenesisIndex)
        } else if b.previous_hash@ != "0"@ {
            Some(LoadError::InvalidGenesisPreviousHash)
        } else {
            None
        }
    } else if b.previous_hash@ != blocks[i - 1].hash@ {
        Some(LoadError::PreviousHashMismatch(b.index))
    } else if b.index != blocks[i - 1].index + 1 {
        Some(LoadError::NumberingError(b.index))
    } else if exists|j: int|
        0 <= j < b.transactions@.len() && !(#[trigger] b.transactions@[j]).signature_valid() {
        Some(LoadError::InvalidTransaction(b.index))
    } else {
        None
    }
}

/// The first error among the first `n` blocks, in order.
pub open spec fn first_block_error(blocks: Seq<Block>, n: int) -> Option<LoadError>
    decreases n,
{
    if n <= 0 {
        None
    } else {
        match first_block_error(blocks, n - 1) {
            Some(e) => Some(e),
            None => block_error(blocks, n - 1),
        }
    }
}

/// The recorded supply after loading: a chain stored before the supply was
/// recorded (supply zero, some balances) takes the sum of its balances,
/// where that is within the maximum.
pub open spec fn recovered_supply(c: Blockchain) -> u64 {
    if c.total_supply == 0 && c.balances@ != Map::<Seq<char>, u64>::empty() && cap_u64(
        c.balances.total() as int,
    ) <= APXS_MAX_SUPPLY {
        cap_u64(c.balances.total() as int) as u64
    } else {
        c.total_supply
    }
}

/// Why a loaded chain with recorded supply `supply` is refused, if it is:
/// the supply exceeds the maximum, differs from the sum of the balances, or
/// some block fails its checks (the first such block).
pub open spec fn load_error(c: Blockchain, supply: u64) -> Option<LoadError> {
    if supply > APXS_MAX_SUPPLY {
        Some(LoadError::MaxSupplyExceeded)
    } else if cap_u64(c.balances.total() as int) != supply {
        Some(LoadError::SupplyMismatch)
    } else {
        first_block_error(c.blocks@, c.blocks@.len() as int)
    }
}

proof fn lemma_first_error_persists(blocks: Seq<Block>, m: int, n: int)
    requires
        0 <= m <= n,
        first_block_error(blocks, m) is Some,
    ensures
        first_block_error(blocks, n) == first_block_error(blocks, m),
    decreases n - m,
{
    if n > m {
        lemma_first_error_persists(blocks, m, n - 1);
    }
}

/// A chain that `is_chain_valid` accepts passes the load checks unchanged.
pub proof fn lemma_valid_chain_loads(c: Blockchain)
    requires
        c.chain_valid(),
    ensures
        recovered_supply(c) == c.total_supply,
        load_error(c, c.total_supply) is None,
{
    lemma_valid_blocks_load(c.blocks@, c.blocks@.len() as int);
}

proof fn lemma_valid_blocks_load(blocks: Seq<Block>, n: int)
    requires
        0 <= n <= blocks.len(),
        forall|k: int| 0 <= k < blocks.len() ==> #[trigger] block_ok(blocks, k),
    ensures
        first_block_error(blocks, n) is None,
    decreases n,
{
    if n > 0 {
        lemma_valid_blocks_load(blocks, n - 1);
        assert(block_ok(blocks, n - 1));
        let b = blocks[n - 1];
        if n - 1 > 0 {
            assert forall|j: int| 0 <= j < b.transactions@.len() implies (
            #[trigger] b.transactions@[j]).signature_valid() by {
                assert(confirmable(b.transactions@[j]));
            }
        }
    }
}

impl Blockchain {
    fn block_error_at(&self, i: usize) -> (r: Option<LoadError>)
        requires
            i < self.blocks@.len(),
        ensures
            r == block_error(self.blocks@, i as int),
    {
        let block = &self.blocks[i];
        if !block.is_valid() {
            return Some(LoadError::InvalidBlockHash(block.index));
        }
        if i == 0 {
            if block.index != 0 {
                return Some(LoadError::InvalidGenesisIndex);
            }
            if !str_eq(block.previous_hash.as_str(), "0") {
                return Some(LoadError::InvalidGenesisPreviousHash);
            }
            return None;
        }
        let previous = &self.blocks[i - 1];
        if block.previous_hash != previous.hash {
            return Some(LoadError::PreviousHashMismatch(block.index));
        }
        if previous.index == u64::MAX || block.index != previous.index + 1 {
            return Some(LoadError::NumberingError(block.index));
        }
        if !Self::signatures_valid(block) {
            return Some(LoadError::InvalidTransaction(block.index));
        }
        None
    }

    fn signatures_valid(block: &Block) -> (r: bool)
        ensures
            r == (forall|k: int|
                0 <= k < block.transactions@.len() ==> (
                #[trigger] block.transactions@[k]).signature_valid()),
    {
        let n = block.transactions.len();
        for j in 0..n
            invariant
                n == block.transactions@.len(),
                forall|k: int| 0 <= k < j ==> (#[trigger] block.transactions@[k]).signature_valid(),
        {
            if !block.transactions[j].verify_signature() {
                assert(!block.transactions@[j as int].signature_valid());
                return false;
            }
        }
        true
    }

    /// Checks a chain read from storage: recovers the supply of a chain
    /// stored before the supply was recorded, then refuses it with the first
    /// failing check (see `load_error`); otherwise returns it.
    pub fn validate_loaded(self) -> (r: Result<Blockchain, LoadError>)
        ensures
            r is Ok <==> load_error(self, recovered_supply(self)) is None,
            r matches Err(e) ==> load_error(self, recovered_supply(self)) == Some(e),
            r matches Ok(c) ==> {
                &&& c.blocks == self.blocks
                &&& c.pending_transactions == self.pending_transactions
                &&& c.balances == self.balances
                &&& c.total_supply == recovered_supply(self)
            },
    {
        let ghost stored = self;
        let mut chain = self;
        if chain.total_supply == 0 && !chain.balances.is_empty() {
            let calculated = chain.calculated_supply();
            if calculated <= APXS_MAX_SUPPLY {
                chain.total_supply = calculated;
            }
        }
        assert(chain.total_supply == recovered_supply(stored));
        if chain.total_supply > APXS_MAX_SUPPLY {
            return Err(LoadError::MaxSupplyExceeded);
        }
        if chain.calculated_supply() != chain.total_supply {
            return Err(LoadError::SupplyMismatch);
        }
        let n = chain.blocks.len();
        for i in 0..n
            invariant
                n == chain.blocks@.len(),
                stored == self,
                chain.blocks == stored.blocks,
                chain.balances == stored.balances,
                chain.pending_transactions == stored.pending_transactions,
                chain.total_supply == recovered_supply(stored),
                chain.total_supply <= APXS_MAX_SUPPLY,
                cap_u64(chain.balances.total() as int) == chain.total_supply,
                first_block_error(chain.blocks@, i as int) is None,
        {
            match chain.block_error_at(i) {
                Some(e) => {
                    proof {
                        assert(first_block_error(chain.blocks@, i + 1) == Some(e));
                        lemma_first_error_persists(chain.blocks@, i + 1, n as int);
                    }
                    return Err(e);
                },
                None => {},
            }
        }
        Ok(chain)
    }
}

} // verus!
