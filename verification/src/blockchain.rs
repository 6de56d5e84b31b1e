//! The APXS chain: blocks, the mempool of pending transfers, the ledger and
//! the recorded supply; genesis minting, admission of transfers, mining,
//! validation and synchronisation with a peer's chain.

use vstd::prelude::*;

use crate::balances::{amount_of, cap_u64, Balances};
use crate::block::Block;
use crate::crypto::now_rfc3339;
use crate::text::str_eq;
use crate::transaction::{same_transfer, SignedTransaction};

verus! {

/// Maximum APXS supply, in atomic units (one billion APXS, eight decimals).
pub const APXS_MAX_SUPPLY: u64 = 100_000_000_000_000_000;

/// Minimum transaction fee, in atomic units.
pub const APXS_DEFAULT_FEE: u64 = 100_000;

/// Internal address where transaction fees are collected.
pub const APXS_FEE_POOL_ADDRESS: &'static str = "apxs_fee_pool";

/// The fee pool's address as text.
pub open spec fn fee_pool() -> Seq<char> {
    "apxs_fee_pool"@
}

/// A transfer that may stand in a confirmed block: its signature checks out
/// and its fee is either the legacy zero or at least the minimum.
pub open spec fn confirmable(tx: SignedTransaction) -> bool {
    &&& tx.signature_valid()
    &&& (tx.fee == 0 || tx.fee >= APXS_DEFAULT_FEE)
}

/// Block `i` is consistent with its place in `blocks`: its hash is right;
/// the genesis block has index 0, previous hash `"0"` and no transfers;
/// every later block links to its predecessor's hash, carries the next index,
/// and holds only confirmable transfers.
pub open spec fn block_ok(blocks: Seq<Block>, i: int) -> bool {
    let b = blocks[i];
    &&& b.hash_valid()
    &&& if i == 0 {
        &&& b.index == 0
        &&& b.previous_hash@ == "0"@
        &&& b.transactions@.len() == 0
    } else {
        &&& b.previous_hash@ == blocks[i - 1].hash@
        &&& b.index == blocks[i - 1].index + 1
        &&& forall|j: int|
            0 <= j < b.transactions@.len() ==> #[trigger] confirmable(b.transactions@[j])
    }
}

/// What the sender has committed in `pending`: amount plus fee of each of
/// its pending transfers, summed in order, each addition capped at
/// `u64::MAX`.
pub open spec fn pending_outgoing(pending: Seq<SignedTransaction>, sender: Seq<char>) -> int
    decreases pending.len(),
{
    if pending.len() == 0 {
        0
    } else {
        let prev = pending_outgoing(pending.drop_last(), sender);
        let tx = pending.last();
        if tx.sender@ == sender {
            cap_u64(cap_u64(prev + tx.amount) + tx.fee)
        } else {
            prev
        }
    }
}

/// A transfer passes admission's checks on the transfer alone.
pub open spec fn admissible(tx: SignedTransaction) -> bool {
    &&& tx.signature_valid()
    &&& tx.fee >= APXS_DEFAULT_FEE
    &&& tx.amount + tx.fee <= u64::MAX
}

/// The exact sum of amount plus fee over the sender's transfers in
/// `pending`.
pub open spec fn pending_total(pending: Seq<SignedTransaction>, sender: Seq<char>) -> int
    decreases pending.len(),
{
    if pending.len() == 0 {
        0
    } else {
        let tx = pending.last();
        pending_total(pending.drop_last(), sender) + if tx.sender@ == sender {
            tx.amount + tx.fee
        } else {
            0int
        }
    }
}

/// Some transfer of `txs` is the same transfer as `tx`.
pub open spec fn has_duplicate(txs: Seq<SignedTransaction>, tx: SignedTransaction) -> bool {
    exists|j: int| 0 <= j < txs.len() && #[trigger] same_transfer(txs[j], tx)
}

/// Some confirmed transfer in `blocks` is the same transfer as `tx`.
pub open spec fn confirmed_duplicate(blocks: Seq<Block>, tx: SignedTransaction) -> bool {
    exists|b: int| 0 <= b < blocks.len() && #[trigger] has_duplicate(blocks[b].transactions@, tx)
}

/// No two transfers of `txs` are the same transfer.
pub open spec fn no_duplicates(txs: Seq<SignedTransaction>) -> bool {
    forall|i: int, j: int| 0 <= i < j < txs.len() ==> !same_transfer(#[trigger] txs[i], #[trigger] txs[j])
}

/// `a - b`, or zero where `b > a`.
pub open spec fn sat_sub(a: int, b: int) -> int {
    if a >= b {
        a - b
    } else {
        0
    }
}

/// Whether mining can execute `tx` against the balances `bal`: its signature
/// checks out, it pays at least the minimum fee, amount plus fee fits in a
/// `u64`, and the sender's balance covers it.
pub open spec fn executable(bal: Map<Seq<char>, u64>, tx: SignedTransaction) -> bool {
    &&& tx.signature_valid()
    &&& tx.fee >= APXS_DEFAULT_FEE
    &&& tx.amount + tx.fee <= u64::MAX
    &&& amount_of(bal, tx.sender@) >= tx.amount + tx.fee
}

/// The balances after executing `tx`: the sender pays amount plus fee, the
/// recipient receives the amount and the fee pool the fee (each credit
/// capped at `u64::MAX`), in that order.
pub open spec fn execute(bal: Map<Seq<char>, u64>, tx: SignedTransaction) -> Map<Seq<char>, u64> {
    let b1 = bal.insert(tx.sender@, (amount_of(bal, tx.sender@) - (tx.amount + tx.fee)) as u64);
    let b2 = b1.insert(tx.recipient@, cap_u64(amount_of(b1, tx.recipient@) + tx.amount) as u64);
    b2.insert(fee_pool(), cap_u64(amount_of(b2, fee_pool()) + tx.fee) as u64)
}

/// The balances after mining `txs` in order from `bal`, skipping those
/// that are not executable at their turn.
pub open spec fn mined_balances(bal: Map<Seq<char>, u64>, txs: Seq<SignedTransaction>) -> Map<
    Seq<char>,
    u64,
>
    decreases txs.len(),
{
    if txs.len() == 0 {
        bal
    } else {
        let b = mined_balances(bal, txs.drop_last());
        if executable(b, txs.last()) {
            execute(b, txs.last())
        } else {
            b
        }
    }
}

/// The transfers of `txs` that mining from `bal` executes, in order.
pub open spec fn mined_transactions(bal: Map<Seq<char>, u64>, txs: Seq<SignedTransaction>) -> Seq<
    SignedTransaction,
>
    decreases txs.len(),
{
    if txs.len() == 0 {
        seq![]
    } else {
        let v = mined_transactions(bal, txs.drop_last());
        if executable(mined_balances(bal, txs.drop_last()), txs.last()) {
            v.push(txs.last())
        } else {
            v
        }
    }
}

/// How `mine_pending_transactions` turns `before` into `after` (the new
/// block's timestamp aside): with an empty mempool nothing changes;
/// otherwise the mempool is emptied, the executable transfers update the
/// balances, and, where there is at least one, a block holding them, linked
/// to the last block and carrying its own hash, is appended.
pub open spec fn mining_step(before: Blockchain, after: Blockchain) -> bool {
    if before.pending_transactions@.len() == 0 {
        after == before
    } else {
        let included = mined_transactions(before.balances@, before.pending_transactions@);
        &&& after.pending_transactions@.len() == 0
        &&& after.balances@ == mined_balances(before.balances@, before.pending_transactions@)
        &&& after.total_supply == before.total_supply
        &&& included.len() == 0 ==> after.blocks == before.blocks
        &&& included.len() > 0 ==> {
            &&& after.blocks@.len() == before.blocks@.len() + 1
            &&& after.blocks@.drop_last() == before.blocks@
            &&& after.blocks@.last().index == before.blocks@.len()
            &&& after.blocks@.last().previous_hash@ == before.blocks@.last().hash@
            &&& after.blocks@.last().transactions@ == included
            &&& after.blocks@.last().hash_valid()
        }
    }
}

/// In a chain whose blocks are all consistent, each block's index is its
/// position.
pub proof fn lemma_index_is_position(blocks: Seq<Block>, i: int)
    requires
        0 <= i < blocks.len(),
        forall|k: int| 0 <= k < blocks.len() ==> #[trigger] block_ok(blocks, k),
    ensures
        blocks[i].index == i,
    decreases i,
{
    assert(block_ok(blocks, i));
    if i > 0 {
        lemma_index_is_position(blocks, i - 1);
    }
}

/// Every transfer that mining executes is confirmable.
pub proof fn lemma_mined_confirmable(bal: Map<Seq<char>, u64>, txs: Seq<SignedTransaction>)
    ensures
        forall|j: int|
            0 <= j < mined_transactions(bal, txs).len() ==> #[trigger] confirmable(
                mined_transactions(bal, txs)[j],
            ),
    decreases txs.len(),
{
    if txs.len() > 0 {
        lemma_mined_confirmable(bal, txs.drop_last());
        let v = mined_transactions(bal, txs.drop_last());
        if executable(mined_balances(bal, txs.drop_last()), txs.last()) {
            assert forall|j: int| 0 <= j < v.push(txs.last()).len() implies #[trigger] confirmable(
                v.push(txs.last())[j],
            ) by {
                if j < v.len() {
                    assert(v.push(txs.last())[j] == v[j]);
                }
            }
        }
    }
}

/// The APXS chain and its state.
pub struct Blockchain {
    pub blocks: Vec<Block>,
    pub pending_transactions: Vec<SignedTransaction>,
    pub balances: Balances,
    pub total_supply: u64,
}

impl Blockchain {
    /// The recorded supply is within the maximum and equals the sum of all
    /// balances (capped at `u64::MAX`).
    pub open spec fn supply_ok(self) -> bool {
        &&& self.total_supply <= APXS_MAX_SUPPLY
        &&& cap_u64(self.balances.total() as int) == self.total_supply
    }

    /// When `is_chain_valid` accepts the chain.
    pub open spec fn chain_valid(self) -> bool {
        &&& self.blocks@.len() > 0
        &&& self.supply_ok()
        &&& forall|i: int| 0 <= i < self.blocks@.len() ==> #[trigger] block_ok(self.blocks@, i)
    }

    /// For every sender, the amounts plus fees of its pending transfers sum
    /// to at most its confirmed balance.
    pub open spec fn mempool_covered(self) -> bool {
        forall|s: Seq<char>|
            #[trigger] pending_total(self.pending_transactions@, s) <= amount_of(
                self.balances@,
                s,
            )
    }

    /// Every pending transfer passed admission's own checks: its signature
    /// checks out, it pays at least the minimum fee, and amount plus fee fits
    /// in a `u64`.
    pub open spec fn mempool_admissible(self) -> bool {
        forall|j: int|
            0 <= j < self.pending_transactions@.len() ==> #[trigger] admissible(
                self.pending_transactions@[j],
            )
    }

    /// When `add_transaction` admits `tx` to the mempool: its signature checks
    /// out, it pays at least the minimum fee, it repeats no pending or
    /// confirmed transfer, amount plus fee fits in a `u64`, and the sender's
    /// confirmed balance less what it has pending covers amount plus fee.
    pub open spec fn accepts(self, tx: SignedTransaction) -> bool {
        &&& tx.signature_valid()
        &&& tx.fee >= APXS_DEFAULT_FEE
        &&& !has_duplicate(self.pending_transactions@, tx)
        &&& !confirmed_duplicate(self.blocks@, tx)
        &&& tx.amount + tx.fee <= u64::MAX
        &&& sat_sub(
            amount_of(self.balances@, tx.sender@) as int,
            pending_outgoing(self.pending_transactions@, tx.sender@),
        ) >= tx.amount + tx.fee
    }

    /// The token's name.
    pub fn token_name() -> (r: &'static str)
        ensures
            r@ == "Apraxus"@,
    {
        "Apraxus"
    }

    /// The token's symbol.
    pub fn token_symbol() -> (r: &'static str)
        ensures
            r@ == "APXS"@,
    {
        "APXS"
    }

    /// The number of decimal places of one APXS.
    pub fn decimals() -> (r: u8)
        ensures
            r == 8,
    {
        8
    }

    /// The maximum supply, in atomic units.
    pub fn max_supply() -> (r: u64)
        ensures
            r == APXS_MAX_SUPPLY,
    {
        APXS_MAX_SUPPLY
    }

    /// Atomic units in one APXS.
    pub fn atomic_units_per_apxs() -> (r: u64)
        ensures
            r == 100_000_000,
    {
        100_000_000
    }

    /// The minimum transaction fee, in atomic units.
    pub fn default_fee() -> (r: u64)
        ensures
            r == APXS_DEFAULT_FEE,
    {
        APXS_DEFAULT_FEE
    }

    /// A chain holding only a genesis block stamped `timestamp`, with no
    /// balances.
    pub fn with_genesis_timestamp(timestamp: String) -> (r: Blockchain)
        ensures
            r.blocks@.len() == 1,
            r.blocks@[0].index == 0,
            r.blocks@[0].timestamp@ == timestamp@,
            r.blocks@[0].previous_hash@ == "0"@,
            r.blocks@[0].transactions@.len() == 0,
            r.pending_transactions@.len() == 0,
            r.balances@ == Map::<Seq<char>, u64>::empty(),
            r.total_supply == 0,
            r.chain_valid(),
            r.mempool_covered(),
            r.mempool_admissible(),
    {
        let genesis = Block::with_timestamp(0, timestamp, "0".to_owned(), Vec::new());
        let mut blocks: Vec<Block> = Vec::new();
        blocks.push(genesis);
        let r = Blockchain {
            blocks,
            pending_transactions: Vec::new(),
            balances: Balances::new(),
            total_supply: 0,
        };
        assert(block_ok(r.blocks@, 0));
        r
    }

    /// A chain holding only a genesis block made now, with no balances, or
    /// `None` where the system clock cannot be read as a date after the Unix
    /// epoch.
    pub fn new() -> (r: Option<Blockchain>)
        ensures
            r matches Some(c) ==> {
                &&& c.blocks@.len() == 1
                &&& c.blocks@[0].index == 0
                &&& c.blocks@[0].previous_hash@ == "0"@
                &&& c.blocks@[0].transactions@.len() == 0
                &&& c.pending_transactions@.len() == 0
                &&& c.balances@ == Map::<Seq<char>, u64>::empty()
                &&& c.total_supply == 0
                &&& c.chain_valid()
                &&& c.mempool_covered()
                &&& c.mempool_admissible()
            },
    {
        match now_rfc3339() {
            Some(timestamp) => Some(Self::with_genesis_timestamp(timestamp)),
            None => None,
        }
    }

    /// Mints `amount` to a new `address`, unless the address already has a
    /// balance or the supply would exceed the maximum; then nothing changes.
    pub fn add_genesis_balance(&mut self, address: String, amount: u64)
        ensures
            ({
                let ok = !old(self).balances@.contains_key(address@) && old(self).total_supply
                    + amount <= APXS_MAX_SUPPLY;
                &&& ok ==> {
                    &&& final(self).balances@ == old(self).balances@.insert(address@, amount)
                    &&& final(self).balances.total() == old(self).balances.total() + amount
                    &&& final(self).total_supply == old(self).total_supply + amount
                    &&& final(self).blocks == old(self).blocks
                    &&& final(self).pending_transactions == old(self).pending_transactions
                }
                &&& !ok ==> *final(self) == *old(self)
            }),
            old(self).total_supply <= APXS_MAX_SUPPLY ==> final(self).total_supply
                <= APXS_MAX_SUPPLY,
            old(self).chain_valid() ==> final(self).chain_valid(),
            old(self).mempool_covered() ==> final(self).mempool_covered(),
    {
        if self.balances.contains_key(address.as_str()) {
            return;
        }
        let new_total = match self.total_supply.checked_add(amount) {
            Some(value) => value,
            None => {
                return;
            },
        };
        if new_total > APXS_MAX_SUPPLY {
            return;
        }
        self.balances.insert(address, amount);
        self.total_supply = new_total;
        proof {
            if old(self).chain_valid() {
                assert forall|i: int| 0 <= i < self.blocks@.len() implies #[trigger] block_ok(
                    self.blocks@,
                    i,
                ) by {
                    assert(block_ok(old(self).blocks@, i));
                }
            }
        }
    }

    /// The confirmed balance of `address` (zero where none is recorded).
    pub fn balance_of(&self, address: &str) -> (r: u64)
        ensures
            r == amount_of(self.balances@, address@),
            r <= self.balances.total(),
    {
        self.balances.amount(address)
    }

    /// The fee pool's balance.
    pub fn fee_pool_balance(&self) -> (r: u64)
        ensures
            r == amount_of(self.balances@, fee_pool()),
    {
        self.balance_of(APXS_FEE_POOL_ADDRESS)
    }

    /// The number of blocks.
    pub fn block_count(&self) -> (r: usize)
        ensures
            r == self.blocks@.len(),
    {
        self.blocks.len()
    }

    /// The sum of all balances, `u64::MAX` where it does not fit.
    pub fn calculated_supply(&self) -> (r: u64)
        ensures
            r == cap_u64(self.balances.total() as int),
    {
        self.balances.saturating_total()
    }

    /// Whether every transfer of `block` is confirmable.
    fn transactions_confirmable(block: &Block) -> (r: bool)
        ensures
            r == (forall|j: int|
                0 <= j < block.transactions@.len() ==> #[trigger] confirmable(
                    block.transactions@[j],
                )),
    {
        let n = block.transactions.len();
        for j in 0..n
            invariant
                n == block.transactions@.len(),
                forall|k: int| 0 <= k < j ==> #[trigger] confirmable(block.transactions@[k]),
        {
            let tx = &block.transactions[j];
            if !tx.verify_signature() {
                assert(!confirmable(block.transactions@[j as int]));
                return false;
            }
            if tx.fee != 0 && tx.fee < APXS_DEFAULT_FEE {
                assert(!confirmable(block.transactions@[j as int]));
                return false;
            }
        }
        true
    }

    /// Whether block `i` is consistent with its place in the chain.
    fn check_block(&self, i: usize) -> (r: bool)
        requires
            i < self.blocks@.len(),
        ensures
            r == block_ok(self.blocks@, i as int),
    {
        let current = &self.blocks[i];
        if !current.is_valid() {
            return false;
        }
        if i == 0 {
            current.index == 0 && str_eq(current.previous_hash.as_str(), "0")
                && current.transactions.len() == 0
        } else {
            let previous = &self.blocks[i - 1];
            if current.previous_hash != previous.hash {
                return false;
            }
            if previous.index == u64::MAX || current.index != previous.index + 1 {
                return false;
            }
            Self::transactions_confirmable(current)
        }
    }

    /// Whether the chain is non-empty, its supply is within the maximum and
    /// matches the balances, and every block is consistent with its place.
    pub fn is_chain_valid(&self) -> (r: bool)
        ensures
            r == self.chain_valid(),
    {
        if self.blocks.len() == 0 {
            return false;
        }
        if self.total_supply > APXS_MAX_SUPPLY {
            return false;
        }
        if self.calculated_supply() != self.total_supply {
            return false;
        }
        let n = self.blocks.len();
        for i in 0..n
            invariant
                n == self.blocks@.len(),
                forall|k: int| 0 <= k < i ==> #[trigger] block_ok(self.blocks@, k),
        {
            if !self.check_block(i) {
                return false;
            }
        }
        true
    }

    /// Whether two transactions are the same transfer.
    fn same_transaction(a: &SignedTransaction, b: &SignedTransaction) -> (r: bool)
        ensures
            r == same_transfer(*a, *b),
    {
        a.sender == b.sender && a.recipient == b.recipient && a.amount == b.amount && a.fee
            == b.fee && a.nonce == b.nonce
    }

    fn duplicate_in(txs: &Vec<SignedTransaction>, tx: &SignedTransaction) -> (r: bool)
        ensures
            r == has_duplicate(txs@, *tx),
    {
        let n = txs.len();
        for j in 0..n
            invariant
                n == txs@.len(),
                forall|k: int| 0 <= k < j ==> !#[trigger] same_transfer(txs@[k], *tx),
        {
            if Self::same_transaction(&txs[j], tx) {
                return true;
            }
        }
        false
    }

    fn pending_outgoing_of(&self, sender: &String) -> (r: u64)
        ensures
            r == pending_outgoing(self.pending_transactions@, sender@),
    {
        let n = self.pending_transactions.len();
        let mut total: u64 = 0;
        for j in 0..n
            invariant
                n == self.pending_transactions@.len(),
                total == pending_outgoing(self.pending_transactions@.take(j as int), sender@),
        {
            let pending = &self.pending_transactions[j];
            assert(self.pending_transactions@.take(j + 1).drop_last()
                =~= self.pending_transactions@.take(j as int));
            if pending.sender == *sender {
                total = total.saturating_add(pending.amount).saturating_add(pending.fee);
            }
        }
        assert(self.pending_transactions@.take(n as int) =~= self.pending_transactions@);
        total
    }

    /// Admits `transaction` to the mempool when `accepts` holds, and reports
    /// whether it did; otherwise nothing changes.
    pub fn add_transaction(&mut self, transaction: SignedTransaction) -> (r: bool)
        ensures
            r == old(self).accepts(transaction),
            r ==> {
                &&& final(self).pending_transactions@ == old(
                    self,
                ).pending_transactions@.push(transaction)
                &&& final(self).blocks == old(self).blocks
                &&& final(self).balances == old(self).balances
                &&& final(self).total_supply == old(self).total_supply
            },
            !r ==> *final(self) == *old(self),
            no_duplicates(old(self).pending_transactions@) ==> no_duplicates(
                final(self).pending_transactions@,
            ),
            r ==> pending_total(final(self).pending_transactions@, transaction.sender@)
                <= amount_of(final(self).balances@, transaction.sender@),
            old(self).mempool_covered() ==> final(self).mempool_covered(),
            old(self).mempool_admissible() ==> final(self).mempool_admissible(),
            old(self).chain_valid() ==> final(self).chain_valid(),
    {
        if !transaction.verify_signature() {
            return false;
        }
        if transaction.fee < APXS_DEFAULT_FEE {
            return false;
        }
        if Self::duplicate_in(&self.pending_transactions, &transaction) {
            return false;
        }
        let n = self.blocks.len();
        for b in 0..n
            invariant
                n == self.blocks@.len(),
                forall|k: int|
                    0 <= k < b ==> !#[trigger] has_duplicate(self.blocks@[k].transactions@, transaction),
        {
            if Self::duplicate_in(&self.blocks[b].transactions, &transaction) {
                return false;
            }
        }
        let confirmed_balance = self.balance_of(transaction.sender.as_str());
        let outgoing = self.pending_outgoing_of(&transaction.sender);
        let required = match transaction.amount.checked_add(transaction.fee) {
            Some(value) => value,
            None => {
                return false;
            },
        };
        let available_balance = confirmed_balance.saturating_sub(outgoing);
        if available_balance < required {
            return false;
        }
        let ghost before = self.pending_transactions@;
        proof {
            lemma_outgoing_is_total(before, transaction.sender@);
        }
        self.pending_transactions.push(transaction);
        proof {
            assert(self.pending_transactions@.drop_last() =~= before);
            if old(self).mempool_admissible() {
                assert forall|j: int| 0 <= j < self.pending_transactions@.len() implies #[trigger] admissible(
                    self.pending_transactions@[j],
                ) by {
                    if j < before.len() {
                        assert(before[j] == self.pending_transactions@[j]);
                    }
                }
            }
            if old(self).mempool_covered() {
                assert forall|x: Seq<char>|
                    #[trigger] pending_total(self.pending_transactions@, x) <= amount_of(
                        self.balances@,
                        x,
                    ) by {
                    assert(pending_total(before, x) <= amount_of(self.balances@, x));
                }
            }
            assert forall|i: int, j: int|
                0 <= i < j < self.pending_transactions@.len() && no_duplicates(
                    before,
                ) implies !same_transfer(
                #[trigger] self.pending_transactions@[i],
                #[trigger] self.pending_transactions@[j],
            ) by {
                if j == before.len() {
                    assert(before[i] == self.pending_transactions@[i]);
                    if same_transfer(self.pending_transactions@[i], self.pending_transactions@[j]) {
                        assert(same_transfer(before[i], transaction));
                    }
                } else {
                    assert(before[i] == self.pending_transactions@[i]);
                    assert(before[j] == self.pending_transactions@[j]);
                }
            }
        }
        true
    }

    /// Mines the mempool into a block stamped `timestamp` (see
    /// `mining_step`). Mining keeps the sum of all balances where it fits in
    /// a `u64`, and keeps a valid chain valid.
    pub fn mine_pending_transactions_at(&mut self, timestamp: String)
        requires
            old(self).pending_transactions@.len() > 0 ==> old(self).blocks@.len() > 0,
        ensures
            mining_step(*old(self), *final(self)),
            old(self).pending_transactions@.len() > 0 && mined_transactions(
                old(self).balances@,
                old(self).pending_transactions@,
            ).len() > 0 ==> final(self).blocks@.last().timestamp@ == timestamp@,
            old(self).balances.total() <= u64::MAX ==> final(self).balances.total() == old(
                self,
            ).balances.total(),
            old(self).chain_valid() ==> final(self).chain_valid(),
            old(self).mempool_covered() ==> final(self).mempool_covered(),
    {
        if self.pending_transactions.len() == 0 {
            return;
        }
        let previous_hash = self.blocks[self.blocks.len() - 1].hash.clone();
        let mut transactions: Vec<SignedTransaction> = Vec::new();
        std::mem::swap(&mut transactions, &mut self.pending_transactions);
        let ghost orig = transactions@;
        let ghost bal0 = self.balances@;
        let ghost total0 = self.balances.total();
        let mut valid: Vec<SignedTransaction> = Vec::new();
        let n = transactions.len();
        let mut k: usize = 0;
        assert(orig.take(0) =~= Seq::<SignedTransaction>::empty());
        assert(orig.skip(0) =~= orig);
        while k < n
            invariant
                k <= n,
                n == orig.len(),
                orig == old(self).pending_transactions@,
                bal0 == old(self).balances@,
                total0 == old(self).balances.total(),
                transactions@ == orig.skip(k as int),
                self.balances@ == mined_balances(bal0, orig.take(k as int)),
                valid@ == mined_transactions(bal0, orig.take(k as int)),
                total0 <= u64::MAX ==> self.balances.total() == total0,
                self.blocks == old(self).blocks,
                self.total_supply == old(self).total_supply,
                self.pending_transactions@.len() == 0,
            decreases n - k,
        {
            let transaction = transactions.remove(0);
            proof {
                assert(orig.take(k + 1).drop_last() =~= orig.take(k as int));
                assert(orig.take(k + 1).last() == orig[k as int]);
                assert(transactions@ =~= orig.skip(k + 1));
            }
            k = k + 1;
            if !transaction.verify_signature() {
                continue;
            }
            if transaction.fee < APXS_DEFAULT_FEE {
                continue;
            }
            let total_cost = match transaction.amount.checked_add(transaction.fee) {
                Some(value) => value,
                None => {
                    continue;
                },
            };
            let sender_balance = self.balance_of(transaction.sender.as_str());
            if sender_balance < total_cost {
                continue;
            }
            let ghost t0 = self.balances.total();
            self.balances.insert(transaction.sender.clone(), sender_balance - total_cost);
            let ghost t1 = self.balances.total();
            assert(t1 == t0 - total_cost);
            assert(total0 <= u64::MAX ==> t0 == total0);
            let recipient_balance = self.balance_of(transaction.recipient.as_str());
            assert(recipient_balance <= t1);
            assert(total_cost == transaction.amount + transaction.fee);
            let credited = recipient_balance.saturating_add(transaction.amount);
            assert(total0 <= u64::MAX ==> credited == recipient_balance + transaction.amount);
            self.balances.insert(transaction.recipient.clone(), credited);
            let ghost t2 = self.balances.total();
            assert(t2 == t1 - recipient_balance + credited);
            let pool_balance = self.balance_of(APXS_FEE_POOL_ADDRESS);
            let collected = pool_balance.saturating_add(transaction.fee);
            assert(total0 <= u64::MAX ==> collected == pool_balance + transaction.fee);
            self.balances.insert(APXS_FEE_POOL_ADDRESS.to_owned(), collected);
            assert(total0 <= u64::MAX ==> self.balances.total() == total0);
            valid.push(transaction);
        }
        assert(orig.take(n as int) =~= orig);
        if valid.len() == 0 {
            return;
        }
        let ghost old_blocks = self.blocks@;
        let block = Block::with_timestamp(self.blocks.len() as u64, timestamp, previous_hash, valid);
        self.blocks.push(block);
        proof {
            assert(self.blocks@.drop_last() =~= old_blocks);
            if old(self).chain_valid() {
                lemma_index_is_position(old_blocks, old_blocks.len() - 1);
                lemma_mined_confirmable(bal0, orig);
                assert forall|i: int| 0 <= i < self.blocks@.len() implies #[trigger] block_ok(
                    self.blocks@,
                    i,
                ) by {
                    if i < old_blocks.len() {
                        assert(block_ok(old_blocks, i));
                        assert(self.blocks@[i] == old_blocks[i]);
                        if i > 0 {
                            assert(self.blocks@[i - 1] == old_blocks[i - 1]);
                        }
                    } else {
                        assert(self.blocks@[i - 1] == old_blocks[i - 1]);
                    }
                }
            }
        }
    }

    /// Mines the mempool into a block stamped with the current time (see
    /// `mining_step`) and reports `true`; where the mempool is not empty and
    /// the system clock cannot be read as a date after the Unix epoch, it
    /// changes nothing and reports `false`. Mining keeps the sum of all
    /// balances where it fits in a `u64`, and keeps a valid chain valid.
    pub fn mine_pending_transactions(&mut self) -> (r: bool)
        requires
            old(self).pending_transactions@.len() > 0 ==> old(self).blocks@.len() > 0,
        ensures
            r ==> mining_step(*old(self), *final(self)),
            !r ==> old(self).pending_transactions@.len() > 0 && *final(self) == *old(self),
            old(self).balances.total() <= u64::MAX ==> final(self).balances.total() == old(
                self,
            ).balances.total(),
            old(self).chain_valid() ==> final(self).chain_valid(),
            old(self).mempool_covered() ==> final(self).mempool_covered(),
    {
        if self.pending_transactions.len() == 0 {
            return true;
        }
        match now_rfc3339() {
            Some(timestamp) => {
                self.mine_pending_transactions_at(timestamp);
                true
            },
            None => false,
        }
    }

    /// Replaces this chain by `incoming` when `incoming` is valid and has
    /// more blocks, and reports whether it did; otherwise nothing changes.
    pub fn replace_if_longer(&mut self, incoming: Blockchain) -> (r: bool)
        ensures
            r == (incoming.chain_valid() && incoming.blocks@.len() > old(self).blocks@.len()),
            r ==> *final(self) == incoming,
            !r ==> *final(self) == *old(self),
            final(self).blocks@.len() >= old(self).blocks@.len(),
            old(self).chain_valid() ==> final(self).chain_valid(),
    {
        if !incoming.is_chain_valid() {
            return false;
        }
        if incoming.blocks.len() <= self.blocks.len() {
            return false;
        }
        *self = incoming;
        true
    }

    /// Synchronises with a peer's chain: adopts it when it is valid and
    /// longer, and reports whether it did; otherwise nothing changes.
    pub fn replace_with_peer(&mut self, peer_blockchain: Blockchain) -> (r: bool)
        ensures
            r == (peer_blockchain.chain_valid() && peer_blockchain.blocks@.len() > old(
                self,
            ).blocks@.len()),
            r ==> *final(self) == peer_blockchain,
            !r ==> *final(self) == *old(self),
            final(self).blocks@.len() >= old(self).blocks@.len(),
            old(self).chain_valid() ==> final(self).chain_valid(),
    {
        if !peer_blockchain.is_chain_valid() {
            return false;
        }
        if peer_blockchain.blocks.len() <= self.blocks.len() {
            return false;
        }
        *self = peer_blockchain;
        true
    }

    /// Whether this chain has more blocks than `other`.
    pub fn is_longer_than(&self, other: &Blockchain) -> (r: bool)
        ensures
            r == (self.blocks@.len() > other.blocks@.len()),
    {
        self.blocks.len() > other.blocks.len()
    }
}

/// Replay protection: a transfer that matches one confirmed in some block
/// (same sender, recipient, amount, fee and nonce) is never admitted again.
pub proof fn lemma_confirmed_transfer_refused(chain: Blockchain, tx: SignedTransaction, b: int, j: int)
    requires
        0 <= b < chain.blocks@.len(),
        0 <= j < chain.blocks@[b].transactions@.len(),
        same_transfer(chain.blocks@[b].transactions@[j], tx),
    ensures
        !chain.accepts(tx),
{
    assert(has_duplicate(chain.blocks@[b].transactions@, tx));
}

/// In a valid chain the recorded supply is exactly the sum of all balances.
pub proof fn lemma_valid_supply_is_exact(chain: Blockchain)
    requires
        chain.chain_valid(),
    ensures
        chain.balances.total() == chain.total_supply,
{
}

proof fn lemma_total_nonnegative(pending: Seq<SignedTransaction>, s: Seq<char>)
    ensures
        0 <= pending_total(pending, s),
        pending.len() > 0 ==> pending_total(pending.drop_last(), s) <= pending_total(pending, s),
    decreases pending.len(),
{
    if pending.len() > 0 {
        lemma_total_nonnegative(pending.drop_last(), s);
    }
}

/// The capped running sum that admission computes is the exact sum wherever
/// it stays below `u64::MAX` or the exact sum fits in a `u64`.
proof fn lemma_outgoing_is_total(pending: Seq<SignedTransaction>, s: Seq<char>)
    ensures
        0 <= pending_outgoing(pending, s) <= u64::MAX,
        pending_outgoing(pending, s) < u64::MAX || pending_total(pending, s) <= u64::MAX
            ==> pending_outgoing(pending, s) == pending_total(pending, s),
    decreases pending.len(),
{
    if pending.len() > 0 {
        lemma_outgoing_is_total(pending.drop_last(), s);
        lemma_total_nonnegative(pending, s);
    }
}

/// Executing a transfer takes amount plus fee from the sender at most once
/// and never lowers anyone else's balance.
proof fn lemma_execute_bounds(bal: Map<Seq<char>, u64>, tx: SignedTransaction, s: Seq<char>)
    requires
        executable(bal, tx),
    ensures
        s == tx.sender@ ==> amount_of(execute(bal, tx), s) >= amount_of(bal, s) - (tx.amount
            + tx.fee),
        s != tx.sender@ ==> amount_of(execute(bal, tx), s) >= amount_of(bal, s),
{
}

proof fn lemma_covered_txs_all_mined(bal: Map<Seq<char>, u64>, txs: Seq<SignedTransaction>)
    requires
        forall|j: int| 0 <= j < txs.len() ==> #[trigger] admissible(txs[j]),
        forall|s: Seq<char>| #[trigger] pending_total(txs, s) <= amount_of(bal, s),
    ensures
        mined_transactions(bal, txs) == txs,
        forall|s: Seq<char>|
            amount_of(#[trigger] mined_balances(bal, txs), s) + pending_total(txs, s) >= amount_of(
                bal,
                s,
            ),
    decreases txs.len(),
{
    if txs.len() > 0 {
        let p = txs.drop_last();
        let t = txs.last();
        assert forall|s: Seq<char>| #[trigger] pending_total(p, s) <= amount_of(bal, s) by {
            lemma_total_nonnegative(txs, s);
            assert(pending_total(txs, s) <= amount_of(bal, s));
        }
        assert forall|j: int| 0 <= j < p.len() implies #[trigger] admissible(p[j]) by {
            assert(p[j] == txs[j]);
        }
        lemma_covered_txs_all_mined(bal, p);
        let b = mined_balances(bal, p);
        assert(admissible(txs[txs.len() - 1]));
        assert(pending_total(txs, t.sender@) <= amount_of(bal, t.sender@));
        assert(amount_of(b, t.sender@) + pending_total(p, t.sender@) >= amount_of(
            bal,
            t.sender@,
        ));
        assert(executable(b, t));
        assert(mined_transactions(bal, txs) =~= txs);
        assert forall|s: Seq<char>|
            amount_of(#[trigger] mined_balances(bal, txs), s) + pending_total(txs, s)
                >= amount_of(bal, s) by {
            lemma_execute_bounds(b, t, s);
            assert(amount_of(b, s) + pending_total(p, s) >= amount_of(bal, s));
        }
    }
}

/// Whatever admission let into the mempool gets mined: where every pending
/// transfer passed admission's checks and each sender's pending transfers
/// sum to at most its balance (both of which `add_transaction` keeps),
/// mining executes every pending transfer, in order.
pub proof fn lemma_admitted_mempool_is_mined(chain: Blockchain)
    requires
        chain.mempool_admissible(),
        chain.mempool_covered(),
    ensures
        mined_transactions(chain.balances@, chain.pending_transactions@)
            == chain.pending_transactions@,
{
    lemma_covered_txs_all_mined(chain.balances@, chain.pending_transactions@);
}

/// A transfer matches an earlier one, for duplicate refusal, exactly when the
/// two agree in sender, recipient, amount, fee and nonce; in particular two
/// transfers from different senders never match.
pub proof fn lemma_duplicate_iff_same_fields(txs: Seq<SignedTransaction>, tx: SignedTransaction)
    ensures
        has_duplicate(txs, tx) <==> exists|j: int|
            0 <= j < txs.len() && #[trigger] txs[j].sender@ == tx.sender@ && txs[j].recipient@
                == tx.recipient@ && txs[j].amount == tx.amount && txs[j].fee == tx.fee
                && txs[j].nonce == tx.nonce,
{
    if has_duplicate(txs, tx) {
        let j = choose|j: int| 0 <= j < txs.len() && #[trigger] same_transfer(txs[j], tx);
        assert(txs[j].sender@ == tx.sender@);
    }
    if exists|j: int|
        0 <= j < txs.len() && #[trigger] txs[j].sender@ == tx.sender@ && txs[j].recipient@
            == tx.recipient@ && txs[j].amount == tx.amount && txs[j].fee == tx.fee
            && txs[j].nonce == tx.nonce {
        let j = choose|j: int|
            0 <= j < txs.len() && #[trigger] txs[j].sender@ == tx.sender@ && txs[j].recipient@
                == tx.recipient@ && txs[j].amount == tx.amount && txs[j].fee == tx.fee
                && txs[j].nonce == tx.nonce;
        assert(same_transfer(txs[j], tx));
    }
}

/// Pending transfers of other senders do not bear on admission: whether a
/// transfer is admitted is the same with or without another sender's
/// transfer in the mempool.
pub proof fn lemma_other_sender_pending_irrelevant(
    chain: Blockchain,
    with_other: Blockchain,
    other: SignedTransaction,
    tx: SignedTransaction,
)
    requires
        other.sender@ != tx.sender@,
        with_other.blocks == chain.blocks,
        with_other.balances == chain.balances,
        with_other.pending_transactions@ == chain.pending_transactions@.push(other),
    ensures
        with_other.accepts(tx) == chain.accepts(tx),
{
    let p = chain.pending_transactions@;
    let q = with_other.pending_transactions@;
    assert(q.drop_last() =~= p);
    assert(pending_outgoing(q, tx.sender@) == pending_outgoing(p, tx.sender@));
    lemma_duplicate_iff_same_fields(p, tx);
    lemma_duplicate_iff_same_fields(q, tx);
    if has_duplicate(q, tx) {
        let j = choose|j: int|
            0 <= j < q.len() && #[trigger] q[j].sender@ == tx.sender@ && q[j].recipient@
                == tx.recipient@ && q[j].amount == tx.amount && q[j].fee == tx.fee && q[j].nonce
                == tx.nonce;
        assert(j < p.len());
        assert(q[j] == p[j]);
    }
    if has_duplicate(p, tx) {
        let j = choose|j: int|
            0 <= j < p.len() && #[trigger] p[j].sender@ == tx.sender@ && p[j].recipient@
                == tx.recipient@ && p[j].amount == tx.amount && p[j].fee == tx.fee && p[j].nonce
                == tx.nonce;
        assert(q[j] == p[j]);
        assert(same_transfer(q[j], tx));
    }
}

/// A chain is valid exactly when it has blocks, its recorded supply is
/// within the maximum and equals the (capped) sum of its balances, every
/// block's hash is right, the genesis block has index 0, previous hash "0"
/// and no transfers, and every later block links to its predecessor's hash,
/// carries the next index, and holds only validly signed transfers whose fee
/// is either 0 (legacy) or at least 100_000.
#[verifier::rlimit(40)]
pub proof fn lemma_chain_valid_characterised(chain: Blockchain)
    ensures
        chain.chain_valid() <==> {
            let bs = chain.blocks@;
            &&& bs.len() > 0
            &&& chain.total_supply <= 100_000_000_000_000_000
            &&& cap_u64(chain.balances.total() as int) == chain.total_supply
            &&& forall|i: int| 0 <= i < bs.len() ==> (#[trigger] bs[i]).hash_valid()
            &&& bs.len() > 0 ==> bs[0].index == 0 && bs[0].previous_hash@ == "0"@
                && bs[0].transactions@.len() == 0
            &&& forall|i: int|
                0 < i < bs.len() ==> (#[trigger] bs[i]).previous_hash@ == bs[i - 1].hash@
                    && bs[i].index == bs[i - 1].index + 1
            &&& forall|i: int, j: int|
                0 < i < bs.len() && 0 <= j < bs[i].transactions@.len() ==> {
                    let t = #[trigger] bs[i].transactions@[j];
                    &&& t.signature_valid()
                    &&& (t.fee == 0 || t.fee >= 100_000)
                }
        },
{
    let bs = chain.blocks@;
    if chain.chain_valid() {
        assert forall|i: int| 0 <= i < bs.len() implies (#[trigger] bs[i]).hash_valid() by {
            assert(block_ok(bs, i));
        }
        assert(block_ok(bs, 0));
        assert forall|i: int| 0 < i < bs.len() implies (#[trigger] bs[i]).previous_hash@ == bs[i
            - 1].hash@ && bs[i].index == bs[i - 1].index + 1 by {
            assert(block_ok(bs, i));
        }
        assert forall|i: int, j: int|
            0 < i < bs.len() && 0 <= j < bs[i].transactions@.len() implies (
            #[trigger] bs[i].transactions@[j]).signature_valid() && (bs[i].transactions@[j].fee
                == 0 || bs[i].transactions@[j].fee >= 100_000) by {
            assert(block_ok(bs, i));
            assert(confirmable(bs[i].transactions@[j]));
        }
    }
    if {
        &&& bs.len() > 0
        &&& chain.total_supply <= 100_000_000_000_000_000
        &&& cap_u64(chain.balances.total() as int) == chain.total_supply
        &&& forall|i: int| 0 <= i < bs.len() ==> (#[trigger] bs[i]).hash_valid()
        &&& bs.len() > 0 ==> bs[0].index == 0 && bs[0].previous_hash@ == "0"@
            && bs[0].transactions@.len() == 0
        &&& forall|i: int|
            0 < i < bs.len() ==> (#[trigger] bs[i]).previous_hash@ == bs[i - 1].hash@
                && bs[i].index == bs[i - 1].index + 1
        &&& forall|i: int, j: int|
            0 < i < bs.len() && 0 <= j < bs[i].transactions@.len() ==> {
                let t = #[trigger] bs[i].transactions@[j];
                &&& t.signature_valid()
                &&& (t.fee == 0 || t.fee >= 100_000)
            }
    } {
        assert forall|i: int| 0 <= i < bs.len() implies #[trigger] block_ok(bs, i) by {
            assert(bs[i].hash_valid());
            if i > 0 {
                assert(bs[i].previous_hash@ == bs[i - 1].hash@);
                assert forall|j: int| 0 <= j < bs[i].transactions@.len() implies #[trigger] confirmable(
                    bs[i].transactions@[j],
                ) by {
                    let t = bs[i].transactions@[j];
                    assert(t.signature_valid() && (t.fee == 0 || t.fee >= 100_000));
                }
            }
        }
    }
}

/// A validly signed legacy transfer (fee 0) may stand in a confirmed block.
pub proof fn lemma_legacy_transfer_confirmable(tx: SignedTransaction)
    requires
        tx.signature_valid(),
        tx.fee == 0,
    ensures
        confirmable(tx),
{
}

} // verus!
