use vstd::prelude::*;
use vstd::string::*;
use vstd::slice::slice_subrange;
use crate::block::{
    block_hash_spec, blocks_view, clone_transactions, drift_error_text, drift_in_range, hash_of,
    median_time_past_spec, meets_difficulty, merkle_root_of_txs, mtp_error_text, plus_drift,
    timestamp_after_mtp, timestamp_not_after, tx_hashes_spec, txs_view, unmined_block, Block,
    BlockModel, MAX_FUTURE_DRIFT_SECONDS,
};
use crate::currency::{coin_text, Amount};
use crate::merkle::merkle_root_spec;
use crate::encoding::text_equal;
use crate::timestamp::{
    checked_add_seconds, chrono_datetime_valid, clock_reading, in_rfc3339_range, rfc3339_format,
    rfc3339_parse, time_after, unix_epoch, utc_now, Timestamp,
};
use crate::transaction::{
    estimate_size_spec, signature_error_text, signature_parts, signature_valid, total_cost_spec,
    tx_id_spec, Transaction, TransactionError, TxModel,
};

verus! {

/// A chain of blocks with a pool of transactions waiting to be mined.
#[derive(Debug)]
pub struct Blockchain {
    chain: Vec<Block>,
    difficulty: usize,
    pending_transactions: Vec<Transaction>,
    mining_reward: Amount,
    min_fee_rate: u64,
}

/// What a blockchain holds.
pub struct ChainModel {
    pub chain: Seq<BlockModel>,
    pub difficulty: usize,
    pub pending: Seq<TxModel>,
    pub mining_reward: u64,
    pub min_fee_rate: u64,
}

/// Why a transaction was refused or a block not mined.
#[derive(Debug)]
pub enum BlockchainError {
    EmptyAddress,
    InvalidSignature(String),
    InvalidTransaction(String),
    NoBlocks,
}

impl Clone for Blockchain {
    fn clone(&self) -> (res: Self)
        ensures
            res@ == self@,
    {
        let mut chain: Vec<Block> = Vec::new();
        let mut i: usize = 0;
        while i < self.chain.len()
            invariant
                i <= self.chain@.len(),
                blocks_view(chain@) =~= blocks_view(self.chain@).take(i as int),
            decreases self.chain@.len() - i,
        {
            let ghost before = chain@;
            chain.push(self.chain[i].clone());
            proof {
                assert(blocks_view(chain@) =~= blocks_view(before).push(self.chain@[i as int]@));
            }
            i += 1;
        }
        proof {
            assert(blocks_view(self.chain@).take(i as int) =~= blocks_view(self.chain@));
        }
        Blockchain {
            chain,
            difficulty: self.difficulty,
            pending_transactions: clone_transactions(self.pending_transactions.as_slice()),
            mining_reward: self.mining_reward,
            min_fee_rate: self.min_fee_rate,
        }
    }
}

impl View for Blockchain {
    type V = ChainModel;

    closed spec fn view(&self) -> ChainModel {
        ChainModel {
            chain: blocks_view(self.chain@),
            difficulty: self.difficulty,
            pending: txs_view(self.pending_transactions@),
            mining_reward: self.mining_reward@,
            min_fee_rate: self.min_fee_rate,
        }
    }
}

/// `balance` after `tx` as seen by `address`: what it sends (amount plus fee) comes off,
/// down to zero at most; what it receives is added, unless the sum overflows.
pub open spec fn apply_tx(balance: u64, tx: TxModel, address: Seq<char>) -> u64 {
    let after_send = if tx.from == address {
        if total_cost_spec(tx) <= balance {
            (balance - total_cost_spec(tx)) as u64
        } else {
            0
        }
    } else {
        balance
    };
    if tx.to == address {
        if after_send + tx.amount <= u64::MAX {
            (after_send + tx.amount) as u64
        } else {
            after_send
        }
    } else {
        after_send
    }
}

/// `balance` after the transactions, in order.
pub open spec fn apply_txs(balance: u64, txs: Seq<TxModel>, address: Seq<char>) -> u64
    decreases txs.len(),
{
    if txs.len() == 0 {
        balance
    } else {
        apply_tx(apply_txs(balance, txs.drop_last(), address), txs.last(), address)
    }
}

/// `balance` after the transactions of the blocks, in order.
pub open spec fn apply_blocks(balance: u64, blocks: Seq<BlockModel>, address: Seq<char>) -> u64
    decreases blocks.len(),
{
    if blocks.len() == 0 {
        balance
    } else {
        apply_txs(apply_blocks(balance, blocks.drop_last(), address), blocks.last().transactions, address)
    }
}

/// The balance of `address` over the mined blocks, starting from zero.
pub open spec fn confirmed_balance(m: ChainModel, address: Seq<char>) -> u64 {
    apply_blocks(0, m.chain, address)
}

/// `balance` after what the transactions send from `address` (amount plus fee), down to
/// zero at most.
pub open spec fn apply_sends(balance: u64, txs: Seq<TxModel>, address: Seq<char>) -> u64
    decreases txs.len(),
{
    if txs.len() == 0 {
        balance
    } else {
        let before = apply_sends(balance, txs.drop_last(), address);
        if txs.last().from == address {
            if total_cost_spec(txs.last()) <= before {
                (before - total_cost_spec(txs.last())) as u64
            } else {
                0
            }
        } else {
            before
        }
    }
}

/// What the transactions send from `address` in all: amount plus fee of each.
pub open spec fn total_sent(txs: Seq<TxModel>, address: Seq<char>) -> int
    decreases txs.len(),
{
    if txs.len() == 0 {
        0
    } else {
        total_sent(txs.drop_last(), address) + if txs.last().from == address {
            total_cost_spec(txs.last()) as int
        } else {
            0
        }
    }
}

/// Taking the sends off one at a time, each down to zero at most, takes off their total,
/// down to zero at most.
proof fn lemma_apply_sends_total(balance: u64, txs: Seq<TxModel>, address: Seq<char>)
    ensures
        total_sent(txs, address) >= 0,
        apply_sends(balance, txs, address) == if balance >= total_sent(txs, address) {
            balance - total_sent(txs, address)
        } else {
            0
        },
    decreases txs.len(),
{
    if txs.len() > 0 {
        lemma_apply_sends_total(balance, txs.drop_last(), address);
    }
}

/// The confirmed balance of `address` less what its pending transactions spend.
pub open spec fn available_balance(m: ChainModel, address: Seq<char>) -> u64 {
    apply_sends(confirmed_balance(m, address), m.pending, address)
}

/// The available balance of an address is its confirmed balance less the total that its
/// pending transactions send (amount plus fee each), and zero where that total is larger;
/// so it is never above the confirmed balance.
pub proof fn lemma_available_balance(m: ChainModel, address: Seq<char>)
    ensures
        available_balance(m, address) == if confirmed_balance(m, address) >= total_sent(
            m.pending,
            address,
        ) {
            confirmed_balance(m, address) - total_sent(m.pending, address)
        } else {
            0
        },
        available_balance(m, address) <= confirmed_balance(m, address),
{
    lemma_apply_sends_total(confirmed_balance(m, address), m.pending, address);
}

/// The sum of the fees of `txs`, skipping a fee that would overflow the sum.
pub open spec fn total_fees_spec(txs: Seq<TxModel>) -> u64
    decreases txs.len(),
{
    if txs.len() == 0 {
        0
    } else {
        let before = total_fees_spec(txs.drop_last());
        if before + txs.last().fee <= u64::MAX {
            (before + txs.last().fee) as u64
        } else {
            before
        }
    }
}

/// What the miner of the pending transactions is paid: the reward plus their fees, or
/// the reward alone where that sum overflows.
pub open spec fn miner_reward_spec(m: ChainModel) -> u64 {
    if m.mining_reward + total_fees_spec(m.pending) <= u64::MAX {
        (m.mining_reward + total_fees_spec(m.pending)) as u64
    } else {
        m.mining_reward
    }
}

/// The fee total of a pool is the sum of every fee in it: zero for an empty pool, and one
/// more transaction adds its whole fee wherever the sum fits in 64 bits; so the miner's
/// reward grows by that fee too.
pub proof fn lemma_total_fees_adds(m: ChainModel, t: TxModel)
    ensures
        total_fees_spec(Seq::<TxModel>::empty()) == 0,
        total_fees_spec(m.pending) + t.fee <= u64::MAX ==> total_fees_spec(m.pending.push(t))
            == total_fees_spec(m.pending) + t.fee,
        m.mining_reward + total_fees_spec(m.pending) + t.fee <= u64::MAX ==> miner_reward_spec(
            ChainModel { pending: m.pending.push(t), ..m },
        ) == miner_reward_spec(m) + t.fee,
{
    assert(m.pending.push(t).drop_last() =~= m.pending);
    assert(m.pending.push(t).last() == t);
}


/// The reward transaction paying `amount` to `address`.
pub open spec fn reward_tx_spec(address: Seq<char>, amount: u64) -> TxModel {
    TxModel {
        id: tx_id_spec(Seq::empty(), address, amount, 0),
        from: Seq::empty(),
        to: address,
        amount,
        fee: 0,
        signature: None,
    }
}

/// The least fee that `tx` must pay at `min_fee_rate` satoshis per byte.
pub open spec fn min_fee_spec(tx: TxModel, min_fee_rate: u64) -> int {
    estimate_size_spec(tx) * min_fee_rate
}

/// Whether every pending transaction with a sender is signed by that sender.
pub open spec fn pending_signed(pending: Seq<TxModel>) -> bool {
    forall|k: int|
        0 <= k < pending.len() ==> (#[trigger] pending[k]).from.len() == 0 || signature_valid(
            pending[k],
        )
}

/// The checks that block `i` of `chain` passes in a valid chain, all but the one against
/// the clock: its transactions with a sender are signed by it, its hash and Merkle root are
/// the ones its fields call for, it follows block `i - 1`, and its timestamp reads as an
/// instant later than the median time past of the blocks before it.
pub open spec fn block_checks_ok(chain: Seq<BlockModel>, i: int) -> bool {
    let b = chain[i];
    &&& pending_signed(b.transactions)
    &&& b.hash == hash_of(b)
    &&& b.merkle_root == merkle_root_of_txs(b.transactions)
    &&& b.previous_hash == chain[i - 1].hash
    &&& timestamp_after_mtp(b, chain.take(i))
}

/// Whether every block after the first passes the checks of `block_checks_ok`.
pub open spec fn chain_valid_spec(chain: Seq<BlockModel>) -> bool {
    forall|i: int| 1 <= i < chain.len() ==> #[trigger] block_checks_ok(chain, i)
}

/// A valid chain is linked, and each block after the first bears the hash and the Merkle
/// root that its fields and transactions call for, holds only signed transfers and is
/// stamped later than the median time past of the blocks before it.
pub proof fn lemma_valid_chain_linked(chain: Seq<BlockModel>)
    requires
        chain_valid_spec(chain),
    ensures
        forall|i: int| 1 <= i < chain.len() ==> (#[trigger] chain[i]).previous_hash == chain[i
            - 1].hash,
        forall|i: int|
            1 <= i < chain.len() ==> (#[trigger] chain[i]).hash == block_hash_spec(
                chain[i].timestamp,
                chain[i].merkle_root,
                chain[i].previous_hash,
                chain[i].nonce,
            ),
        forall|i: int|
            1 <= i < chain.len() ==> (#[trigger] chain[i]).merkle_root == merkle_root_spec(
                tx_hashes_spec(chain[i].transactions),
            ),
        forall|i: int, k: int|
            1 <= i < chain.len() && 0 <= k < chain[i].transactions.len() && (
            #[trigger] chain[i].transactions[k]).from.len() > 0 ==> signature_valid(
                chain[i].transactions[k],
            ),
        forall|i: int|
            1 <= i < chain.len() ==> match rfc3339_parse((#[trigger] chain[i]).timestamp) {
                Some(t) => time_after(t, median_time_past_spec(chain.take(i))),
                None => false,
            },
{
    assert forall|i: int| 1 <= i < chain.len() implies (#[trigger] chain[i]).previous_hash
        == chain[i - 1].hash by {
        assert(block_checks_ok(chain, i));
    }
    assert forall|i: int|
        1 <= i < chain.len() implies (#[trigger] chain[i]).hash == block_hash_spec(
            chain[i].timestamp,
            chain[i].merkle_root,
            chain[i].previous_hash,
            chain[i].nonce,
        ) by {
        assert(block_checks_ok(chain, i));
    }
    assert forall|i: int|
        1 <= i < chain.len() implies (#[trigger] chain[i]).merkle_root == merkle_root_spec(
            tx_hashes_spec(chain[i].transactions),
        ) by {
        assert(block_checks_ok(chain, i));
    }
    assert forall|i: int, k: int|
        1 <= i < chain.len() && 0 <= k < chain[i].transactions.len() && (
        #[trigger] chain[i].transactions[k]).from.len() > 0 implies signature_valid(
        chain[i].transactions[k],
    ) by {
        assert(block_checks_ok(chain, i));
        assert(pending_signed(chain[i].transactions));
    }
    assert forall|i: int|
        1 <= i < chain.len() implies match rfc3339_parse((#[trigger] chain[i]).timestamp) {
            Some(t) => time_after(t, median_time_past_spec(chain.take(i))),
            None => false,
        } by {
        assert(block_checks_ok(chain, i));
        assert(chain.take(i).len() > 0);
    }
}

/// The state that every operation keeps: a genesis block at least, a valid chain, and
/// only signed transactions pending.
pub open spec fn chain_wf(m: ChainModel) -> bool {
    m.chain.len() >= 1 && chain_valid_spec(m.chain) && pending_signed(m.pending)
}

/// Whether `b` is `u` mined at `difficulty` as `Block::mine_block` mines it: the first
/// nonce from zero whose hash has `difficulty` leading zeros, or the largest nonce.
pub open spec fn mined_from(b: BlockModel, u: BlockModel, difficulty: usize) -> bool {
    &&& b == (BlockModel { hash: hash_of(b), nonce: b.nonce, ..u })
    &&& (meets_difficulty(b.hash, difficulty as nat) || b.nonce == u64::MAX)
    &&& forall|n: u64|
        u.nonce <= n < b.nonce ==> !meets_difficulty(
            #[trigger] block_hash_spec(u.timestamp, u.merkle_root, u.previous_hash, n),
            difficulty as nat,
        )
}

/// What mining the pending pool of `old` for `address` answers, giving `new`, where the
/// clock read `timestamp` for the new block and `now` after it. An empty address is
/// refused first with nothing changed; after that the reward stays pending on every
/// refusal: `NoBlocks` for an empty chain, `InvalidTransaction` with the block's refusal
/// text where `timestamp` is not later than the median time past of the chain, or is later
/// than `now` plus two hours, or that time is out of range. Otherwise the new block, mined
/// at the chain's difficulty, ends the chain and the pool is empty.
pub open spec fn mining_outcome(
    old: ChainModel,
    new: ChainModel,
    res: Result<(), BlockchainError>,
    address: Seq<char>,
    timestamp: Timestamp,
    now: Timestamp,
) -> bool {
    let reward = reward_tx_spec(address, miner_reward_spec(old));
    let mtp = median_time_past_spec(old.chain);
    let max_allowed = plus_drift(now);
    let ready = address.len() > 0 && old.chain.len() > 0;
    &&& address.len() == 0 ==> (res matches Err(BlockchainError::InvalidTransaction(msg)) && msg@
        == "from or to address is empty"@ && new == old)
    &&& address.len() > 0 && res is Err ==> new == (ChainModel {
        pending: old.pending.push(reward),
        ..old
    })
    &&& (address.len() > 0 && old.chain.len() == 0 ==> res matches Err(BlockchainError::NoBlocks))
    &&& ready && !time_after(timestamp, mtp) ==> (res matches Err(
        BlockchainError::InvalidTransaction(msg),
    ) && msg@ == "invalid timestamp: "@ + mtp_error_text(timestamp, mtp))
    &&& (ready && time_after(timestamp, mtp) && !drift_in_range(now) ==> res matches Err(
        BlockchainError::InvalidTransaction(_),
    ))
    &&& ready && time_after(timestamp, mtp) && drift_in_range(now) && time_after(
        timestamp,
        max_allowed,
    ) ==> (res matches Err(BlockchainError::InvalidTransaction(msg)) && msg@
        == "invalid timestamp: "@ + drift_error_text(timestamp, max_allowed))
    &&& ready && time_after(timestamp, mtp) && drift_in_range(now) && !time_after(
        timestamp,
        max_allowed,
    ) ==> {
        &&& res is Ok
        &&& new.chain.len() == old.chain.len() + 1
        &&& new.chain.drop_last() == old.chain
        &&& mined_from(
            new.chain.last(),
            unmined_block(
                rfc3339_format(timestamp),
                old.pending.push(reward),
                old.chain.last().hash,
            ),
            old.difficulty,
        )
        &&& new == (ChainModel { chain: new.chain, pending: Seq::empty(), ..old })
    }
}

/// Whether every block after the first passes `block_checks_ok` and bears a time no later
/// than the one `max_allowed` holds at its index.
pub open spec fn chain_ok_at(chain: Seq<BlockModel>, max_allowed: Seq<Timestamp>) -> bool {
    forall|i: int|
        1 <= i < chain.len() ==> #[trigger] block_checks_ok(chain, i) && timestamp_not_after(
            chain[i],
            max_allowed[i],
        )
}

/// Whether `chain` validates where the clock read `nows[i]` for block `i`: every block after
/// the first passes `block_checks_ok` and bears a time no later than its reading plus two
/// hours, a time within `chrono`'s range.
pub open spec fn chain_ok_now(chain: Seq<BlockModel>, nows: Seq<Timestamp>) -> bool {
    forall|i: int|
        1 <= i < chain.len() ==> #[trigger] block_checks_ok(chain, i) && drift_in_range(nows[i])
            && timestamp_not_after(chain[i], plus_drift(nows[i]))
}

/// Whether `nows` holds one entry per block of a chain of `len` blocks, each after the
/// first a reading of the clock.
pub open spec fn clock_readings(nows: Seq<Timestamp>, len: nat) -> bool {
    nows.len() == len && forall|i: int| 1 <= i < len ==> clock_reading(#[trigger] nows[i])
}

/// A chain that `validate_chain_at` accepts against any latest times, or that the clock
/// readings accept, is valid, so linked block to block (see `lemma_valid_chain_linked`),
/// and its blocks after the first are no later than their latest times.
pub proof fn lemma_accepted_chain_valid(
    chain: Seq<BlockModel>,
    max_allowed: Seq<Timestamp>,
    nows: Seq<Timestamp>,
)
    ensures
        chain_ok_at(chain, max_allowed) ==> chain_valid_spec(chain) && forall|i: int|
            1 <= i < chain.len() ==> #[trigger] chain[i].previous_hash == chain[i - 1].hash
                && timestamp_not_after(chain[i], max_allowed[i]),
        chain_ok_now(chain, nows) ==> chain_valid_spec(chain) && forall|i: int|
            1 <= i < chain.len() ==> #[trigger] chain[i].previous_hash == chain[i - 1].hash
                && drift_in_range(nows[i]) && timestamp_not_after(chain[i], plus_drift(nows[i])),
{
    if chain_ok_at(chain, max_allowed) {
        assert forall|i: int| 1 <= i < chain.len() implies #[trigger] block_checks_ok(chain, i) by {}
        lemma_valid_chain_linked(chain);
        assert forall|i: int| 1 <= i < chain.len() implies #[trigger] chain[i].previous_hash
            == chain[i - 1].hash && timestamp_not_after(chain[i], max_allowed[i]) by {
            assert(block_checks_ok(chain, i));
        }
    }
    if chain_ok_now(chain, nows) {
        assert forall|i: int| 1 <= i < chain.len() implies #[trigger] block_checks_ok(chain, i) by {}
        lemma_valid_chain_linked(chain);
        assert forall|i: int| 1 <= i < chain.len() implies #[trigger] chain[i].previous_hash
            == chain[i - 1].hash && drift_in_range(nows[i]) && timestamp_not_after(
            chain[i],
            plus_drift(nows[i]),
        ) by {
            assert(block_checks_ok(chain, i));
        }
    }
}

/// The refusal text for a fee below the minimum.
pub open spec fn fee_too_low_text(fee: u64, min_fee: u64) -> Seq<char> {
    "fee too low: "@ + coin_text(fee) + " coins, minimum "@ + coin_text(min_fee) + " coins"@
}

/// The refusal text for a transaction its sender cannot pay for.
pub open spec fn insufficient_funds_text(available: u64, tx: TxModel) -> Seq<char> {
    "insufficient funds: has "@ + coin_text(available) + " coins, trying to send "@ + coin_text(
        total_cost_spec(tx),
    ) + " coins (amount: "@ + coin_text(tx.amount) + ", fee: "@ + coin_text(tx.fee) + ")"@
}

/// The text of a blockchain error.
pub open spec fn blockchain_error_text(e: BlockchainError) -> Seq<char> {
    match e {
        BlockchainError::EmptyAddress => "transaction must include from and to address"@,
        BlockchainError::InvalidSignature(msg) => "invalid transaction signature: "@ + msg@,
        BlockchainError::InvalidTransaction(msg) => "invalid transaction: "@ + msg@,
        BlockchainError::NoBlocks => "blockchain has no blocks"@,
    }
}

impl Blockchain {
    /// The genesis block: one reward of `initial_reward` to `miner_address`.
    fn create_genesis_block(miner_address: String, initial_reward: Amount) -> (res: Block)
        requires
            miner_address@.len() > 0,
        ensures
            exists|t: Timestamp|
                clock_reading(t) && res@ == unmined_block(
                    rfc3339_format(t),
                    seq![reward_tx_spec(miner_address@, initial_reward@)],
                    "0"@,
                ),
    {
        let genesis_transaction = match Transaction::new_reward(miner_address, initial_reward) {
            Ok(tx) => tx,
            Err(_) => {
                proof {
                    assert(false);
                }
                return Block::origin(Vec::new(), String::from_str("0"));
            },
        };
        let ghost genesis_model = genesis_transaction@;
        let mut transactions: Vec<Transaction> = Vec::new();
        transactions.push(genesis_transaction);
        proof {
            assert(txs_view(transactions@) =~= seq![genesis_model]);
        }
        Block::origin(transactions, String::from_str("0"))
    }

    /// A chain holding only a genesis block that pays `mining_reward` to `miner_address`,
    /// with no pending transaction.
    pub fn new(
        difficulty: usize,
        mining_reward: Amount,
        min_fee_rate_sats: u64,
        miner_address: String,
    ) -> (res: Self)
        requires
            miner_address@.len() > 0,
        ensures
            res@.difficulty == difficulty,
            res@.mining_reward == mining_reward@,
            res@.min_fee_rate == min_fee_rate_sats,
            res@.pending.len() == 0,
            res@.chain.len() == 1,
            chain_wf(res@),
            exists|t: Timestamp|
                clock_reading(t) && res@.chain[0] == unmined_block(
                    rfc3339_format(t),
                    seq![reward_tx_spec(miner_address@, mining_reward@)],
                    "0"@,
                ),
    {
        let genesis_block = Self::create_genesis_block(miner_address, mining_reward);
        let mut chain: Vec<Block> = Vec::new();
        chain.push(genesis_block);
        proof {
            assert(blocks_view(chain@)[0] == genesis_block@);
        }
        Blockchain {
            chain,
            difficulty,
            pending_transactions: Vec::new(),
            mining_reward,
            min_fee_rate: min_fee_rate_sats,
        }
    }

    /// A chain with exactly these parts, as a stored or received chain is rebuilt.
    pub fn from_parts(
        chain: Vec<Block>,
        difficulty: usize,
        pending_transactions: Vec<Transaction>,
        mining_reward: Amount,
        min_fee_rate: u64,
    ) -> (res: Self)
        ensures
            res@ == (ChainModel {
                chain: blocks_view(chain@),
                difficulty,
                pending: txs_view(pending_transactions@),
                mining_reward: mining_reward@,
                min_fee_rate,
            }),
    {
        Blockchain { chain, difficulty, pending_transactions, mining_reward, min_fee_rate }
    }

    /// The last block: `NoBlocks` where there is none.
    pub fn get_latest_block(&self) -> (res: Result<&Block, BlockchainError>)
        ensures
            self@.chain.len() == 0 ==> res matches Err(BlockchainError::NoBlocks),
            self@.chain.len() > 0 ==> (res matches Ok(b) && b@ == self@.chain.last()),
    {
        if self.chain.len() == 0 {
            return Err(BlockchainError::NoBlocks);
        }
        let last = &self.chain[self.chain.len() - 1];
        Ok(last)
    }

    /// The sum of the pending fees, skipping a fee that would overflow the sum.
    fn calculate_total_fees(&self) -> (res: Amount)
        ensures
            res@ == total_fees_spec(self@.pending),
    {
        let mut total = Amount::from_satoshis(0);
        let mut i: usize = 0;
        let ghost pending = self@.pending;
        while i < self.pending_transactions.len()
            invariant
                pending == txs_view(self.pending_transactions@),
                i <= self.pending_transactions@.len(),
                total@ == total_fees_spec(pending.take(i as int)),
            decreases self.pending_transactions@.len() - i,
        {
            let fee = self.pending_transactions[i].fee();
            proof {
                assert(pending.take(i + 1).drop_last() =~= pending.take(i as int));
                assert(pending.take(i + 1).last() == self.pending_transactions@[i as int]@);
            }
            total = match total.checked_add(fee) {
                Ok(sum) => sum,
                Err(_) => total,
            };
            i += 1;
        }
        proof {
            assert(pending.take(i as int) =~= pending);
        }
        total
    }

    /// The balance of `address` over the mined blocks (see `apply_tx`).
    pub fn get_balance(&self, address: &str) -> (res: Amount)
        ensures
            res@ == confirmed_balance(self@, address@),
    {
        let mut balance = Amount::from_satoshis(0);
        let ghost blocks = self@.chain;
        let mut i: usize = 0;
        while i < self.chain.len()
            invariant
                blocks == blocks_view(self.chain@),
                i <= self.chain@.len(),
                balance@ == apply_blocks(0, blocks.take(i as int), address@),
            decreases self.chain@.len() - i,
        {
            let block = &self.chain[i];
            let txs = block.transactions();
            let ghost start = balance@;
            let ghost tx_models = txs_view(txs@);
            let mut j: usize = 0;
            while j < txs.len()
                invariant
                    tx_models == txs_view(txs@),
                    j <= txs@.len(),
                    balance@ == apply_txs(start, tx_models.take(j as int), address@),
                decreases txs@.len() - j,
            {
                let tx = &txs[j];
                proof {
                    assert(tx_models.take(j + 1).drop_last() =~= tx_models.take(j as int));
                    assert(tx_models.take(j + 1).last() == tx@);
                }
                if text_equal(tx.from_address(), address) {
                    let total_cost = tx.total_cost();
                    balance = match balance.checked_sub(total_cost) {
                        Ok(rest) => rest,
                        Err(_) => Amount::from_satoshis(0),
                    };
                }
                if text_equal(tx.to_address(), address) {
                    balance = match balance.checked_add(tx.amount()) {
                        Ok(sum) => sum,
                        Err(_) => balance,
                    };
                }
                j += 1;
            }
            proof {
                assert(tx_models.take(j as int) =~= tx_models);
                assert(blocks.take(i + 1).drop_last() =~= blocks.take(i as int));
                assert(blocks.take(i + 1).last() == block@);
            }
            i += 1;
        }
        proof {
            assert(blocks.take(i as int) =~= blocks);
        }
        balance
    }

    /// The confirmed balance of `address` less what its pending transactions spend.
    pub fn get_available_balance(&self, address: &str) -> (res: Amount)
        ensures
            res@ == available_balance(self@, address@),
    {
        let mut balance = self.get_balance(address);
        let ghost start = balance@;
        let ghost pending = self@.pending;
        let mut i: usize = 0;
        while i < self.pending_transactions.len()
            invariant
                pending == txs_view(self.pending_transactions@),
                i <= self.pending_transactions@.len(),
                balance@ == apply_sends(start, pending.take(i as int), address@),
            decreases self.pending_transactions@.len() - i,
        {
            let tx = &self.pending_transactions[i];
            proof {
                assert(pending.take(i + 1).drop_last() =~= pending.take(i as int));
                assert(pending.take(i + 1).last() == tx@);
            }
            if text_equal(tx.from_address(), address) {
                balance = match balance.checked_sub(tx.total_cost()) {
                    Ok(rest) => rest,
                    Err(_) => Amount::from_satoshis(0),
                };
            }
            i += 1;
        }
        proof {
            assert(pending.take(i as int) =~= pending);
        }
        balance
    }


    /// Adds `tx` to the pending pool. On any refusal the chain is unchanged:
    /// `EmptyAddress` where an address is empty; else `InvalidTransaction` where the fee is
    /// below the transaction's estimated size times the minimum fee rate, or where amount
    /// plus fee exceeds the sender's available balance; else `InvalidSignature` where the
    /// signature is missing, unreadable or not the sender's.
    pub fn add_transaction(&mut self, tx: Transaction) -> (res: Result<(), BlockchainError>)
        requires
            tx@.from.len() > 0 && tx@.to.len() > 0 ==> min_fee_spec(tx@, old(self)@.min_fee_rate)
                <= u64::MAX,
        ensures
            res is Err ==> final(self)@ == old(self)@,
            res is Ok ==> final(self)@ == (ChainModel {
                pending: old(self)@.pending.push(tx@),
                ..old(self)@
            }),
            tx@.from.len() == 0 || tx@.to.len() == 0 ==> res matches Err(
                BlockchainError::EmptyAddress,
            ),
            ({
                let min_fee = min_fee_spec(tx@, old(self)@.min_fee_rate);
                tx@.from.len() > 0 && tx@.to.len() > 0 && tx@.fee < min_fee ==> (res matches Err(
                    BlockchainError::InvalidTransaction(msg),
                ) && msg@ == fee_too_low_text(tx@.fee, min_fee as u64))
            }),
            ({
                let min_fee = min_fee_spec(tx@, old(self)@.min_fee_rate);
                let available = available_balance(old(self)@, tx@.from);
                tx@.from.len() > 0 && tx@.to.len() > 0 && tx@.fee >= min_fee && total_cost_spec(tx@)
                    > available ==> (res matches Err(BlockchainError::InvalidTransaction(msg))
                    && msg@ == insufficient_funds_text(available, tx@))
            }),
            ({
                let min_fee = min_fee_spec(tx@, old(self)@.min_fee_rate);
                let available = available_balance(old(self)@, tx@.from);
                tx@.from.len() > 0 && tx@.to.len() > 0 && tx@.fee >= min_fee && total_cost_spec(tx@)
                    <= available && !signature_valid(tx@) ==> res matches Err(
                    BlockchainError::InvalidSignature(_),
                )
            }),
            ({
                let min_fee = min_fee_spec(tx@, old(self)@.min_fee_rate);
                let available = available_balance(old(self)@, tx@.from);
                let passes = tx@.from.len() > 0 && tx@.to.len() > 0 && tx@.fee >= min_fee
                    && total_cost_spec(tx@) <= available;
                &&& passes && signature_parts(tx@) is Some && !signature_valid(tx@) ==> (res matches Err(
                    BlockchainError::InvalidSignature(msg),
                ) && msg@ == "signature verification failed"@)
                &&& passes && signature_parts(tx@) is None ==> (res matches Err(
                    BlockchainError::InvalidSignature(msg),
                ) && msg@ == "crypto error: "@ + signature_error_text(tx@))
            }),
            ({
                let min_fee = min_fee_spec(tx@, old(self)@.min_fee_rate);
                let available = available_balance(old(self)@, tx@.from);
                tx@.from.len() > 0 && tx@.to.len() > 0 && tx@.fee >= min_fee && total_cost_spec(tx@)
                    <= available && signature_valid(tx@) ==> res is Ok
            }),
            chain_wf(old(self)@) ==> chain_wf(final(self)@),
    {
        if tx.from_address().is_empty() || tx.to_address().is_empty() {
            return Err(BlockchainError::EmptyAddress);
        }
        let min_fee = Amount::from_satoshis(tx.estimate_size() as u64 * self.min_fee_rate);
        if tx.fee().satoshis() < min_fee.satoshis() {
            let mut msg = String::from_str("fee too low: ");
            let fee_text = tx.fee().to_coin_string();
            msg.append(fee_text.as_str());
            msg.append(" coins, minimum ");
            let min_text = min_fee.to_coin_string();
            msg.append(min_text.as_str());
            msg.append(" coins");
            return Err(BlockchainError::InvalidTransaction(msg));
        }
        let available = self.get_available_balance(tx.from_address());
        let total_cost = tx.total_cost();
        if total_cost.satoshis() > available.satoshis() {
            let mut msg = String::from_str("insufficient funds: has ");
            let available_text = available.to_coin_string();
            msg.append(available_text.as_str());
            msg.append(" coins, trying to send ");
            let total_text = total_cost.to_coin_string();
            msg.append(total_text.as_str());
            msg.append(" coins (amount: ");
            let amount_text = tx.amount().to_coin_string();
            msg.append(amount_text.as_str());
            msg.append(", fee: ");
            let fee_text = tx.fee().to_coin_string();
            msg.append(fee_text.as_str());
            msg.append(")");
            return Err(BlockchainError::InvalidTransaction(msg));
        }
        match tx.verify_signature() {
            Ok(valid) => {
                if !valid {
                    return Err(BlockchainError::InvalidSignature(
                        String::from_str("signature verification failed"),
                    ));
                }
            },
            Err(e) => {
                return Err(BlockchainError::InvalidSignature(e.message()));
            },
        }
        let ghost before = self.pending_transactions@;
        self.pending_transactions.push(tx);
        proof {
            assert(txs_view(self.pending_transactions@) =~= txs_view(before).push(tx@));
        }
        Ok(())
    }


    /// Mines the pending pool for `mining_reward_address` where the clock read `timestamp`
    /// for the new block and `now` after it (see `mining_outcome`). The reward, the chain's
    /// mining reward plus the pending fees, is added to the pool first.
    pub fn mine_pending_transactions_now(
        &mut self,
        mining_reward_address: String,
        timestamp: Timestamp,
        now: Timestamp,
    ) -> (res: Result<(), BlockchainError>)
        requires
            chrono_datetime_valid(timestamp),
            chrono_datetime_valid(now),
            now.nanos < 1_000_000_000,
        ensures
            mining_outcome(old(self)@, final(self)@, res, mining_reward_address@, timestamp, now),
            chain_wf(old(self)@) && (res is Err || in_rfc3339_range(timestamp)) ==> chain_wf(
                final(self)@,
            ),
    {
        let total_fees = self.calculate_total_fees();
        let total_miner_reward = match self.mining_reward.checked_add(total_fees) {
            Ok(sum) => sum,
            Err(_) => self.mining_reward,
        };
        let reward_tx = match Transaction::new_reward(mining_reward_address, total_miner_reward) {
            Ok(tx) => tx,
            Err(e) => {
                return Err(BlockchainError::InvalidTransaction(e.message()));
            },
        };
        let ghost before = self.pending_transactions@;
        self.pending_transactions.push(reward_tx);
        proof {
            assert(txs_view(self.pending_transactions@) =~= txs_view(before).push(reward_tx@));
        }
        let previous_hash = match self.get_latest_block() {
            Ok(block) => String::from_str(block.hash()),
            Err(e) => {
                return Err(e);
            },
        };
        let transactions = clone_transactions(self.pending_transactions.as_slice());
        let mut new_block = match Block::new_now(
            transactions,
            previous_hash,
            self.chain.as_slice(),
            timestamp,
            now,
        ) {
            Ok(block) => block,
            Err(e) => {
                return Err(BlockchainError::InvalidTransaction(e.message()));
            },
        };
        let ghost unmined = new_block@;
        new_block.mine_block(self.difficulty);
        let ghost old_chain = self.chain@;
        self.chain.push(new_block);
        self.pending_transactions = Vec::new();
        proof {
            let nv = blocks_view(self.chain@);
            let ov = blocks_view(old_chain);
            let txs = txs_view(before).push(reward_tx@);
            assert(nv =~= ov.push(new_block@));
            assert(nv.drop_last() =~= ov);
            assert(txs_view(self.pending_transactions@) =~= Seq::<TxModel>::empty());
            assert(unmined.transactions == txs);
            if chain_wf(old(self)@) && in_rfc3339_range(timestamp) {
                assert(timestamp_after_mtp(nv.last(), ov));
                assert forall|i: int| 1 <= i < nv.len() implies #[trigger] block_checks_ok(nv, i) by {
                    if i < ov.len() {
                        assert(nv.take(i) =~= ov.take(i));
                        assert(nv[i] == ov[i]);
                        assert(nv[i - 1] == ov[i - 1]);
                        assert(block_checks_ok(ov, i));
                    } else {
                        assert(nv.take(i) =~= ov);
                        assert(nv[i] == new_block@);
                        assert forall|k: int| 0 <= k < txs.len() implies (#[trigger] txs[k]).from.len()
                            == 0 || signature_valid(txs[k]) by {
                            if k < txs.len() - 1 {
                                assert(txs[k] == txs_view(before)[k]);
                            }
                        }
                    }
                }
            }
        }
        Ok(())
    }

    /// Mines the pending pool for `mining_reward_address` at the present time: an empty
    /// address is refused before the clock is read; otherwise the clock is read for the new
    /// block, then again for the latest time allowed (see `mine_pending_transactions_now`).
    pub fn mine_pending_transactions(&mut self, mining_reward_address: String) -> (res: Result<
        (),
        BlockchainError,
    >)
        ensures
            mining_reward_address@.len() == 0 ==> (res matches Err(
                BlockchainError::InvalidTransaction(msg),
            ) && msg@ == "from or to address is empty"@ && final(self)@ == old(self)@),
            mining_reward_address@.len() > 0 ==> exists|timestamp: Timestamp, now: Timestamp|
                {
                    &&& clock_reading(timestamp)
                    &&& clock_reading(now)
                    &&& mining_outcome(
                        old(self)@,
                        final(self)@,
                        res,
                        mining_reward_address@,
                        timestamp,
                        now,
                    )
                    &&& chain_wf(old(self)@) && (res is Err || in_rfc3339_range(timestamp))
                        ==> chain_wf(final(self)@)
                },
    {
        if mining_reward_address.as_str().is_empty() {
            return Err(BlockchainError::InvalidTransaction(TransactionError::EmptyAddress.message()));
        }
        let timestamp = utc_now();
        let now = utc_now();
        let ghost old_model = self@;
        let res = self.mine_pending_transactions_now(mining_reward_address, timestamp, now);
        proof {
            assert(mining_outcome(old_model, self@, res, mining_reward_address@, timestamp, now));
        }
        res
    }

    /// Checks block `index` of `chain` against the block before it and all blocks before
    /// it: signatures, hash, Merkle root, link, and timestamp, which must also be no later
    /// than `max_allowed`.
    pub fn validate_block_at(chain: &[Block], index: usize, max_allowed: Timestamp) -> (res: bool)
        requires
            1 <= index < chain@.len(),
            chrono_datetime_valid(max_allowed),
        ensures
            res == (block_checks_ok(blocks_view(chain@), index as int) && timestamp_not_after(
                chain@[index as int]@,
                max_allowed,
            )),
    {
        let ghost blocks = blocks_view(chain@);
        let current = &chain[index];
        let previous = &chain[index - 1];
        proof {
            assert(blocks[index as int] == current@);
            assert(blocks[index - 1] == previous@);
        }
        if !current.has_valid_transactions() {
            return false;
        }
        if !current.validate_block() {
            return false;
        }
        if !text_equal(current.previous_hash(), previous.hash()) {
            return false;
        }
        let earlier = slice_subrange(chain, 0, index);
        proof {
            assert(blocks_view(earlier@) =~= blocks.take(index as int));
        }
        current.validate_timestamp_at(earlier, max_allowed).is_ok()
    }

    /// Checks every block after the first with `validate_block_at`, block `i` against
    /// `max_allowed[i]` as the latest time allowed for it.
    pub fn validate_chain_at(chain: &[Block], max_allowed: &[Timestamp]) -> (res: bool)
        requires
            max_allowed@.len() == chain@.len(),
            forall|i: int|
                0 <= i < max_allowed@.len() ==> chrono_datetime_valid(#[trigger] max_allowed@[i]),
        ensures
            res == chain_ok_at(blocks_view(chain@), max_allowed@),
    {
        let ghost blocks = blocks_view(chain@);
        let mut i: usize = 1;
        while i < chain.len()
            invariant
                blocks == blocks_view(chain@),
                max_allowed@.len() == chain@.len(),
                forall|j: int|
                    0 <= j < max_allowed@.len() ==> chrono_datetime_valid(#[trigger] max_allowed@[j]),
                1 <= i,
                forall|k: int|
                    1 <= k < i && k < chain@.len() ==> #[trigger] block_checks_ok(blocks, k)
                        && timestamp_not_after(blocks[k], max_allowed@[k]),
            decreases chain@.len() - i,
        {
            if !Self::validate_block_at(chain, i, max_allowed[i]) {
                return false;
            }
            i += 1;
        }
        true
    }

    /// Checks every block after the first with `validate_block_at`, each against the clock
    /// read for it plus two hours; a chain of one block or none is valid without a reading.
    fn validate_chain(chain: &[Block]) -> (res: bool)
        ensures
            chain@.len() <= 1 ==> res,
            exists|nows: Seq<Timestamp>|
                clock_readings(nows, chain@.len()) && res == chain_ok_now(blocks_view(chain@), nows),
    {
        let ghost blocks = blocks_view(chain@);
        let n = chain.len();
        if n <= 1 {
            proof {
                let w = Seq::new(n as nat, |k: int| Timestamp { secs: 0, nanos: 0 });
                assert(clock_readings(w, n as nat) && chain_ok_now(blocks, w));
            }
            return true;
        }
        let origin = unix_epoch();
        let mut maxima: Vec<Timestamp> = Vec::new();
        maxima.push(origin);
        let ghost mut nows: Seq<Timestamp> = seq![origin];
        let mut i: usize = 1;
        while i < n
            invariant
                n == chain@.len(),
                blocks == blocks_view(chain@),
                1 <= i <= n,
                maxima@.len() == i,
                nows.len() == i,
                forall|k: int| 0 <= k < i ==> chrono_datetime_valid(#[trigger] maxima@[k]),
                forall|k: int|
                    1 <= k < i ==> clock_reading(#[trigger] nows[k]) && drift_in_range(nows[k])
                        && maxima@[k] == plus_drift(nows[k]),
            decreases n - i,
        {
            let now = utc_now();
            match checked_add_seconds(now, MAX_FUTURE_DRIFT_SECONDS) {
                Some(max_allowed) => {
                    maxima.push(max_allowed);
                    proof {
                        nows = nows.push(now);
                    }
                },
                None => {
                    proof {
                        let w = nows + Seq::new((n - i) as nat, |k: int| now);
                        assert(w[i as int] == now);
                        assert(!drift_in_range(now));
                        assert forall|k: int| 1 <= k < n implies clock_reading(#[trigger] w[k]) by {
                            if k >= i {
                                assert(w[k] == now);
                            }
                        }
                        assert(blocks.len() == n);
                        if chain_ok_now(blocks, w) {
                            assert(1 <= i < blocks.len());
                            assert(block_checks_ok(blocks, i as int));
                            assert(drift_in_range(w[i as int]));
                        }
                        assert(clock_readings(w, n as nat) && !chain_ok_now(blocks, w));
                    }
                    return false;
                },
            }
            i += 1;
        }
        let res = Self::validate_chain_at(chain, maxima.as_slice());
        proof {
            assert(blocks.len() == n);
            if res {
                assert forall|k: int| 1 <= k < blocks.len() implies #[trigger] block_checks_ok(
                    blocks,
                    k,
                ) && drift_in_range(nows[k]) && timestamp_not_after(blocks[k], plus_drift(nows[k])) by {
                    assert(block_checks_ok(blocks, k) && timestamp_not_after(blocks[k], maxima@[k]));
                }
            } else if chain_ok_now(blocks, nows) {
                assert forall|k: int| 1 <= k < blocks.len() implies #[trigger] block_checks_ok(
                    blocks,
                    k,
                ) && timestamp_not_after(blocks[k], maxima@[k]) by {
                    assert(block_checks_ok(blocks, k) && drift_in_range(nows[k]) && timestamp_not_after(
                        blocks[k],
                        plus_drift(nows[k]),
                    ));
                }
            }
            assert(res == chain_ok_now(blocks, nows));
            assert(clock_readings(nows, n as nat));
        }
        res
    }

    /// Whether the chain passes `validate_chain`: each block after the first is checked
    /// against the clock read for it plus two hours.
    pub fn is_chain_valid(&self) -> (res: bool)
        ensures
            self@.chain.len() <= 1 ==> res,
            exists|nows: Seq<Timestamp>|
                clock_readings(nows, self@.chain.len()) && res == chain_ok_now(self@.chain, nows),
            res ==> chain_valid_spec(self@.chain),
    {
        let res = Self::validate_chain(self.chain.as_slice());
        proof {
            let nows = choose|nows: Seq<Timestamp>|
                clock_readings(nows, self@.chain.len()) && res == chain_ok_now(self@.chain, nows);
            assert(clock_readings(nows, self@.chain.len()) && res == chain_ok_now(self@.chain, nows));
        }
        res
    }

    /// Replaces the chain with `incoming` where it is longer and passes `validate_chain_at`
    /// with `max_allowed`, clearing the pending pool; otherwise keeps everything. Returns
    /// whether it replaced.
    pub fn replace_chain_at(&mut self, incoming: Vec<Block>, max_allowed: &[Timestamp]) -> (res: bool)
        requires
            max_allowed@.len() == incoming@.len(),
            forall|i: int|
                0 <= i < max_allowed@.len() ==> chrono_datetime_valid(#[trigger] max_allowed@[i]),
        ensures
            res == (incoming@.len() > old(self)@.chain.len() && chain_ok_at(
                blocks_view(incoming@),
                max_allowed@,
            )),
            !res ==> final(self)@ == old(self)@,
            res ==> final(self)@ == (ChainModel {
                chain: blocks_view(incoming@),
                pending: Seq::empty(),
                ..old(self)@
            }),
            res ==> chain_wf(final(self)@),
    {
        if incoming.len() <= self.chain.len() {
            return false;
        }
        if !Self::validate_chain_at(incoming.as_slice(), max_allowed) {
            return false;
        }
        self.chain = incoming;
        self.pending_transactions = Vec::new();
        proof {
            assert(txs_view(self.pending_transactions@) =~= Seq::<TxModel>::empty());
        }
        true
    }

    /// Replaces the chain with `incoming` where it is longer and passes `validate_chain`,
    /// clearing the pending pool; otherwise keeps everything. Returns whether it replaced.
    pub fn replace_chain(&mut self, incoming: Vec<Block>) -> (res: bool)
        ensures
            !res ==> final(self)@ == old(self)@,
            res ==> final(self)@ == (ChainModel {
                chain: blocks_view(incoming@),
                pending: Seq::empty(),
                ..old(self)@
            }),
            incoming@.len() <= old(self)@.chain.len() ==> !res,
            incoming@.len() > old(self)@.chain.len() ==> exists|nows: Seq<Timestamp>|
                clock_readings(nows, incoming@.len()) && res == chain_ok_now(
                    blocks_view(incoming@),
                    nows,
                ),
            res ==> chain_wf(final(self)@),
    {
        if incoming.len() <= self.chain.len() {
            return false;
        }
        let ghost blocks = blocks_view(incoming@);
        if !Self::validate_chain(incoming.as_slice()) {
            return false;
        }
        proof {
            let nows = choose|nows: Seq<Timestamp>|
                clock_readings(nows, incoming@.len()) && chain_ok_now(blocks, nows);
            assert(chain_ok_now(blocks, nows));
            assert(chain_valid_spec(blocks));
        }
        self.chain = incoming;
        self.pending_transactions = Vec::new();
        proof {
            assert(txs_view(self.pending_transactions@) =~= Seq::<TxModel>::empty());
        }
        true
    }

    pub fn chain(&self) -> (res: &[Block])
        ensures
            blocks_view(res@) == self@.chain,
    {
        self.chain.as_slice()
    }

    pub fn difficulty(&self) -> (res: usize)
        ensures
            res == self@.difficulty,
    {
        self.difficulty
    }

    pub fn pending_transactions(&self) -> (res: &[Transaction])
        ensures
            txs_view(res@) == self@.pending,
    {
        self.pending_transactions.as_slice()
    }

    pub fn mining_reward(&self) -> (res: Amount)
        ensures
            res@ == self@.mining_reward,
    {
        self.mining_reward
    }

    pub fn min_fee_rate(&self) -> (res: u64)
        ensures
            res == self@.min_fee_rate,
    {
        self.min_fee_rate
    }
}


impl BlockchainError {
    /// The text of this error.
    pub fn message(&self) -> (res: String)
        ensures
            res@ == blockchain_error_text(*self),
    {
        match self {
            BlockchainError::EmptyAddress => String::from_str(
                "transaction must include from and to address",
            ),
            BlockchainError::InvalidSignature(msg) => {
                let mut text = String::from_str("invalid transaction signature: ");
                text.append(msg.as_str());
                text
            },
            BlockchainError::InvalidTransaction(msg) => {
                let mut text = String::from_str("invalid transaction: ");
                text.append(msg.as_str());
                text
            },
            BlockchainError::NoBlocks => String::from_str("blockchain has no blocks"),
        }
    }
}

} // verus!
