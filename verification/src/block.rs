use vstd::prelude::*;
use vstd::string::*;
use vstd::utf8::*;
use crate::encoding::{decimal_spec, decimal_string, hex_encode, hex_encode_spec};
use crate::hashing::{double_sha256, double_sha256_spec, sha256, sha256_digest};
use crate::merkle::{
    build_merkle_tree, calculate_merkle_root, fold_proof, generate_proof, hashes_equal,
    hashes_view, lemma_merkle_proof_complete, merkle_root_spec, merkle_tree_spec, proof_path,
    tree_view, verify_proof, zero_hash, MerkleProof, MerkleRoot,
};
use crate::timestamp::{
    checked_add_seconds, chrono_datetime_valid, clock_reading, in_rfc3339_range, is_after,
    median_spec, median_timestamp, parse_rfc3339, rfc3339_error_text, rfc3339_format,
    rfc3339_parse, rfc3339_text, time_after, utc_now, Timestamp,
};
use crate::transaction::{signature_valid, Transaction, TxModel};

verus! {

/// A block of transactions, chained to its predecessor by `previous_hash`.
#[derive(Debug)]
pub struct Block {
    timestamp: String,
    transactions: Vec<Transaction>,
    merkle_root: MerkleRoot,
    previous_hash: String,
    hash: String,
    nonce: u64,
}

/// What a block holds.
pub struct BlockModel {
    pub timestamp: Seq<char>,
    pub transactions: Seq<TxModel>,
    pub merkle_root: Seq<u8>,
    pub previous_hash: Seq<char>,
    pub hash: Seq<char>,
    pub nonce: u64,
}

/// Evidence that a transaction is in a block, checkable without the block's other
/// transactions.
#[derive(Debug)]
pub struct SPVProof {
    pub tx: Transaction,
    pub tx_index: usize,
    pub merkle_proof: MerkleProof,
    pub block_hash: String,
    pub merkle_root: MerkleRoot,
}

/// Why a block could not be formed or a proof not be given.
#[derive(Debug)]
pub enum BlockError {
    InvalidTransaction(String),
    InvalidTimestamp(String),
    MiningError(String),
}

/// The transactions' contents.
pub open spec fn txs_view(txs: Seq<Transaction>) -> Seq<TxModel> {
    txs.map_values(|t: Transaction| t@)
}

/// The text a transaction's leaf hash is computed from.
pub open spec fn tx_hash_input(m: TxModel) -> Seq<char> {
    m.from + "|"@ + m.to + "|"@ + decimal_spec(m.amount as nat) + "|"@ + decimal_spec(
        m.fee as nat,
    ) + "|"@ + match m.signature {
        Some(sig) => sig,
        None => Seq::<char>::empty(),
    }
}

/// The leaf of a transaction is SHA-256 applied twice to the UTF-8 bytes of its text, and
/// commits to its signature: its text is that of the same
/// transaction unsigned followed by the signature text, where the unsigned text joins
/// sender, receiver, decimal amount and decimal fee, each followed by `|`; so two
/// transactions that differ only in their signature texts have different leaf texts.
pub proof fn lemma_leaf_commits_to_signature(m: TxModel, other: TxModel)
    ensures
        tx_hash_spec(m) == sha256_digest(sha256_digest(encode_utf8(tx_hash_input(m)))),
        tx_hash_input(TxModel { signature: None, ..m }) == m.from + "|"@ + m.to + "|"@
            + decimal_spec(m.amount as nat) + "|"@ + decimal_spec(m.fee as nat) + "|"@,
        m.signature matches Some(sig) ==> tx_hash_input(m) == tx_hash_input(
            TxModel { signature: None, ..m },
        ) + sig,
        m.signature is None ==> tx_hash_input(m) == tx_hash_input(TxModel { signature: None, ..m }),
        ({
            let text = |t: TxModel|
                match t.signature {
                    Some(sig) => sig,
                    None => Seq::<char>::empty(),
                };
            other.from == m.from && other.to == m.to && other.amount == m.amount && other.fee
                == m.fee && text(other) != text(m) ==> tx_hash_input(other) != tx_hash_input(m)
        }),
{
    let unsigned = tx_hash_input(TxModel { signature: None, ..m });
    assert(unsigned + Seq::<char>::empty() =~= unsigned);
    let sig_m = match m.signature {
        Some(sig) => sig,
        None => Seq::<char>::empty(),
    };
    let sig_o = match other.signature {
        Some(sig) => sig,
        None => Seq::<char>::empty(),
    };
    if other.from == m.from && other.to == m.to && other.amount == m.amount && other.fee == m.fee
        && tx_hash_input(other) == tx_hash_input(m) {
        assert(tx_hash_input(m) =~= unsigned + sig_m);
        assert(tx_hash_input(other) =~= unsigned + sig_o);
        assert(sig_m =~= tx_hash_input(m).skip(unsigned.len() as int));
        assert(sig_o =~= tx_hash_input(other).skip(unsigned.len() as int));
    }
}

/// The leaf hash of a transaction in a block's Merkle tree.
pub open spec fn tx_hash_spec(m: TxModel) -> Seq<u8> {
    double_sha256_spec(encode_utf8(tx_hash_input(m)))
}

/// The leaf hashes of transactions, in order.
pub open spec fn tx_hashes_spec(txs: Seq<TxModel>) -> Seq<Seq<u8>> {
    txs.map_values(|m: TxModel| tx_hash_spec(m))
}

/// The Merkle root of transactions: zero bytes where there is none.
pub open spec fn merkle_root_of_txs(txs: Seq<TxModel>) -> Seq<u8> {
    merkle_root_spec(tx_hashes_spec(txs))
}

/// The hash of a block with these fields: hexadecimal SHA-256 of the timestamp, the
/// hexadecimal Merkle root, the previous hash and the decimal nonce, run together.
pub open spec fn block_hash_spec(
    timestamp: Seq<char>,
    merkle_root: Seq<u8>,
    previous_hash: Seq<char>,
    nonce: u64,
) -> Seq<char> {
    hex_encode_spec(
        sha256_digest(
            encode_utf8(
                timestamp + hex_encode_spec(merkle_root) + previous_hash + decimal_spec(
                    nonce as nat,
                ),
            ),
        ),
    )
}

/// The hash a block's fields call for.
pub open spec fn hash_of(b: BlockModel) -> Seq<char> {
    block_hash_spec(b.timestamp, b.merkle_root, b.previous_hash, b.nonce)
}

/// The blocks whose timestamps the median time past is taken from: the last eleven (or
/// all, where there are fewer), latest first.
pub open spec fn recent_blocks(blocks: Seq<BlockModel>) -> Seq<BlockModel> {
    let count = if blocks.len() < 11 {
        blocks.len()
    } else {
        11
    };
    Seq::new(count, |k: int| blocks[blocks.len() - 1 - k])
}

/// The instants that the blocks' timestamps read as, in order, leaving out the ones
/// that do not parse.
pub open spec fn parsed_times(blocks: Seq<BlockModel>) -> Seq<Timestamp>
    decreases blocks.len(),
{
    if blocks.len() == 0 {
        Seq::empty()
    } else {
        parsed_times(blocks.drop_last()) + match rfc3339_parse(blocks.last().timestamp) {
            Some(t) => seq![t],
            None => Seq::empty(),
        }
    }
}

/// The median time past of a chain: the median of the instants of its last eleven
/// blocks; the Unix epoch where none of them parses.
pub open spec fn median_time_past_spec(blocks: Seq<BlockModel>) -> Timestamp {
    median_spec(parsed_times(recent_blocks(blocks)))
}

/// The blocks' contents.
pub open spec fn blocks_view(blocks: Seq<Block>) -> Seq<BlockModel> {
    blocks.map_values(|b: Block| b@)
}

/// How far past the present a block's timestamp may lie, in seconds (two hours).
pub const MAX_FUTURE_DRIFT_SECONDS: i64 = 7200;

/// The latest time a block may bear when the clock reads `now`: two hours later.
pub open spec fn plus_drift(now: Timestamp) -> Timestamp {
    Timestamp { secs: (now.secs + MAX_FUTURE_DRIFT_SECONDS) as i64, nanos: now.nanos }
}

/// Whether that latest time lies within `chrono`'s range.
pub open spec fn drift_in_range(now: Timestamp) -> bool {
    now.secs + MAX_FUTURE_DRIFT_SECONDS <= i64::MAX && chrono_datetime_valid(plus_drift(now))
}

/// Whether a block's timestamp reads as an instant later than the median time past of
/// `blocks` (any instant where there are no blocks).
pub open spec fn timestamp_after_mtp(b: BlockModel, blocks: Seq<BlockModel>) -> bool {
    match rfc3339_parse(b.timestamp) {
        Some(t) => blocks.len() > 0 ==> time_after(t, median_time_past_spec(blocks)),
        None => false,
    }
}

/// Whether a block's timestamp reads as an instant no later than `max_allowed`.
pub open spec fn timestamp_not_after(b: BlockModel, max_allowed: Timestamp) -> bool {
    match rfc3339_parse(b.timestamp) {
        Some(t) => !time_after(t, max_allowed),
        None => false,
    }
}

/// The block that `transactions` and `previous_hash` form at the time with RFC 3339
/// text `timestamp`, before mining: nonce zero and the hash its fields call for.
pub open spec fn unmined_block(
    timestamp: Seq<char>,
    transactions: Seq<TxModel>,
    previous_hash: Seq<char>,
) -> BlockModel {
    let b = BlockModel {
        timestamp,
        transactions,
        merkle_root: merkle_root_of_txs(transactions),
        previous_hash,
        hash: Seq::empty(),
        nonce: 0,
    };
    BlockModel { hash: hash_of(b), ..b }
}

/// The refusal text for a block time not later than the median time past.
pub open spec fn mtp_error_text(timestamp: Timestamp, mtp: Timestamp) -> Seq<char> {
    "Block timestamp ("@ + rfc3339_format(timestamp) + ") must be greater than Median Time Past ("@
        + rfc3339_format(mtp) + ")"@
}

/// The refusal text for a block time past the latest allowed one.
pub open spec fn drift_error_text(timestamp: Timestamp, max_allowed: Timestamp) -> Seq<char> {
    "Block timestamp ("@ + rfc3339_format(timestamp) + ") is too far in the future. Max allowed: "@
        + rfc3339_format(max_allowed)
}

/// What `Block::new` answers when the clock reads `timestamp` for the block and `now`
/// after it: the median-time-past refusal first, then a refusal where `now` plus two hours
/// is out of range or earlier than `timestamp`, and otherwise the unmined block stamped
/// `timestamp`, whose RFC 3339 text reads back as `timestamp` in the years 0 to 9999.
pub open spec fn block_made_at(
    res: Result<Block, BlockError>,
    transactions: Seq<TxModel>,
    previous_hash: Seq<char>,
    blocks: Seq<BlockModel>,
    timestamp: Timestamp,
    now: Timestamp,
) -> bool {
    let mtp = median_time_past_spec(blocks);
    let on_time = blocks.len() == 0 || time_after(timestamp, mtp);
    let max_allowed = plus_drift(now);
    &&& !on_time ==> (res matches Err(BlockError::InvalidTimestamp(msg)) && msg@ == mtp_error_text(
        timestamp,
        mtp,
    ))
    &&& (on_time && !drift_in_range(now) ==> res matches Err(BlockError::InvalidTimestamp(_)))
    &&& on_time && drift_in_range(now) && time_after(timestamp, max_allowed) ==> (res matches Err(
        BlockError::InvalidTimestamp(msg),
    ) && msg@ == drift_error_text(timestamp, max_allowed))
    &&& on_time && drift_in_range(now) && !time_after(timestamp, max_allowed) ==> (res matches Ok(
        b,
    ) && b@ == unmined_block(rfc3339_format(timestamp), transactions, previous_hash))
    &&& res is Ok && in_rfc3339_range(timestamp) ==> rfc3339_parse(rfc3339_format(timestamp))
        == Some(timestamp)
}

/// The refusal text for a block whose timestamp, read as `t`, is not later than the
/// median time past `mtp`.
pub open spec fn stale_timestamp_text(t: Timestamp, mtp: Timestamp) -> Seq<char> {
    "Block timestamp must be greater than Median Time Past. Block: "@ + rfc3339_format(t)
        + ", MTP: "@ + rfc3339_format(mtp)
}

/// The refusal text for a block whose timestamp, read as `t`, is later than `max_allowed`.
pub open spec fn future_timestamp_text(t: Timestamp, max_allowed: Timestamp) -> Seq<char> {
    "Block timestamp too far in future. Block: "@ + rfc3339_format(t) + ", Max: "@
        + rfc3339_format(max_allowed)
}

/// What checking block `b` against `blocks` and the latest time `max_allowed` answers:
/// success exactly when its timestamp reads as an instant later than the median time past
/// and no later than `max_allowed`; otherwise `InvalidTimestamp`, with the text of the
/// first check that fails.
pub open spec fn timestamp_verdict(
    res: Result<(), BlockError>,
    b: BlockModel,
    blocks: Seq<BlockModel>,
    max_allowed: Timestamp,
) -> bool {
    &&& res is Ok <==> timestamp_after_mtp(b, blocks) && timestamp_not_after(b, max_allowed)
    &&& (res matches Err(e) ==> e is InvalidTimestamp)
    &&& match rfc3339_parse(b.timestamp) {
        None => res matches Err(BlockError::InvalidTimestamp(msg)) && msg@
            == "Invalid timestamp format: "@ + rfc3339_error_text(b.timestamp),
        Some(t) => {
            let mtp = median_time_past_spec(blocks);
            &&& blocks.len() > 0 && !time_after(t, mtp) ==> (res matches Err(
                BlockError::InvalidTimestamp(msg),
            ) && msg@ == stale_timestamp_text(t, mtp))
            &&& (blocks.len() == 0 || time_after(t, mtp)) && time_after(t, max_allowed) ==> (
            res matches Err(BlockError::InvalidTimestamp(msg)) && msg@ == future_timestamp_text(
                t,
                max_allowed,
            ))
        },
    }
}

/// What checking block `b` against `blocks` answers when the clock reads `now`: as
/// `timestamp_verdict` with `now` plus two hours as the latest time, and `InvalidTimestamp`
/// where that time is out of range.
pub open spec fn timestamp_verdict_now(
    res: Result<(), BlockError>,
    b: BlockModel,
    blocks: Seq<BlockModel>,
    now: Timestamp,
) -> bool {
    &&& res is Ok <==> timestamp_after_mtp(b, blocks) && drift_in_range(now) && timestamp_not_after(
        b,
        plus_drift(now),
    )
    &&& (res matches Err(e) ==> e is InvalidTimestamp)
    &&& drift_in_range(now) ==> timestamp_verdict(res, b, blocks, plus_drift(now))
}

/// Whether folding the proof's transaction leaf with its siblings reaches its root.
pub open spec fn spv_proof_valid(p: SPVProof) -> bool {
    fold_proof(tx_hash_spec(p.tx@), p.tx_index as int, hashes_view(p.merkle_proof@))
        == p.merkle_root@
}

impl View for Block {
    type V = BlockModel;

    closed spec fn view(&self) -> BlockModel {
        BlockModel {
            timestamp: self.timestamp@,
            transactions: txs_view(self.transactions@),
            merkle_root: self.merkle_root@,
            previous_hash: self.previous_hash@,
            hash: self.hash@,
            nonce: self.nonce,
        }
    }
}

/// Copies of the transactions.
pub(crate) fn clone_transactions(txs: &[Transaction]) -> (res: Vec<Transaction>)
    ensures
        res@ == txs@,
{
    let mut out: Vec<Transaction> = Vec::new();
    let mut i: usize = 0;
    while i < txs.len()
        invariant
            i <= txs@.len(),
            out@ == txs@.take(i as int),
        decreases txs@.len() - i,
    {
        out.push(txs[i].clone());
        proof {
            assert(txs@.take(i + 1) =~= txs@.take(i as int).push(txs@[i as int]));
        }
        i += 1;
    }
    proof {
        assert(txs@.take(txs@.len() as int) =~= txs@);
    }
    out
}

impl Clone for Block {
    fn clone(&self) -> (res: Self)
        ensures
            res@ == self@,
    {
        Block {
            timestamp: self.timestamp.clone(),
            transactions: clone_transactions(self.transactions.as_slice()),
            merkle_root: self.merkle_root,
            previous_hash: self.previous_hash.clone(),
            hash: self.hash.clone(),
            nonce: self.nonce,
        }
    }
}

/// The leaf hash of `tx`.
fn hash_transaction(tx: &Transaction) -> (res: [u8; 32])
    ensures
        res@ == tx_hash_spec(tx@),
{
    let mut data = String::from_str(tx.from_address());
    data.append("|");
    data.append(tx.to_address());
    data.append("|");
    let amount_text = decimal_string(tx.amount().satoshis());
    data.append(amount_text.as_str());
    data.append("|");
    let fee_text = decimal_string(tx.fee().satoshis());
    data.append(fee_text.as_str());
    data.append("|");
    match tx.signature() {
        Some(sig) => data.append(sig),
        None => {
            proof {
                reveal_strlit("");
            }
            data.append("");
        },
    }
    proof {
        assert(data@ =~= tx_hash_input(tx@));
    }
    double_sha256(data.as_str().as_bytes())
}

/// The leaf hashes of `txs`, in order.
fn tx_hashes(txs: &[Transaction]) -> (res: Vec<[u8; 32]>)
    ensures
        hashes_view(res@) == tx_hashes_spec(txs_view(txs@)),
{
    let mut out: Vec<[u8; 32]> = Vec::new();
    let mut i: usize = 0;
    while i < txs.len()
        invariant
            i <= txs@.len(),
            hashes_view(out@) =~= tx_hashes_spec(txs_view(txs@)).take(i as int),
        decreases txs@.len() - i,
    {
        let h = hash_transaction(&txs[i]);
        let ghost before = out@;
        out.push(h);
        proof {
            assert(hashes_view(out@) =~= hashes_view(before).push(h@));
            assert(tx_hashes_spec(txs_view(txs@)).take(i + 1) =~= tx_hashes_spec(
                txs_view(txs@),
            ).take(i as int).push(h@));
        }
        i += 1;
    }
    proof {
        assert(tx_hashes_spec(txs_view(txs@)).take(txs@.len() as int) =~= tx_hashes_spec(
            txs_view(txs@),
        ));
    }
    out
}

/// The hash of a block with these fields.
fn hash_block_fields(
    timestamp: &str,
    merkle_root: &[u8; 32],
    previous_hash: &str,
    nonce: u64,
) -> (res: String)
    ensures
        res@ == block_hash_spec(timestamp@, merkle_root@, previous_hash@, nonce),
{
    let mut data = String::from_str(timestamp);
    let root_text = hex_encode(merkle_root.as_slice());
    data.append(root_text.as_str());
    data.append(previous_hash);
    let nonce_text = decimal_string(nonce);
    data.append(nonce_text.as_str());
    let digest = sha256(data.as_str().as_bytes());
    hex_encode(digest.as_slice())
}

/// Whether `text` starts with `count` zero digits.
pub open spec fn meets_difficulty(text: Seq<char>, count: nat) -> bool {
    count <= text.len() && forall|i: int| 0 <= i < count ==> text[i] == '0'
}

fn has_zero_prefix(text: &str, count: usize) -> (res: bool)
    ensures
        res == meets_difficulty(text@, count as nat),
{
    let len = text.unicode_len();
    if count > len {
        return false;
    }
    let mut i: usize = 0;
    while i < count
        invariant
            count <= len,
            len == text@.len(),
            i <= count,
            forall|k: int| 0 <= k < i ==> text@[k] == '0',
        decreases count - i,
    {
        if text.get_char(i) != '0' {
            return false;
        }
        i += 1;
    }
    true
}

impl Clone for SPVProof {
    fn clone(&self) -> (res: Self)
        ensures
            res.tx@ == self.tx@,
            res.tx_index == self.tx_index,
            res.merkle_proof@ == self.merkle_proof@,
            res.block_hash@ == self.block_hash@,
            res.merkle_root == self.merkle_root,
    {
        SPVProof {
            tx: self.tx.clone(),
            tx_index: self.tx_index,
            merkle_proof: vstd::slice::slice_to_vec(self.merkle_proof.as_slice()),
            block_hash: self.block_hash.clone(),
            merkle_root: self.merkle_root,
        }
    }
}

impl SPVProof {
    /// Whether folding the transaction's leaf hash with the proof reaches the recorded
    /// Merkle root.
    pub fn verify(&self) -> (res: bool)
        ensures
            res == (fold_proof(
                tx_hash_spec(self.tx@),
                self.tx_index as int,
                hashes_view(self.merkle_proof@),
            ) == self.merkle_root@),
    {
        Block::verify_proof_with_root(
            &self.tx,
            self.tx_index,
            &self.merkle_proof,
            &self.merkle_root,
        )
    }
}

impl Block {
    /// The Merkle root of `transactions`; zero bytes where there is none. It always
    /// succeeds.
    fn calculate_merkle_root_from_txs(transactions: &[Transaction]) -> (res: Result<
        MerkleRoot,
        BlockError,
    >)
        ensures
            res matches Ok(root) && root@ == merkle_root_of_txs(txs_view(transactions@)),
    {
        if transactions.len() == 0 {
            let zero = [0u8; 32];
            proof {
                assert(zero@ =~= zero_hash());
                assert(tx_hashes_spec(txs_view(transactions@)).len() == 0);
            }
            return Ok(zero);
        }
        let hashes = tx_hashes(transactions);
        Ok(calculate_merkle_root(hashes.as_slice()))
    }

    /// The median time past of `previous_blocks` (see `median_time_past_spec`).
    fn calculate_median_time_past(previous_blocks: &[Block]) -> (res: Timestamp)
        ensures
            res == median_time_past_spec(blocks_view(previous_blocks@)),
            chrono_datetime_valid(res),
    {
        let n = previous_blocks.len();
        let count = if n < 11 {
            n
        } else {
            11
        };
        let ghost recent = recent_blocks(blocks_view(previous_blocks@));
        let mut times: Vec<Timestamp> = Vec::new();
        let mut k: usize = 0;
        while k < count
            invariant
                n == previous_blocks@.len(),
                count == recent.len(),
                recent == recent_blocks(blocks_view(previous_blocks@)),
                k <= count,
                times@ == parsed_times(recent.take(k as int)),
                forall|i: int| 0 <= i < times@.len() ==> chrono_datetime_valid(#[trigger] times@[i]),
            decreases count - k,
        {
            let block = &previous_blocks[n - 1 - k];
            proof {
                assert(recent.take(k + 1).drop_last() =~= recent.take(k as int));
                assert(recent.take(k + 1).last() == block@);
            }
            match parse_rfc3339(block.timestamp.as_str()) {
                Ok(t) => {
                    times.push(t);
                },
                Err(_) => {},
            }
            proof {
                assert(times@ =~= parsed_times(recent.take(k + 1)));
            }
            k += 1;
        }
        proof {
            assert(recent.take(count as int) =~= recent);
        }
        median_timestamp(times)
    }


    /// A new block of `transactions` after `previous_hash`, stamped `timestamp`:
    /// `InvalidTimestamp` where there are previous blocks and `timestamp` is not later
    /// than their median time past, or where it is later than `max_allowed`.
    pub fn new_at(
        transactions: Vec<Transaction>,
        previous_hash: String,
        previous_blocks: &[Block],
        timestamp: Timestamp,
        max_allowed: Timestamp,
    ) -> (res: Result<Self, BlockError>)
        requires
            chrono_datetime_valid(timestamp),
            chrono_datetime_valid(max_allowed),
        ensures
            ({
                let mtp = median_time_past_spec(blocks_view(previous_blocks@));
                previous_blocks@.len() > 0 && !time_after(timestamp, mtp) ==> (res matches Err(
                    BlockError::InvalidTimestamp(msg),
                ) && msg@ == mtp_error_text(timestamp, mtp))
            }),
            ({
                let mtp = median_time_past_spec(blocks_view(previous_blocks@));
                (previous_blocks@.len() == 0 || time_after(timestamp, mtp)) && time_after(
                    timestamp,
                    max_allowed,
                ) ==> (res matches Err(BlockError::InvalidTimestamp(msg)) && msg@
                    == drift_error_text(timestamp, max_allowed))
            }),
            ({
                let mtp = median_time_past_spec(blocks_view(previous_blocks@));
                (previous_blocks@.len() == 0 || time_after(timestamp, mtp)) && !time_after(
                    timestamp,
                    max_allowed,
                ) ==> (res matches Ok(b) && b@ == unmined_block(
                    rfc3339_format(timestamp),
                    txs_view(transactions@),
                    previous_hash@,
                ))
            }),
            in_rfc3339_range(timestamp) ==> rfc3339_parse(rfc3339_format(timestamp)) == Some(
                timestamp,
            ),
    {
        let timestamp_text = rfc3339_text(timestamp);
        if previous_blocks.len() > 0 {
            let median_time_past = Self::calculate_median_time_past(previous_blocks);
            if !is_after(timestamp, median_time_past) {
                return Err(
                    BlockError::InvalidTimestamp(Self::stale_block_message(timestamp, median_time_past)),
                );
            }
        }
        if is_after(timestamp, max_allowed) {
            let mut msg = String::from_str("Block timestamp (");
            msg.append(timestamp_text.as_str());
            msg.append(") is too far in the future. Max allowed: ");
            let max_text = rfc3339_text(max_allowed);
            msg.append(max_text.as_str());
            return Err(BlockError::InvalidTimestamp(msg));
        }
        let merkle_root = match Self::calculate_merkle_root_from_txs(transactions.as_slice()) {
            Ok(root) => root,
            Err(e) => {
                return Err(e);
            },
        };
        let mut block = Block {
            timestamp: timestamp_text,
            transactions,
            merkle_root,
            previous_hash,
            hash: String::new(),
            nonce: 0,
        };
        block.hash = block.calculate_hash();
        Ok(block)
    }

    /// The refusal text for a new block stamped `timestamp` that is not later than the
    /// median time past `mtp`.
    fn stale_block_message(timestamp: Timestamp, mtp: Timestamp) -> (res: String)
        requires
            chrono_datetime_valid(timestamp),
            chrono_datetime_valid(mtp),
        ensures
            res@ == mtp_error_text(timestamp, mtp),
    {
        let mut msg = String::from_str("Block timestamp (");
        let timestamp_text = rfc3339_text(timestamp);
        msg.append(timestamp_text.as_str());
        msg.append(") must be greater than Median Time Past (");
        let mtp_text = rfc3339_text(mtp);
        msg.append(mtp_text.as_str());
        msg.append(")");
        msg
    }

    /// A new block of `transactions` after `previous_hash`, where the clock read
    /// `timestamp` for the block and `now` after it (see `block_made_at`):
    /// `InvalidTimestamp` where there are previous blocks and `timestamp` is not later than
    /// their median time past, or where `timestamp` is later than `now` plus two hours.
    pub fn new_now(
        transactions: Vec<Transaction>,
        previous_hash: String,
        previous_blocks: &[Block],
        timestamp: Timestamp,
        now: Timestamp,
    ) -> (res: Result<Self, BlockError>)
        requires
            chrono_datetime_valid(timestamp),
            chrono_datetime_valid(now),
            now.nanos < 1_000_000_000,
        ensures
            block_made_at(
                res,
                txs_view(transactions@),
                previous_hash@,
                blocks_view(previous_blocks@),
                timestamp,
                now,
            ),
    {
        match checked_add_seconds(now, MAX_FUTURE_DRIFT_SECONDS) {
            Some(max_allowed) => {
                proof {
                    assert(max_allowed == plus_drift(now));
                }
                Self::new_at(transactions, previous_hash, previous_blocks, timestamp, max_allowed)
            },
            None => {
                if previous_blocks.len() > 0 {
                    let median_time_past = Self::calculate_median_time_past(previous_blocks);
                    if !is_after(timestamp, median_time_past) {
                        return Err(
                            BlockError::InvalidTimestamp(
                                Self::stale_block_message(timestamp, median_time_past),
                            ),
                        );
                    }
                }
                Err(
                    BlockError::InvalidTimestamp(
                        String::from_str("the latest allowed block time is out of range"),
                    ),
                )
            },
        }
    }

    /// A new block of `transactions` after `previous_hash`, stamped with the present time:
    /// the clock is read for the block, then again for the latest time allowed, two hours
    /// later (see `new_now`).
    pub fn new(
        transactions: Vec<Transaction>,
        previous_hash: String,
        previous_blocks: &[Block],
    ) -> (res: Result<Self, BlockError>)
        ensures
            exists|timestamp: Timestamp, now: Timestamp|
                clock_reading(timestamp) && clock_reading(now) && block_made_at(
                    res,
                    txs_view(transactions@),
                    previous_hash@,
                    blocks_view(previous_blocks@),
                    timestamp,
                    now,
                ),
    {
        let timestamp = utc_now();
        let now = utc_now();
        let ghost txs = txs_view(transactions@);
        let ghost prev = previous_hash@;
        let res = Self::new_now(transactions, previous_hash, previous_blocks, timestamp, now);
        proof {
            assert(block_made_at(res, txs, prev, blocks_view(previous_blocks@), timestamp, now));
        }
        res
    }

    /// A block of `transactions` after `previous_hash`, stamped `timestamp`, with no check
    /// of the time.
    pub fn origin_at(transactions: Vec<Transaction>, previous_hash: String, timestamp: Timestamp) -> (res:
        Self)
        requires
            chrono_datetime_valid(timestamp),
        ensures
            res@ == unmined_block(rfc3339_format(timestamp), txs_view(transactions@), previous_hash@),
    {
        let timestamp_text = rfc3339_text(timestamp);
        let merkle_root = match Self::calculate_merkle_root_from_txs(transactions.as_slice()) {
            Ok(root) => root,
            Err(_) => [0u8; 32],
        };
        let mut block = Block {
            timestamp: timestamp_text,
            transactions,
            merkle_root,
            previous_hash,
            hash: String::new(),
            nonce: 0,
        };
        block.hash = block.calculate_hash();
        block
    }

    /// A block of `transactions` after `previous_hash`, stamped with the present time, with
    /// no check of the time (for a genesis block).
    pub fn origin(transactions: Vec<Transaction>, previous_hash: String) -> (res: Self)
        ensures
            exists|t: Timestamp|
                clock_reading(t) && res@ == unmined_block(
                    rfc3339_format(t),
                    txs_view(transactions@),
                    previous_hash@,
                ),
    {
        let timestamp = utc_now();
        Self::origin_at(transactions, previous_hash, timestamp)
    }

    /// Checks this block's timestamp against `previous_blocks` and `max_allowed`:
    /// `InvalidTimestamp` where it does not parse, is not later than the median time past of
    /// `previous_blocks` (where there are some), or is later than `max_allowed`.
    pub fn validate_timestamp_at(&self, previous_blocks: &[Block], max_allowed: Timestamp) -> (res:
        Result<(), BlockError>)
        requires
            chrono_datetime_valid(max_allowed),
        ensures
            timestamp_verdict(res, self@, blocks_view(previous_blocks@), max_allowed),
    {
        let block_time = match parse_rfc3339(self.timestamp.as_str()) {
            Ok(t) => t,
            Err(detail) => {
                let mut msg = String::from_str("Invalid timestamp format: ");
                msg.append(detail.as_str());
                return Err(BlockError::InvalidTimestamp(msg));
            },
        };
        if previous_blocks.len() > 0 {
            let median_time_past = Self::calculate_median_time_past(previous_blocks);
            if !is_after(block_time, median_time_past) {
                let mut msg = String::from_str(
                    "Block timestamp must be greater than Median Time Past. Block: ",
                );
                let block_text = rfc3339_text(block_time);
                msg.append(block_text.as_str());
                msg.append(", MTP: ");
                let mtp_text = rfc3339_text(median_time_past);
                msg.append(mtp_text.as_str());
                return Err(BlockError::InvalidTimestamp(msg));
            }
        }
        if is_after(block_time, max_allowed) {
            let mut msg = String::from_str("Block timestamp too far in future. Block: ");
            let block_text = rfc3339_text(block_time);
            msg.append(block_text.as_str());
            msg.append(", Max: ");
            let max_text = rfc3339_text(max_allowed);
            msg.append(max_text.as_str());
            return Err(BlockError::InvalidTimestamp(msg));
        }
        Ok(())
    }

    /// Checks this block's timestamp against `previous_blocks` where the clock reads `now`:
    /// the latest time allowed is `now` plus two hours (see `timestamp_verdict_now`).
    pub fn validate_timestamp_now(&self, previous_blocks: &[Block], now: Timestamp) -> (res:
        Result<(), BlockError>)
        requires
            chrono_datetime_valid(now),
            now.nanos < 1_000_000_000,
        ensures
            timestamp_verdict_now(res, self@, blocks_view(previous_blocks@), now),
    {
        match checked_add_seconds(now, MAX_FUTURE_DRIFT_SECONDS) {
            Some(max_allowed) => {
                proof {
                    assert(max_allowed == plus_drift(now));
                }
                self.validate_timestamp_at(previous_blocks, max_allowed)
            },
            None => Err(
                BlockError::InvalidTimestamp(
                    String::from_str("the latest allowed block time is out of range"),
                ),
            ),
        }
    }

    /// Checks this block's timestamp against `previous_blocks` and the present time plus
    /// two hours (see `validate_timestamp_now`).
    pub fn validate_timestamp(&self, previous_blocks: &[Block]) -> (res: Result<(), BlockError>)
        ensures
            exists|now: Timestamp|
                clock_reading(now) && timestamp_verdict_now(
                    res,
                    self@,
                    blocks_view(previous_blocks@),
                    now,
                ),
            !timestamp_after_mtp(self@, blocks_view(previous_blocks@)) ==> res is Err,
    {
        let now = utc_now();
        let res = self.validate_timestamp_now(previous_blocks, now);
        proof {
            assert(timestamp_verdict_now(res, self@, blocks_view(previous_blocks@), now));
        }
        res
    }

    /// Raises the nonce from its present value until the block's hash starts with
    /// `difficulty` zero digits, keeping the hash in step with the nonce; it stops at the
    /// largest nonce if none below it does.
    pub fn mine_block(&mut self, difficulty: usize)
        ensures
            final(self)@ == (BlockModel {
                hash: hash_of(final(self)@),
                nonce: final(self)@.nonce,
                ..old(self)@
            }),
            old(self)@.nonce <= final(self)@.nonce,
            meets_difficulty(final(self)@.hash, difficulty as nat) || final(self)@.nonce == u64::MAX,
            old(self)@.merkle_root == merkle_root_of_txs(old(self)@.transactions) ==> (final(self)@.hash
                == hash_of(final(self)@) && final(self)@.merkle_root == merkle_root_of_txs(
                final(self)@.transactions,
            )),
            forall|n: u64|
                old(self)@.nonce <= n < final(self)@.nonce ==> !meets_difficulty(
                    #[trigger] block_hash_spec(
                        old(self)@.timestamp,
                        old(self)@.merkle_root,
                        old(self)@.previous_hash,
                        n,
                    ),
                    difficulty as nat,
                ),
    {
        let ghost start = self@;
        loop
            invariant
                start == old(self)@,
                self@ == (BlockModel { hash: self@.hash, nonce: self@.nonce, ..start }),
                start.nonce <= self@.nonce,
                forall|n: u64|
                    start.nonce <= n < self@.nonce ==> !meets_difficulty(
                        #[trigger] block_hash_spec(
                            start.timestamp,
                            start.merkle_root,
                            start.previous_hash,
                            n,
                        ),
                        difficulty as nat,
                    ),
            decreases u64::MAX - self.nonce,
        {
            self.hash = self.calculate_hash();
            proof {
                assert(self@.hash == hash_of(self@));
            }
            if has_zero_prefix(self.hash.as_str(), difficulty) {
                return;
            }
            if self.nonce == u64::MAX {
                return;
            }
            self.nonce = self.nonce + 1;
        }
    }

    /// Whether the stored hash and Merkle root are the ones the block's fields call for.
    pub fn validate_block(&self) -> (res: bool)
        ensures
            res == (self@.hash == hash_of(self@) && self@.merkle_root == merkle_root_of_txs(
                self@.transactions,
            )),
    {
        let computed_hash = self.calculate_hash();
        if self.hash != computed_hash {
            return false;
        }
        match Self::calculate_merkle_root_from_txs(self.transactions.as_slice()) {
            Ok(computed_root) => {
                if !hashes_equal(&computed_root, &self.merkle_root) {
                    return false;
                }
            },
            Err(_) => {
                return false;
            },
        }
        true
    }

    /// Whether every transaction with a sender carries a valid signature by that sender.
    pub fn has_valid_transactions(&self) -> (res: bool)
        ensures
            res == (forall|i: int|
                0 <= i < self@.transactions.len() ==> (#[trigger] self@.transactions[i]).from.len()
                    == 0 || signature_valid(self@.transactions[i])),
    {
        let mut i: usize = 0;
        while i < self.transactions.len()
            invariant
                i <= self.transactions@.len(),
                forall|k: int|
                    0 <= k < i ==> (#[trigger] self@.transactions[k]).from.len() == 0
                        || signature_valid(self@.transactions[k]),
            decreases self.transactions@.len() - i,
        {
            let tx = &self.transactions[i];
            proof {
                assert(self@.transactions[i as int] == tx@);
            }
            if tx.from_address().is_empty() {
                i += 1;
                continue;
            }
            match tx.verify_signature() {
                Ok(valid) => {
                    if !valid {
                        return false;
                    }
                },
                Err(_) => {
                    return false;
                },
            }
            i += 1;
        }
        true
    }

    /// The Merkle proof for transaction `tx_index`: `InvalidTransaction` where there is no
    /// such transaction.
    pub fn get_transaction_proof(&self, tx_index: usize) -> (res: Result<MerkleProof, BlockError>)
        ensures
            tx_index >= self@.transactions.len() ==> (res matches Err(
                BlockError::InvalidTransaction(msg),
            ) && msg@ == "Transaction index out of bounds"@),
            tx_index < self@.transactions.len() ==> (res matches Ok(proof) && hashes_view(proof@)
                == proof_path(merkle_tree_spec(tx_hashes_spec(self@.transactions)), tx_index as int)),
    {
        if tx_index >= self.transactions.len() {
            proof {
                reveal_strlit("Transaction index out of bounds");
            }
            return Err(BlockError::InvalidTransaction(
                String::from_str("Transaction index out of bounds"),
            ));
        }
        let hashes = tx_hashes(self.transactions.as_slice());
        let (_root, tree) = build_merkle_tree(hashes.as_slice());
        proof {
            lemma_merkle_proof_complete(hashes_view(hashes@), tx_index as int);
        }
        match generate_proof(tree.as_slice(), tx_index) {
            Ok(proof) => Ok(proof),
            Err(msg) => Err(BlockError::InvalidTransaction(msg)),
        }
    }

    /// Whether folding `tx`'s leaf hash at `tx_index` with `proof` reaches this block's
    /// Merkle root.
    pub fn verify_transaction_proof(
        &self,
        tx: &Transaction,
        tx_index: usize,
        proof: &MerkleProof,
    ) -> (res: bool)
        ensures
            res == (fold_proof(tx_hash_spec(tx@), tx_index as int, hashes_view(proof@))
                == self@.merkle_root),
    {
        let tx_hash = hash_transaction(tx);
        verify_proof(&tx_hash, tx_index, proof.as_slice(), &self.merkle_root)
    }

    /// An SPV proof for transaction `tx_index`: `InvalidTransaction` where there is no such
    /// transaction. Where the block's Merkle root is the one its transactions call for,
    /// the proof verifies.
    pub fn create_spv_proof(&self, tx_index: usize) -> (res: Result<SPVProof, BlockError>)
        ensures
            tx_index >= self@.transactions.len() ==> (res matches Err(
                BlockError::InvalidTransaction(msg),
            ) && msg@ == "Transaction index out of bounds"@),
            tx_index < self@.transactions.len() ==> (res matches Ok(p) && p.tx@
                == self@.transactions[tx_index as int] && p.tx_index == tx_index && hashes_view(
                p.merkle_proof@,
            ) == proof_path(merkle_tree_spec(tx_hashes_spec(self@.transactions)), tx_index as int)
                && p.block_hash@ == self@.hash && p.merkle_root@ == self@.merkle_root),
            tx_index < self@.transactions.len() && self@.merkle_root == merkle_root_of_txs(
                self@.transactions,
            ) ==> (res matches Ok(p) && spv_proof_valid(p)),
    {
        if tx_index >= self.transactions.len() {
            proof {
                reveal_strlit("Transaction index out of bounds");
            }
            return Err(BlockError::InvalidTransaction(
                String::from_str("Transaction index out of bounds"),
            ));
        }
        let proof = match self.get_transaction_proof(tx_index) {
            Ok(p) => p,
            Err(e) => {
                return Err(e);
            },
        };
        let tx = self.transactions[tx_index].clone();
        proof {
            assert(self@.transactions[tx_index as int] == tx@);
            lemma_merkle_proof_complete(tx_hashes_spec(self@.transactions), tx_index as int);
        }
        Ok(SPVProof {
            tx,
            tx_index,
            merkle_proof: proof,
            block_hash: self.hash.clone(),
            merkle_root: self.merkle_root,
        })
    }

    /// A block with exactly these fields, as a stored or received block is rebuilt.
    pub fn from_parts(
        timestamp: String,
        transactions: Vec<Transaction>,
        merkle_root: MerkleRoot,
        previous_hash: String,
        hash: String,
        nonce: u64,
    ) -> (res: Self)
        ensures
            res@ == (BlockModel {
                timestamp: timestamp@,
                transactions: txs_view(transactions@),
                merkle_root: merkle_root@,
                previous_hash: previous_hash@,
                hash: hash@,
                nonce,
            }),
    {
        Block { timestamp, transactions, merkle_root, previous_hash, hash, nonce }
    }

    /// The levels of the Merkle tree of this block's transactions, leaves first.
    pub fn merkle_tree(&self) -> (res: Vec<Vec<[u8; 32]>>)
        ensures
            tree_view(res@) == merkle_tree_spec(tx_hashes_spec(self@.transactions)),
    {
        let hashes = tx_hashes(self.transactions.as_slice());
        let (_root, tree) = build_merkle_tree(hashes.as_slice());
        tree
    }

    /// The hash this block's fields call for.
    pub fn calculate_hash(&self) -> (res: String)
        ensures
            res@ == hash_of(self@),
    {
        hash_block_fields(
            self.timestamp.as_str(),
            &self.merkle_root,
            self.previous_hash.as_str(),
            self.nonce,
        )
    }

    /// Whether folding `tx`'s leaf hash at `tx_index` with `proof` reaches `merkle_root`.
    pub fn verify_proof_with_root(
        tx: &Transaction,
        tx_index: usize,
        proof: &MerkleProof,
        merkle_root: &MerkleRoot,
    ) -> (res: bool)
        ensures
            res == (fold_proof(tx_hash_spec(tx@), tx_index as int, hashes_view(proof@))
                == merkle_root@),
    {
        let tx_hash = hash_transaction(tx);
        verify_proof(&tx_hash, tx_index, proof.as_slice(), merkle_root)
    }

    pub fn timestamp(&self) -> (res: &str)
        ensures
            res@ == self@.timestamp,
    {
        self.timestamp.as_str()
    }

    pub fn transactions(&self) -> (res: &[Transaction])
        ensures
            txs_view(res@) == self@.transactions,
    {
        self.transactions.as_slice()
    }

    pub fn previous_hash(&self) -> (res: &str)
        ensures
            res@ == self@.previous_hash,
    {
        self.previous_hash.as_str()
    }

    pub fn hash(&self) -> (res: &str)
        ensures
            res@ == self@.hash,
    {
        self.hash.as_str()
    }

    pub fn nonce(&self) -> (res: u64)
        ensures
            res == self@.nonce,
    {
        self.nonce
    }

    pub fn merkle_root(&self) -> (res: &MerkleRoot)
        ensures
            res@ == self@.merkle_root,
    {
        &self.merkle_root
    }
}


/// Every block that `Block::new`, `new_now`, `new_at`, `origin` or `origin_at` makes passes
/// `validate_block`: its hash and Merkle root are the ones its fields call for.
pub proof fn lemma_made_block_validates(
    timestamp: Seq<char>,
    transactions: Seq<TxModel>,
    previous_hash: Seq<char>,
)
    ensures
        ({
            let b = unmined_block(timestamp, transactions, previous_hash);
            b.hash == hash_of(b) && b.merkle_root == merkle_root_of_txs(b.transactions)
        }),
{
}

/// A block that `Block::new_now` makes, stamped in the years 0 to 9999, passes
/// `validate_timestamp_now` against the same blocks at its own clock reading and at any
/// later one whose latest allowed time is in range.
pub proof fn lemma_made_block_passes_timestamp_check(
    made: Result<Block, BlockError>,
    transactions: Seq<TxModel>,
    previous_hash: Seq<char>,
    blocks: Seq<BlockModel>,
    timestamp: Timestamp,
    now: Timestamp,
    later: Timestamp,
    check: Result<(), BlockError>,
)
    requires
        block_made_at(made, transactions, previous_hash, blocks, timestamp, now),
        made is Ok,
        in_rfc3339_range(timestamp),
        !time_after(now, later),
        drift_in_range(later),
        timestamp_verdict_now(check, made->Ok_0@, blocks, later),
    ensures
        check is Ok,
{
}

/// The text of a block error.
pub open spec fn block_error_text(e: BlockError) -> Seq<char> {
    match e {
        BlockError::InvalidTransaction(msg) => "invalid transaction: "@ + msg@,
        BlockError::InvalidTimestamp(msg) => "invalid timestamp: "@ + msg@,
        BlockError::MiningError(msg) => "mining error: "@ + msg@,
    }
}

impl BlockError {
    /// The text of this error.
    pub fn message(&self) -> (res: String)
        ensures
            res@ == block_error_text(*self),
    {
        let (prefix, msg) = match self {
            BlockError::InvalidTransaction(msg) => ("invalid transaction: ", msg),
            BlockError::InvalidTimestamp(msg) => ("invalid timestamp: ", msg),
            BlockError::MiningError(msg) => ("mining error: ", msg),
        };
        let mut text = String::from_str(prefix);
        text.append(msg.as_str());
        text
    }
}

} // verus!
