# blockchain

A small proof-of-work blockchain: P-256 key pairs, signed transactions, blocks with
Merkle trees and SPV proofs, median-time-past timestamp rules, mining, balances and chain
validation. The library in `src/` is written in Verus and verified; `app/` is the
command-line demonstration around it.

## Layout

- `src/merkle.rs`: Merkle roots, trees and proofs, with the proof that the proof path of
  every leaf folds to the root.
- `src/transaction.rs`: transactions, their identifiers, signing and verification.
- `src/block.rs`: blocks, their hashes, mining, timestamp checks and SPV proofs.
- `src/blockchain.rs`: the chain, the pending pool, balances, admission of transactions,
  mining and chain validation, with the invariant that every operation keeps.
- Every operation that reads the clock has a twin that takes the readings as arguments
  (`Block::new_now`, `Block::validate_timestamp_now`,
  `Blockchain::mine_pending_transactions_now`, `Blockchain::validate_chain_at`,
  `Blockchain::replace_chain_at`) and says exactly what it answers for them; the
  clock-reading form says that its answer is that of some reading. `Timestamp::now` and
  `Timestamp::parse` give instants that those twins accept.
- `src/keypair.rs`, `src/currency.rs`, `src/timestamp.rs`: key pairs, amounts in
  satoshis, and instants in UTC.
- `src/hashing.rs`, `src/encoding.rs`, `src/crypto.rs`: the calls into `sha2`, `hex`,
  `p256`, `rand` and `chrono`, each with the contract it is trusted to meet.
- `app/`: the demonstration program, coin amounts as floats, printing, the shared
  `Arc<RwLock<_>>` handle, and serializable copies of the library's types.
