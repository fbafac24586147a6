use vstd::prelude::*;
use crate::block::Block;
use crate::transaction::Transaction;

verus! {

/// A message between peers of the network.
#[derive(Debug, Clone)]
pub enum Message {
    Ping { port: u16 },
    Pong { port: u16 },
    NewBlock(Block),
    RequestBlock { index: usize },
    Block(Block),
    NewTransaction(Transaction),
    RequestChain,
    ChainResponse { blocks: Vec<Block>, length: usize },
    Inventory { block_hashes: Vec<String> },
    RequestInventory,
}

} // verus!
