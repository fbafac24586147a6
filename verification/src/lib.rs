pub mod block;
pub mod blockchain;
pub mod crypto;
pub mod currency;
pub mod encoding;
pub mod hashing;
pub mod keypair;
pub mod merkle;
pub mod message;
pub mod timestamp;
pub mod transaction;

pub use merkle::{MerkleProof, MerkleRoot};
pub use message::Message;
