//! A single-miner proof-of-work chain: coinbase transactions, blocks linked
//! by SHA-256 digests, a randomized nonce search against a signed ceiling,
//! and an append-only chain with tail queries.
pub mod block;
pub mod blockchain;
pub mod config;
pub mod digest;
pub mod encoding;
pub mod node;
mod random;
pub mod traits;
pub mod transaction;

pub use block::Block;
pub use blockchain::Blockchain;
pub use config::Config;
pub use node::Node;
pub use traits::{Hashable, Validatable};
pub use transaction::Transaction;
