//! Worker node of a decentralised compute network: the rules by which it scans
//! the ledger, gates and dispatches compute requests, prepares and interprets
//! sandboxed runs, encodes results and signs what it submits.
//!
//! The library decides and computes; it performs no input or output. Whoever
//! runs the node polls the ledger, fetches code bundles, starts the
//! interpreter and sends transactions, and hands what came of it to the
//! library as plain values.

pub mod arweave;
pub mod config;
pub mod encoding;
pub mod error;
pub mod executor;
pub mod js_executor;
pub mod json;
pub mod listener;
pub mod number;
pub mod respond;
pub mod uint256;

pub use arweave::ArweaveClient;
pub use config::Config;
pub use executor::Executor;
pub use listener::EventListener;
