//! The Apraxus (APXS) token node: signed transfers, blocks, the chain with
//! its ledger and mempool, wallets, and the decisions of the peer protocol.

pub mod amount;
pub mod api;
pub mod balances;
pub mod block;
pub mod blockchain;
pub mod crypto;
pub mod loading;
pub mod network;
pub mod text;
pub mod transaction;
pub mod wallet;
