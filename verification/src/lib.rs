//! TenCoin: a small proof-of-work currency with a halving reward schedule,
//! bech32/p2sh style addresses and secp256k1 signatures.

pub mod text;
pub mod hexcodec;
pub mod digest;
pub mod keys;
pub mod address;
pub mod wallet;
pub mod amount;
pub mod clock;
pub mod json;
pub mod transaction;
pub mod block;
pub mod ledger;
pub mod blockchain;
pub mod api;
pub mod network;
pub mod mining;
pub mod menu;
