//! A threshold wallet core for EVM chains.
//!
//! A private key is split into Shamir shares as soon as it is generated. Any `threshold` of
//! them sign together; fewer say nothing about the key. Shares are kept sealed under a
//! passphrase. Answers of chain nodes are believed only where several nodes agree. What a
//! request comes to is decided here, one step at a time; files and the network are the
//! caller's part.

pub mod ask_laws;
pub mod bytes;
pub mod ceremony;
pub mod cli;
pub mod decoder;
pub mod encoding;
pub mod erc20;
pub mod evm;
pub mod evm_codec;
pub mod field;
pub mod flow;
pub mod flow_laws;
pub mod hash;
pub mod hex;
pub mod job;
pub mod job_laws;
pub mod json;
pub mod keys;
pub mod policy;
pub mod poll;
pub mod poly;
pub mod recovery;
pub mod request;
pub mod rlp;
pub mod rpc;
pub mod rpc_evm;
pub mod scalar;
pub mod secret;
pub mod session;
pub mod shamir;
pub mod storage;
pub mod text;
pub mod time;
pub mod wallet;
