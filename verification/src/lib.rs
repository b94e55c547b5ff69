//! Staking-reward bookkeeping for a Haneul RPC client: the requests that ask a
//! full node for rewards and validator addresses, the decoding of its answers,
//! and the steps that turn owned `StakedSui` objects into delegated stakes.

pub mod address;
pub mod collect;
pub mod error;
pub mod headers;
pub mod listing;
pub mod ptb;
pub mod simulation;
pub mod stake;
pub mod stake_info;
pub mod wire;
