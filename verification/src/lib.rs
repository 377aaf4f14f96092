//! The rules of a liquid staking hub: native tokens are bonded to a weighted
//! set of validators, holders own shares of the pool, and leaving the pool
//! creates a claim that is paid once the chain has released the stake.

pub mod contract;
pub mod decimal;
pub mod error;
pub mod execute;
pub mod hub;
pub mod laws;
pub mod migration;
pub mod msg;
pub mod order;
pub mod outcomes;
pub mod payload;
pub mod payment;
pub mod query;
pub mod reply;
pub mod response;
pub mod settlement;
pub mod split;
pub mod stakes;
pub mod state;
pub mod supply;
pub mod text;
