//! Staking and validator-lifecycle core of a shielded proof-of-stake chain:
//! fixed-point rate math, the per-block / per-epoch validator set, the
//! decision logic of transparent spend and output proofs, and the asset
//! registry that parses denominations.

pub mod keys;
pub mod validator_state;
pub mod rate;
pub mod validator;
pub mod validator_set;
pub mod epoch;
pub mod proofs;
pub mod registry;
pub mod params;
pub mod genesis;
