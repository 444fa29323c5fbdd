use vstd::prelude::*;
use vstd::string::*;

use crate::keys::IdentityKey;
use crate::registry::Denom;

verus! {

/// Supply information of an asset, as of some block.
#[derive(Debug)]
pub struct AssetInfo {
    pub asset_id: [u8; 32],
    pub denom: Denom,
    pub as_of_block_height: u64,
    pub total_supply: u64,
}

/// The chain's persisted configuration.
#[derive(Debug)]
pub struct ChainParams {
    pub chain_id: String,
    pub epoch_duration: u64,
    pub unbonding_epochs: u64,
    /// The number of validators allowed in the consensus set (Active state).
    pub active_validator_limit: u64,
    /// Slashing penalty in basis points.
    pub slashing_penalty: u64,
    /// Whether IBC (forming connections, processing IBC packets) is enabled.
    pub ibc_enabled: bool,
    /// Whether inbound ICS-20 transfers are enabled.
    pub inbound_ics20_transfers_enabled: bool,
    /// Whether outbound ICS-20 transfers are enabled.
    pub outbound_ics20_transfers_enabled: bool,
}

impl Default for ChainParams {
    fn default() -> (r: ChainParams)
        ensures
            r.chain_id@ == Seq::<char>::empty(),
            r.epoch_duration == 8640,
            r.unbonding_epochs == 30,
            r.active_validator_limit == 10,
            r.slashing_penalty == 1000,
            !r.ibc_enabled,
            !r.inbound_ics20_transfers_enabled,
            !r.outbound_ics20_transfers_enabled,
    {
        ChainParams {
            chain_id: String::new(),
            epoch_duration: 8640,
            unbonding_epochs: 30,
            active_validator_limit: 10,
            // 1000 basis points = 10%
            slashing_penalty: 1000,
            ibc_enabled: false,
            inbound_ics20_transfers_enabled: false,
            outbound_ics20_transfers_enabled: false,
        }
    }
}

/// A transaction action withdrawing stake from a validator's delegation pool.
#[derive(Debug, Clone, Copy)]
pub struct Undelegate {
    /// The validator to undelegate from.
    pub validator_identity: IdentityKey,
    /// The epoch in which the undelegation was made; it takes effect after
    /// the unbonding period.
    pub epoch_index: u64,
    /// The amount to undelegate, in units of unbonded stake.
    pub unbonded_amount: u64,
    /// The amount of delegation tokens the action consumes.
    pub delegation_amount: u64,
}

} // verus!
