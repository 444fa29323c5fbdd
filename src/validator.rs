use vstd::prelude::*;

use crate::keys::{ConsensusKey, IdentityKey, ByteOrder, compare_bytes};
use crate::rate::{FundingStream, RateData};
use crate::validator_state::ValidatorState;

verus! {

/// An epoch: a fixed span of blocks at whose boundary rates and validator
/// states change.
#[derive(Debug, Clone, Copy, PartialEq, Eq, Structural)]
pub struct Epoch {
    pub index: u64,
    pub duration: u64,
}

impl Epoch {
    /// The epoch that follows this one.
    pub fn next(&self) -> (r: Epoch)
        requires
            self.index < u64::MAX,
        ensures
            r == (Epoch { index: (self.index + 1) as u64, duration: self.duration }),
    {
        Epoch { index: self.index + 1, duration: self.duration }
    }
}

/// Two identity keys name the same validator.
pub open spec fn same_key(a: IdentityKey, b: IdentityKey) -> bool {
    a.bytes@ == b.bytes@
}

/// A validator's declared configuration.
#[derive(Debug)]
pub struct Validator {
    pub identity_key: IdentityKey,
    pub consensus_key: ConsensusKey,
    pub funding_streams: Vec<FundingStream>,
    pub sequence_number: u32,
}

/// Two funding-stream lists hold the same streams.
pub open spec fn same_streams(a: Seq<FundingStream>, b: Seq<FundingStream>) -> bool {
    &&& a.len() == b.len()
    &&& forall|i: int|
        0 <= i < a.len() ==> (#[trigger] a[i]).rate_bps == b[i].rate_bps && a[i].address@
            == b[i].address@
}

impl FundingStream {
    /// A copy of this funding stream.
    pub fn duplicate(&self) -> (r: FundingStream)
        ensures
            r.rate_bps == self.rate_bps,
            r.address@ == self.address@,
    {
        let address = self.address.clone();
        proof {
            assert(address@ =~= self.address@);
        }
        FundingStream { address, rate_bps: self.rate_bps }
    }
}

impl Validator {
    /// The two validators carry the same configuration.
    pub open spec fn same_config(self, other: Validator) -> bool {
        &&& same_key(self.identity_key, other.identity_key)
        &&& self.consensus_key.bytes@ == other.consensus_key.bytes@
        &&& self.sequence_number == other.sequence_number
        &&& same_streams(self.funding_streams@, other.funding_streams@)
    }

    /// A copy of this validator's configuration.
    pub fn duplicate(&self) -> (r: Validator)
        ensures
            r.same_config(*self),
            r.identity_key == self.identity_key,
            r.consensus_key == self.consensus_key,
    {
        let mut streams: Vec<FundingStream> = Vec::new();
        let mut i: usize = 0;
        while i < self.funding_streams.len()
            invariant
                0 <= i <= self.funding_streams@.len(),
                streams@.len() == i,
                forall|j: int|
                    0 <= j < i ==> (#[trigger] streams@[j]).rate_bps
                        == self.funding_streams@[j].rate_bps && streams@[j].address@
                        == self.funding_streams@[j].address@,
            decreases self.funding_streams@.len() - i,
        {
            streams.push(self.funding_streams[i].duplicate());
            i = i + 1;
        }
        Validator {
            identity_key: self.identity_key,
            consensus_key: self.consensus_key,
            funding_streams: streams,
            sequence_number: self.sequence_number,
        }
    }
}

/// A validator definition as submitted by its operator, with the signature
/// that authenticated it.
#[derive(Debug)]
pub struct ValidatorDefinition {
    pub validator: Validator,
    pub auth_sig: [u8; 64],
}

/// A validator's voting power and state.
#[derive(Debug, Clone, Copy)]
pub struct ValidatorStatus {
    pub identity_key: IdentityKey,
    pub voting_power: u64,
    pub state: ValidatorState,
}

/// Everything known of one validator.
#[derive(Debug)]
pub struct ValidatorInfo {
    pub validator: Validator,
    pub status: ValidatorStatus,
    pub rate_data: RateData,
}

impl ValidatorInfo {
    /// The status and the rate data name the same validator as the configuration.
    pub open spec fn consistent(self) -> bool {
        &&& same_key(self.status.identity_key, self.validator.identity_key)
        &&& same_key(self.rate_data.identity_key, self.validator.identity_key)
    }

    pub open spec fn key(self) -> IdentityKey {
        self.validator.identity_key
    }

    /// Checks that the status and rate data name the same validator as the
    /// configuration.
    pub fn is_consistent(&self) -> (r: bool)
        ensures
            r == self.consistent(),
    {
        let a = compare_bytes(
            self.status.identity_key.bytes.as_slice(),
            self.validator.identity_key.bytes.as_slice(),
        );
        let b = compare_bytes(
            self.rate_data.identity_key.bytes.as_slice(),
            self.validator.identity_key.bytes.as_slice(),
        );
        a == ByteOrder::Equal && b == ByteOrder::Equal
    }
}

} // verus!
