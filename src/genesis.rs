use vstd::prelude::*;

use crate::registry::{denom_view, DenomView, Denom, Registry};

verus! {

/// Why a genesis allocation or transaction could not be built.
#[derive(Debug, Clone, Copy, PartialEq, Eq, Structural)]
pub enum GenesisError {
    /// The allocation's denomination names a display unit, not a base denomination.
    InvalidDenomination,
    /// The transaction has no chain identifier.
    NoChainID,
}

/// A transparent genesis allocation.
#[derive(Debug)]
pub struct Allocation {
    pub amount: u64,
    pub denom: String,
    pub address: Vec<u8>,
}

/// The note an allocation creates: its amount of its base denomination, to
/// its address, with a zero blinding factor (genesis notes are public).
#[derive(Debug)]
pub struct GenesisNote {
    pub amount: u64,
    pub denom: Denom,
    pub address: Vec<u8>,
}

impl Allocation {
    /// The note corresponding to this allocation; its denomination must parse
    /// as a base denomination.
    pub fn note(&self, registry: &Registry) -> (r: Result<GenesisNote, GenesisError>)
        ensures
            match r {
                Ok(n) => registry.spec_parse_denom(self.denom@) == Some(denom_view(n.denom))
                    && n.amount == self.amount && n.address@ == self.address@,
                Err(e) => e == GenesisError::InvalidDenomination && registry.spec_parse_denom(
                    self.denom@,
                ) is None,
            },
    {
        match registry.parse_denom(self.denom.as_str()) {
            Some(denom) => {
                let address = self.address.clone();
                proof {
                    assert(address@ =~= self.address@);
                }
                Ok(GenesisNote { amount: self.amount, denom, address })
            },
            None => Err(GenesisError::InvalidDenomination),
        }
    }
}

/// Collects the outputs of the genesis transaction.
#[derive(Debug)]
pub struct GenesisBuilder {
    pub outputs: Vec<GenesisNote>,
    pub chain_id: Option<String>,
}

/// The genesis transaction: its outputs and chain identifier.
#[derive(Debug)]
pub struct GenesisTransaction {
    pub outputs: Vec<GenesisNote>,
    pub chain_id: String,
}

impl GenesisBuilder {
    /// A builder with no output and no chain identifier.
    pub fn new() -> (r: GenesisBuilder)
        ensures
            r.outputs@.len() == 0,
            r.chain_id is None,
    {
        GenesisBuilder { outputs: Vec::new(), chain_id: None }
    }

    /// Adds a (public) output for a genesis note.
    pub fn add_output(&mut self, note: GenesisNote)
        ensures
            final(self).outputs@ == old(self).outputs@.push(note),
            final(self).chain_id == old(self).chain_id,
    {
        self.outputs.push(note);
    }

    /// Sets the chain identifier.
    pub fn set_chain_id(self, chain_id: String) -> (r: GenesisBuilder)
        ensures
            r.outputs == self.outputs,
            r.chain_id == Some(chain_id),
    {
        GenesisBuilder { chain_id: Some(chain_id), ..self }
    }

    /// The genesis transaction, which needs a chain identifier.
    pub fn finalize(self) -> (r: Result<GenesisTransaction, GenesisError>)
        ensures
            match r {
                Ok(t) => self.chain_id == Some(t.chain_id) && t.outputs == self.outputs,
                Err(e) => e == GenesisError::NoChainID && self.chain_id is None,
            },
    {
        match self.chain_id {
            Some(chain_id) => Ok(GenesisTransaction { outputs: self.outputs, chain_id }),
            None => Err(GenesisError::NoChainID),
        }
    }
}

} // verus!
