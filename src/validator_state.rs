use vstd::prelude::*;
use vstd::string::*;

verus! {

/// The state of a validator in the validator state machine.
#[derive(Debug, PartialEq, Eq, Structural, Copy, Clone)]
pub enum ValidatorState {
    /// Not part of the consensus set, but could become so with enough voting power.
    Inactive,
    /// An active part of the consensus set.
    Active,
    /// Removed from the consensus set; stake finishes unbonding at `unbonding_epoch`.
    Unbonding { unbonding_epoch: u64 },
    /// Slashed; undelegations happen immediately with no unbonding period.
    Slashed,
}

/// The name of a validator state, without the unbonding epoch.
#[derive(Debug, PartialEq, Eq, Structural, Copy, Clone)]
pub enum ValidatorStateName {
    Inactive,
    Active,
    Unbonding,
    Slashed,
}

/// The state with name `name` and unbonding epoch `epoch`, if they agree.
pub open spec fn spec_from_parts(name: ValidatorStateName, epoch: Option<u64>) -> Option<ValidatorState> {
    match (name, epoch) {
        (ValidatorStateName::Inactive, None) => Some(ValidatorState::Inactive),
        (ValidatorStateName::Active, None) => Some(ValidatorState::Active),
        (ValidatorStateName::Unbonding, Some(e)) => Some(ValidatorState::Unbonding { unbonding_epoch: e }),
        (ValidatorStateName::Slashed, None) => Some(ValidatorState::Slashed),
        _ => None,
    }
}

impl ValidatorState {
    pub open spec fn spec_name(self) -> ValidatorStateName {
        match self {
            ValidatorState::Inactive => ValidatorStateName::Inactive,
            ValidatorState::Active => ValidatorStateName::Active,
            ValidatorState::Unbonding { .. } => ValidatorStateName::Unbonding,
            ValidatorState::Slashed => ValidatorStateName::Slashed,
        }
    }

    pub open spec fn spec_unbonding_epoch(self) -> Option<u64> {
        match self {
            ValidatorState::Unbonding { unbonding_epoch } => Some(unbonding_epoch),
            _ => None,
        }
    }

    /// Returns the name of the validator state.
    pub fn name(&self) -> (r: ValidatorStateName)
        ensures
            r == self.spec_name(),
    {
        match self {
            ValidatorState::Inactive => ValidatorStateName::Inactive,
            ValidatorState::Active => ValidatorStateName::Active,
            ValidatorState::Unbonding { .. } => ValidatorStateName::Unbonding,
            ValidatorState::Slashed => ValidatorStateName::Slashed,
        }
    }

    /// Splits the state into its name and, for `Unbonding`, its unbonding epoch.
    pub fn to_parts(&self) -> (r: (ValidatorStateName, Option<u64>))
        ensures
            r.0 == self.spec_name(),
            r.1 == self.spec_unbonding_epoch(),
    {
        match self {
            ValidatorState::Inactive => (ValidatorStateName::Inactive, None),
            ValidatorState::Active => (ValidatorStateName::Active, None),
            ValidatorState::Unbonding { unbonding_epoch } => (
                ValidatorStateName::Unbonding,
                Some(*unbonding_epoch),
            ),
            ValidatorState::Slashed => (ValidatorStateName::Slashed, None),
        }
    }

    /// Rebuilds a state from its name and unbonding epoch. An unbonding epoch
    /// is required with `Unbonding` and refused with any other name.
    pub fn from_parts(name: ValidatorStateName, epoch: Option<u64>) -> (r: Option<ValidatorState>)
        ensures
            r == spec_from_parts(name, epoch),
            r is Some <==> ((name == ValidatorStateName::Unbonding) == (epoch is Some)),
    {
        match (name, epoch) {
            (ValidatorStateName::Inactive, None) => Some(ValidatorState::Inactive),
            (ValidatorStateName::Active, None) => Some(ValidatorState::Active),
            (ValidatorStateName::Unbonding, Some(unbonding_epoch)) => Some(
                ValidatorState::Unbonding { unbonding_epoch },
            ),
            (ValidatorStateName::Slashed, None) => Some(ValidatorState::Slashed),
            _ => None,
        }
    }
}

impl ValidatorStateName {
    pub open spec fn spec_to_str(self) -> Seq<char> {
        match self {
            ValidatorStateName::Inactive => "INACTIVE"@,
            ValidatorStateName::Active => "ACTIVE"@,
            ValidatorStateName::Unbonding => "UNBONDING"@,
            ValidatorStateName::Slashed => "SLASHED"@,
        }
    }

    /// The stable string form of the name, used when serializing to strings.
    pub fn to_str(&self) -> (r: &'static str)
        ensures
            r@ == self.spec_to_str(),
    {
        match self {
            ValidatorStateName::Inactive => "INACTIVE",
            ValidatorStateName::Active => "ACTIVE",
            ValidatorStateName::Unbonding => "UNBONDING",
            ValidatorStateName::Slashed => "SLASHED",
        }
    }

    /// Parses the string form written by `to_str`; any other string is refused.
    pub fn parse(s: &str) -> (r: Option<ValidatorStateName>)
        ensures
            r matches Some(n) ==> n.spec_to_str() == s@,
            r is None ==> (forall|n: ValidatorStateName| n.spec_to_str() != s@),
    {
        let owned = String::from_str(s);
        if owned == String::from_str("INACTIVE") {
            Some(ValidatorStateName::Inactive)
        } else if owned == String::from_str("ACTIVE") {
            Some(ValidatorStateName::Active)
        } else if owned == String::from_str("UNBONDING") {
            Some(ValidatorStateName::Unbonding)
        } else if owned == String::from_str("SLASHED") {
            Some(ValidatorStateName::Slashed)
        } else {
            proof {
                assert forall|n: ValidatorStateName| n.spec_to_str() != s@ by {
                    match n {
                        ValidatorStateName::Inactive => {},
                        ValidatorStateName::Active => {},
                        ValidatorStateName::Unbonding => {},
                        ValidatorStateName::Slashed => {},
                    }
                }
            }
            None
        }
    }
}

/// Splitting a state into name and unbonding epoch and rebuilding it gives
/// the state back.
pub proof fn lemma_state_parts_round_trip(state: ValidatorState)
    ensures
        spec_from_parts(state.spec_name(), state.spec_unbonding_epoch()) == Some(state),
{
}

} // verus!
