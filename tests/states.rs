use penumbra_stake_core::validator_state::{ValidatorState, ValidatorStateName};

#[test]
fn state_names_and_strings() {
    assert_eq!(ValidatorState::Inactive.name(), ValidatorStateName::Inactive);
    assert_eq!(ValidatorState::Unbonding { unbonding_epoch: 3 }.name(), ValidatorStateName::Unbonding);
    assert_eq!(ValidatorStateName::Active.to_str(), "ACTIVE");
    assert_eq!(ValidatorStateName::Slashed.to_str(), "SLASHED");
    assert_eq!(ValidatorStateName::parse("UNBONDING"), Some(ValidatorStateName::Unbonding));
    assert_eq!(ValidatorStateName::parse("INACTIVE"), Some(ValidatorStateName::Inactive));
    assert_eq!(ValidatorStateName::parse("active"), None);
}

#[test]
fn state_parts_round_trip() {
    let s = ValidatorState::Unbonding { unbonding_epoch: 12 };
    let (name, epoch) = s.to_parts();
    assert_eq!(epoch, Some(12));
    assert_eq!(ValidatorState::from_parts(name, epoch), Some(s));
    assert_eq!(ValidatorState::from_parts(ValidatorStateName::Active, None), Some(ValidatorState::Active));
    assert_eq!(ValidatorState::from_parts(ValidatorStateName::Active, Some(1)), None);
    assert_eq!(ValidatorState::from_parts(ValidatorStateName::Unbonding, None), None);
}
