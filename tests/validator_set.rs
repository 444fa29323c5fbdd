use penumbra_stake_core::epoch::EpochError;
use penumbra_stake_core::keys::{ConsensusKey, IdentityKey};
use penumbra_stake_core::rate::{BaseRateData, FundingStream, RateData};
use penumbra_stake_core::validator::{Epoch, Validator, ValidatorDefinition, ValidatorInfo, ValidatorStatus};
use penumbra_stake_core::validator_set::{TransitionError, ValidatorSet};
use penumbra_stake_core::validator_state::{ValidatorState, ValidatorStateName};

fn key(b: u8) -> IdentityKey {
    IdentityKey { bytes: [b; 32] }
}

fn ck(b: u8) -> ConsensusKey {
    ConsensusKey { bytes: [b; 32] }
}

fn info(b: u8, power: u64, state: ValidatorState, reward: u64, exchange: u64) -> ValidatorInfo {
    ValidatorInfo {
        validator: Validator {
            identity_key: key(b),
            consensus_key: ck(b),
            funding_streams: vec![],
            sequence_number: 0,
        },
        status: ValidatorStatus { identity_key: key(b), voting_power: power, state },
        rate_data: RateData {
            identity_key: key(b),
            epoch_index: 0,
            validator_reward_rate: reward,
            validator_exchange_rate: exchange,
        },
    }
}

fn epoch(index: u64) -> Epoch {
    Epoch { index, duration: 10 }
}

fn definition(b: u8, consensus: u8, seq: u32, sig: u8) -> ValidatorDefinition {
    ValidatorDefinition {
        validator: Validator {
            identity_key: key(b),
            consensus_key: ck(consensus),
            funding_streams: vec![FundingStream { address: vec![b], rate_bps: 100 }],
            sequence_number: seq,
        },
        auth_sig: [sig; 64],
    }
}

#[test]
fn new_set_is_sorted_and_keeps_last_duplicate() {
    let set = ValidatorSet::new(
        vec![
            info(3, 0, ValidatorState::Inactive, 0, 1),
            info(1, 0, ValidatorState::Inactive, 0, 1),
            info(3, 7, ValidatorState::Active, 0, 1),
        ],
        epoch(0),
    );
    assert_eq!(set.validator_set.len(), 2);
    assert_eq!(set.validator_set[0].validator.identity_key, key(1));
    assert_eq!(set.validator_set[1].validator.identity_key, key(3));
    assert_eq!(set.validator_set[1].status.voting_power, 7);
    assert_eq!(set.get_state(&key(3)), Some(ValidatorState::Active));
    assert_eq!(set.get_state(&key(2)), None);
}

#[test]
fn definition_conflict_picks_highest_sequence_then_smallest_signature() {
    let mut set = ValidatorSet::new(vec![], epoch(4));
    set.add_validator_definition(definition(5, 0xAA, 1, 0xAA));
    set.add_validator_definition(definition(5, 0x03, 2, 0x03));
    set.add_validator_definition(definition(5, 0x01, 2, 0x01));
    assert!(set.end_block(epoch(4)).is_ok());
    assert_eq!(set.validator_set.len(), 1);
    let v = &set.validator_set[0];
    assert_eq!(v.validator.sequence_number, 2);
    assert_eq!(v.validator.consensus_key, ck(0x01));
    assert_eq!(v.status.state, ValidatorState::Inactive);
    assert_eq!(v.status.voting_power, 0);
    assert_eq!(v.rate_data.validator_reward_rate, 0);
    assert_eq!(v.rate_data.validator_exchange_rate, 1_0000_0000);
    assert_eq!(v.rate_data.epoch_index, 4);
    assert_eq!(set.new_validators, vec![key(5)]);
    assert!(set.updated_validators.is_empty());
}

#[test]
fn definition_for_known_validator_keeps_status_and_rates() {
    let mut set = ValidatorSet::new(vec![info(2, 40, ValidatorState::Active, 5, 9)], epoch(1));
    set.add_validator_definition(definition(2, 0x22, 3, 0x10));
    assert!(set.end_block(epoch(2)).is_ok());
    let v = &set.validator_set[0];
    assert_eq!(v.validator.consensus_key, ck(0x22));
    assert_eq!(v.status.state, ValidatorState::Active);
    assert_eq!(v.status.voting_power, 40);
    assert_eq!(v.rate_data.validator_exchange_rate, 9);
    assert_eq!(set.updated_validators, vec![key(2)]);
    assert_eq!(set.epoch, epoch(2));
    assert_eq!(set.tm_validator_updates, vec![(ck(0x22), 40)]);
}

#[test]
fn consensus_updates_report_power_of_active_validators_only() {
    let mut set = ValidatorSet::new(
        vec![
            info(1, 10, ValidatorState::Active, 0, 1),
            info(2, 20, ValidatorState::Inactive, 0, 1),
            info(3, 30, ValidatorState::Slashed, 0, 1),
        ],
        epoch(0),
    );
    assert!(set.end_block(epoch(0)).is_ok());
    assert_eq!(set.tm_validator_updates, vec![(ck(1), 10), (ck(2), 0), (ck(3), 0)]);
    let mut big = ValidatorSet::new(vec![info(1, u64::MAX, ValidatorState::Active, 0, 1)], epoch(0));
    assert!(big.end_block(epoch(0)).is_err());
}

#[test]
fn transitions_follow_the_state_machine() {
    let mut set = ValidatorSet::new(
        vec![
            info(1, 10, ValidatorState::Inactive, 0, 1),
            info(2, 10, ValidatorState::Active, 0, 1),
            info(3, 10, ValidatorState::Unbonding { unbonding_epoch: 5 }, 0, 1),
        ],
        epoch(0),
    );
    assert_eq!(set.activate_validator(ck(9)), Err(TransitionError::ValidatorNotFound));
    assert_eq!(
        set.deactivate_validator(ck(1)),
        Err(TransitionError::InvalidTransition {
            from: ValidatorStateName::Inactive,
            to: ValidatorStateName::Inactive
        })
    );
    assert_eq!(set.activate_validator(ck(1)), Ok(()));
    assert_eq!(set.get_state(&key(1)), Some(ValidatorState::Active));
    assert_eq!(set.unbond_validator(ck(2), 40), Ok(()));
    assert_eq!(set.get_state(&key(2)), Some(ValidatorState::Unbonding { unbonding_epoch: 40 }));
    assert_eq!(set.validator_set[1].status.voting_power, 0);
    assert_eq!(set.deactivate_validator(ck(3)), Ok(()));
    assert_eq!(set.get_state(&key(3)), Some(ValidatorState::Inactive));
    assert_eq!(
        set.unbond_validator(ck(3), 1),
        Err(TransitionError::InvalidTransition {
            from: ValidatorStateName::Inactive,
            to: ValidatorStateName::Unbonding
        })
    );
    assert_eq!(set.get_validator_by_consensus_key(&ck(2)).unwrap().identity_key, key(2));
}

#[test]
fn slash_during_active_penalizes_and_freezes_rates() {
    let mut set = ValidatorSet::new(vec![info(4, 10, ValidatorState::Active, 5000_0000, 1_0000_0000)], epoch(0));
    assert_eq!(set.slash_validator(&ck(4), 1000), Ok(()));
    let v = &set.validator_set[0];
    assert_eq!(v.status.state, ValidatorState::Slashed);
    assert_eq!(v.rate_data.validator_reward_rate, 4999_9500);
    assert_eq!(set.slashed_validators, vec![key(4)]);
    let base = BaseRateData { epoch_index: 0, base_reward_rate: 3_0000, base_exchange_rate: 1_0000_0000 };
    let next = v.rate_data.next(&base, &[], &v.status.state);
    assert_eq!(next.validator_reward_rate, 4999_9500);
    assert_eq!(next.validator_exchange_rate, 1_0000_0000);
    let again = next.next(&base, &[], &v.status.state);
    assert_eq!(again.validator_reward_rate, 4999_9500);
    assert_eq!(again.validator_exchange_rate, 1_0000_0000);
    assert_eq!(
        set.slash_validator(&ck(4), 1000),
        Err(TransitionError::InvalidTransition {
            from: ValidatorStateName::Slashed,
            to: ValidatorStateName::Slashed
        })
    );
    assert_eq!(set.slashed_validators(), vec![key(4)]);
    assert!(set.unslashed_validators().is_empty());
}

#[test]
fn epoch_transitions_activate_top_validators() {
    let mut set = ValidatorSet::new(
        vec![
            info(1, 100, ValidatorState::Inactive, 0, 1),
            info(2, 200, ValidatorState::Inactive, 0, 1),
            info(3, 300, ValidatorState::Active, 0, 1),
            info(4, 50, ValidatorState::Active, 0, 1),
            info(5, 10, ValidatorState::Unbonding { unbonding_epoch: 3 }, 0, 1),
        ],
        epoch(0),
    );
    assert_eq!(set.process_epoch_transitions(2, epoch(3), 30), Ok(()));
    assert_eq!(set.get_state(&key(1)), Some(ValidatorState::Inactive));
    assert_eq!(set.get_state(&key(2)), Some(ValidatorState::Active));
    assert_eq!(set.get_state(&key(3)), Some(ValidatorState::Active));
    assert_eq!(set.get_state(&key(4)), Some(ValidatorState::Unbonding { unbonding_epoch: 33 }));
    assert_eq!(set.get_state(&key(5)), Some(ValidatorState::Inactive));
}

#[test]
fn epoch_transitions_refuse_contradictory_moves() {
    let mut set = ValidatorSet::new(vec![info(1, 100, ValidatorState::Unbonding { unbonding_epoch: 2 }, 0, 1)], epoch(0));
    assert!(set.process_epoch_transitions(1, epoch(3), 30).is_err());
    assert_eq!(set.get_state(&key(1)), Some(ValidatorState::Unbonding { unbonding_epoch: 2 }));
}

#[test]
fn end_epoch_activates_top_n_by_voting_power() {
    // The validators' exchange rate equals the next base exchange rate, so
    // voting power equals delegation supply.
    let mut set = ValidatorSet::new(
        vec![
            info(1, 0, ValidatorState::Inactive, 0, 1_0003_0000),
            info(2, 0, ValidatorState::Inactive, 0, 1_0003_0000),
            info(3, 0, ValidatorState::Inactive, 0, 1_0003_0000),
        ],
        epoch(7),
    );
    let base = BaseRateData { epoch_index: 8, base_reward_rate: 3_0000, base_exchange_rate: 1_0000_0000 };
    let r = set.end_epoch(base, 1_000_000, &vec![], &vec![vec![], vec![], vec![]], &vec![100, 200, 300], 2, 30);
    assert_eq!(r, Ok(()));
    assert_eq!(set.validator_set[0].status.voting_power, 100);
    assert_eq!(set.validator_set[1].status.voting_power, 200);
    assert_eq!(set.validator_set[2].status.voting_power, 300);
    assert_eq!(set.get_state(&key(1)), Some(ValidatorState::Inactive));
    assert_eq!(set.get_state(&key(2)), Some(ValidatorState::Active));
    assert_eq!(set.get_state(&key(3)), Some(ValidatorState::Active));
    assert_eq!(set.staking_token_supply, Some(1_000_000));
    assert_eq!(set.delegation_supply_updates, vec![(key(1), 100), (key(2), 200), (key(3), 300)]);
    assert_eq!(
        set.next_base_rate,
        Some(BaseRateData { epoch_index: 9, base_reward_rate: 3_0000, base_exchange_rate: 1_0003_0000 })
    );
    assert!(set.reward_notes.is_empty());
}

#[test]
fn end_epoch_applies_delegations_and_pays_commission() {
    let mut set = ValidatorSet::new(
        vec![
            info(1, 0, ValidatorState::Active, 3_0000, 1_0000_0000),
            info(2, 0, ValidatorState::Inactive, 0, 1_0000_0000),
        ],
        epoch(0),
    );
    assert!(set.update_delegations(&vec![(key(1), 400), (key(2), -50)]).is_ok());
    let committed = vec![(key(1), 600)];
    let streams = vec![
        vec![
            FundingStream { address: vec![1], rate_bps: 1000 },
            FundingStream { address: vec![2], rate_bps: 500 },
        ],
        vec![FundingStream { address: vec![3], rate_bps: 1000 }],
    ];
    let base = BaseRateData { epoch_index: 1, base_reward_rate: 3_0000, base_exchange_rate: 1_0000_0000 };
    let r = set.end_epoch(base, 1_000_000, &committed, &streams, &vec![999_000, 1_050], 10, 30);
    assert_eq!(r, Ok(()));
    // validator 1: +1000 delegation tokens, 1000 staking tokens bonded
    // validator 2: -50 delegation tokens, 50 staking tokens unbonded
    assert_eq!(set.delegation_supply_updates, vec![(key(1), 1_000_000), (key(2), 1_000)]);
    assert_eq!(set.staking_token_supply, Some(1_000_000 - 1000 + 50));
    // growth of the base exchange rate: 3bps of 1_000_000 = 300; 10% and 5% of it
    assert_eq!(set.reward_notes, vec![(30, vec![1]), (15, vec![2])]);
    let total: u64 = set.reward_notes.iter().map(|n| n.0).sum();
    assert_eq!(total, 45);
    let rates = set.next_rates.clone().unwrap();
    // 15% commission on the 3bps base reward rate
    assert_eq!(rates[0].validator_reward_rate, 2_5500);
    assert_eq!(rates[0].validator_exchange_rate, 1_0003_0000);
    assert_eq!(rates[1].validator_reward_rate, 0);
    assert_eq!(rates[1].validator_exchange_rate, 1_0000_0000);
    assert_eq!(rates[1].epoch_index, 1);
}

#[test]
fn end_epoch_rejects_excess_commission_and_underflow() {
    let mut set = ValidatorSet::new(vec![info(1, 0, ValidatorState::Active, 0, 1_0000_0000)], epoch(0));
    let base = BaseRateData { epoch_index: 1, base_reward_rate: 3_0000, base_exchange_rate: 1_0000_0000 };
    let over = vec![vec![FundingStream { address: vec![1], rate_bps: 10001 }]];
    assert_eq!(set.end_epoch(base, 10, &vec![], &over, &vec![0], 1, 1), Err(EpochError::CommissionExceeded));
    let none = vec![vec![]];
    assert_eq!(set.end_epoch(base, 10, &vec![(key(1), -5)], &none, &vec![0], 1, 1), Err(EpochError::SupplyUnderflow));
}

#[test]
fn delegation_changes_merge_per_validator() {
    let mut set = ValidatorSet::new(vec![], epoch(0));
    assert!(set.update_delegations(&vec![(key(1), 5), (key(2), -3)]).is_ok());
    assert!(set.update_delegations(&vec![(key(1), 10)]).is_ok());
    assert_eq!(set.delegation_changes, vec![(key(1), 15), (key(2), -3)]);
    assert!(set.update_delegations(&vec![(key(1), i64::MAX)]).is_err());
    assert_eq!(set.delegation_changes, vec![(key(1), 15), (key(2), -3)]);
}

#[test]
fn commit_block_clears_block_and_epoch_state() {
    let mut set = ValidatorSet::new(vec![info(1, 1, ValidatorState::Active, 0, 1)], epoch(0));
    set.add_validator_definition(definition(2, 2, 0, 0));
    set.add_supply_update("upenumbra".to_string(), 5);
    assert!(set.update_supply_for_denom("upenumbra".to_string(), 2).is_ok());
    assert_eq!(set.supply_updates, vec![("upenumbra".to_string(), 7)]);
    assert!(set.update_supply_for_denom("upenumbra".to_string(), u64::MAX).is_err());
    set.commit_block(epoch(0));
    assert!(set.validator_definitions.is_empty());
    assert!(set.supply_updates.is_empty());
    set.commit_block(epoch(1));
    assert_eq!(set.epoch, epoch(1));
    assert_eq!(set.validator_set.len(), 1);
    assert_eq!(set.next_validator_statuses().len(), 1);
    assert_eq!(set.validators_info().len(), 1);
    assert_eq!(set.validators(), vec![key(1)]);
    assert!(set.get_validator_info(&key(1)).is_some());
}

#[test]
fn end_epoch_reports_zero_exchange_rate_and_contradictory_transitions() {
    let mut set = ValidatorSet::new(vec![info(1, 0, ValidatorState::Inactive, 0, 1)], epoch(0));
    let zero = BaseRateData { epoch_index: 1, base_reward_rate: 0, base_exchange_rate: 0 };
    assert_eq!(set.end_epoch(zero, 0, &vec![], &vec![vec![]], &vec![0], 1, 1), Err(EpochError::ZeroExchangeRate));
    let mut unbonded = ValidatorSet::new(
        vec![info(1, 0, ValidatorState::Unbonding { unbonding_epoch: 0 }, 0, 1_0000_0000)],
        epoch(0),
    );
    let base = BaseRateData { epoch_index: 1, base_reward_rate: 0, base_exchange_rate: 1_0000_0000 };
    assert!(matches!(
        unbonded.end_epoch(base, 0, &vec![], &vec![vec![]], &vec![0], 1, 1),
        Err(EpochError::Transition(_))
    ));
}

#[test]
fn commit_block_clears_rewards_within_an_epoch() {
    let mut set = ValidatorSet::new(vec![info(1, 0, ValidatorState::Active, 0, 1_0000_0000)], epoch(0));
    let base = BaseRateData { epoch_index: 1, base_reward_rate: 3_0000, base_exchange_rate: 1_0000_0000 };
    let streams = vec![vec![FundingStream { address: vec![1], rate_bps: 1000 }]];
    assert_eq!(set.end_epoch(base, 10, &vec![], &streams, &vec![1_000_000], 1, 1), Ok(()));
    assert_eq!(set.reward_notes.len(), 1);
    set.commit_block(epoch(0));
    assert!(set.reward_notes.is_empty());
    assert!(set.delegation_supply_updates.is_empty());
    assert_eq!(set.staking_token_supply, None);
    assert!(set.next_rates.is_some());
    set.commit_block(epoch(1));
    assert!(set.next_rates.is_none());
    assert!(set.next_base_rate.is_none());
}

#[test]
fn unbonding_period_ends_at_last_epoch_index() {
    let mut set = ValidatorSet::new(vec![info(1, 5, ValidatorState::Active, 0, 1)], epoch(0));
    assert_eq!(set.process_epoch_transitions(0, epoch(u64::MAX - 1), 30), Ok(()));
    assert_eq!(set.get_state(&key(1)), Some(ValidatorState::Unbonding { unbonding_epoch: u64::MAX }));
}
