use penumbra_stake_core::keys::IdentityKey;
use penumbra_stake_core::rate::{funding_streams_valid, BaseRateData, FundingStream, RateData};
use penumbra_stake_core::validator_state::ValidatorState;

fn key(b: u8) -> IdentityKey {
    IdentityKey { bytes: [b; 32] }
}

fn rate(reward: u64, exchange: u64) -> RateData {
    RateData {
        identity_key: key(7),
        epoch_index: 4,
        validator_reward_rate: reward,
        validator_exchange_rate: exchange,
    }
}

fn base(reward: u64, exchange: u64) -> BaseRateData {
    BaseRateData { epoch_index: 4, base_reward_rate: reward, base_exchange_rate: exchange }
}

fn stream(bps: u16) -> FundingStream {
    FundingStream { address: vec![9, 9], rate_bps: bps }
}

#[test]
fn non_active_rates_are_held_constant() {
    let r = rate(3_0000, 1_0003_0000);
    let b = base(5_0000, 2_0000_0000);
    for state in [
        ValidatorState::Inactive,
        ValidatorState::Unbonding { unbonding_epoch: 9 },
        ValidatorState::Slashed,
    ] {
        let n = r.next(&b, &[stream(100)], &state);
        assert_eq!(n.validator_reward_rate, 3_0000);
        assert_eq!(n.validator_exchange_rate, 1_0003_0000);
        assert_eq!(n.epoch_index, 5);
        assert_eq!(n.identity_key, key(7));
    }
}

#[test]
fn active_rates_take_commission_and_compound() {
    let r = rate(3_0000, 1_0000_0000);
    let b = base(3_0000, 1_0000_0000);
    // 10% commission: reward rate is 90% of the base reward rate.
    let n = r.next(&b, &[stream(600), stream(400)], &ValidatorState::Active);
    assert_eq!(n.validator_reward_rate, 2_7000);
    // exchange rate grows by the previous reward rate
    assert_eq!(n.validator_exchange_rate, 1_0003_0000);
    assert_eq!(n.epoch_index, 5);
}

#[test]
fn full_commission_leaves_no_reward() {
    let r = rate(3_0000, 1_0000_0000);
    let n = r.next(&base(3_0000, 1_0000_0000), &[stream(10000)], &ValidatorState::Active);
    assert_eq!(n.validator_reward_rate, 0);
}

#[test]
fn funding_streams_over_one_hundred_percent_are_rejected() {
    assert!(funding_streams_valid(&[stream(5000), stream(5000)]));
    assert!(!funding_streams_valid(&[stream(5000), stream(5001)]));
    assert!(funding_streams_valid(&[]));
}

#[test]
fn slash_reduces_reward_rate() {
    let mut r = rate(5000_0000, 1_0000_0000);
    r.slash(1000);
    assert_eq!(r.validator_reward_rate, 4999_9500);
    assert_eq!(r.validator_exchange_rate, 1_0000_0000);
    let mut s = rate(10, 1);
    s.slash(2_0000_0000);
    assert_eq!(s.validator_reward_rate, 0);
}

#[test]
fn delegation_and_unbonded_amounts_round_down() {
    let r = rate(0, 3_0000_0000);
    assert_eq!(r.delegation_amount(10), 3);
    assert_eq!(r.unbonded_amount(3), 9);
    assert_eq!(r.unbonded_amount(r.delegation_amount(10)), 9);
}

#[test]
fn voting_power_uses_exchange_rate_ratio() {
    let r = rate(0, 1_5000_0000);
    assert_eq!(r.voting_power(1000, &base(0, 1_0000_0000)), 1500);
    assert_eq!(r.checked_voting_power(1000, &base(0, 0)), None);
    assert_eq!(r.checked_voting_power(1000, &base(0, 3_0000_0000)), Some(500));
}

#[test]
fn base_rate_next_compounds() {
    let b = base(1, 1_0000_0000);
    let n = b.next(3_0000);
    assert_eq!(n, BaseRateData { epoch_index: 5, base_reward_rate: 3_0000, base_exchange_rate: 1_0003_0000 });
    let last = BaseRateData { epoch_index: u64::MAX, base_reward_rate: 0, base_exchange_rate: 1 };
    assert!(last.next_is_defined(0));
    assert_eq!(last.next(0).epoch_index, u64::MAX);
    assert!(!base(0, u64::MAX).next_is_defined(3_0000));
}

#[test]
fn stream_reward_amount_is_share_of_growth() {
    let s = stream(1000);
    // supply 1_000_000, base exchange rate grows from 1.0 to 1.0003: growth 300,
    // 10% of which is 30
    assert_eq!(s.reward_amount(1_000_000, &base(0, 1_0003_0000), &base(0, 1_0000_0000)), Some(30));
    assert_eq!(s.reward_amount(1_000_000, &base(0, 1_0000_0000), &base(0, 1_0003_0000)), Some(0));
}

#[test]
fn next_is_defined_checks_commission_and_overflow() {
    let r = rate(0, 1_0000_0000);
    assert!(r.next_is_defined(&[stream(10000)], &ValidatorState::Active));
    assert!(!r.next_is_defined(&[stream(10001)], &ValidatorState::Active));
    assert!(r.next_is_defined(&[stream(10001)], &ValidatorState::Inactive));
    let big = rate(u64::MAX, u64::MAX);
    assert!(!big.next_is_defined(&[], &ValidatorState::Active));
    assert_eq!(r.checked_unbonded_amount(7), Some(7));
    assert_eq!(big.checked_unbonded_amount(u64::MAX), None);
}

#[test]
fn rates_of_last_epoch_index_stay_at_it() {
    let mut r = rate(3_0000, 1_0000_0000);
    r.epoch_index = u64::MAX;
    let n = r.next(&base(0, 1), &[stream(20000)], &ValidatorState::Inactive);
    assert_eq!(n.epoch_index, u64::MAX);
    assert_eq!(n.validator_reward_rate, 3_0000);
}
