use vstd::prelude::*;

use crate::keys::IdentityKey;
use crate::validator_state::ValidatorState;

verus! {

/// One in the fixed-point scale of all rates (a rate of `RATE_SCALE` is 1.0).
pub const RATE_SCALE: u64 = 1_0000_0000;

/// One hundred percent, in basis points.
pub const MAX_COMMISSION_BPS: u64 = 1_0000;

/// A commission route: a share (in basis points) of an active validator's
/// rewards, paid to a fixed recipient address.
#[derive(Debug)]
pub struct FundingStream {
    pub address: Vec<u8>,
    pub rate_bps: u16,
}

/// The rates of a list of funding streams.
pub open spec fn stream_rates(streams: Seq<FundingStream>) -> Seq<u16> {
    streams.map_values(|s: FundingStream| s.rate_bps)
}

/// Sum of a list of rates in basis points.
pub open spec fn total_bps(rates: Seq<u16>) -> nat
    decreases rates.len(),
{
    if rates.len() == 0 {
        0
    } else {
        total_bps(rates.drop_last()) + rates.last() as nat
    }
}

/// Total commission of a list of funding streams, in basis points.
pub open spec fn commission_bps(streams: Seq<FundingStream>) -> nat {
    total_bps(stream_rates(streams))
}

proof fn lemma_total_bps_bound(rates: Seq<u16>)
    ensures
        total_bps(rates) <= 0xffff * rates.len(),
    decreases rates.len(),
{
    if rates.len() > 0 {
        lemma_total_bps_bound(rates.drop_last());
    }
}

/// Sums the commission of a list of funding streams, in basis points.
pub fn total_commission_bps(streams: &[FundingStream]) -> (r: u128)
    ensures
        r == commission_bps(streams@),
{
    let mut sum: u128 = 0;
    let mut i: usize = 0;
    while i < streams.len()
        invariant
            0 <= i <= streams@.len(),
            sum == total_bps(stream_rates(streams@.subrange(0, i as int))),
            sum <= 0xffff * i,
        decreases streams@.len() - i,
    {
        proof {
            let prefix = stream_rates(streams@.subrange(0, i as int + 1));
            assert(prefix.drop_last() =~= stream_rates(streams@.subrange(0, i as int)));
        }
        sum = sum + streams[i].rate_bps as u128;
        i = i + 1;
    }
    proof {
        assert(streams@.subrange(0, streams@.len() as int) =~= streams@);
    }
    sum
}

/// Whether a list of funding streams is acceptable: its rates sum to at most
/// one hundred percent.
pub fn funding_streams_valid(streams: &[FundingStream]) -> (r: bool)
    ensures
        r == (commission_bps(streams@) <= MAX_COMMISSION_BPS),
{
    total_commission_bps(streams) <= MAX_COMMISSION_BPS as u128
}

/// Next validator reward rate: the base reward rate less the commission.
pub open spec fn next_reward_rate(commission: nat, base_reward_rate: nat) -> int {
    ((RATE_SCALE - commission * 1_0000) * base_reward_rate) / (RATE_SCALE as int)
}

/// Next exchange rate: compounds the exchange rate by one epoch of reward.
pub open spec fn next_exchange_rate(exchange_rate: nat, reward_rate: nat) -> int {
    ((exchange_rate * (reward_rate + RATE_SCALE)) as int) / (RATE_SCALE as int)
}

/// Reward rate left after a slashing penalty (in units of the rate scale).
pub open spec fn slashed_rate(rate: nat, penalty: nat) -> nat {
    let cut = (rate * penalty) / (RATE_SCALE as nat);
    if cut >= rate {
        0
    } else {
        (rate - cut) as nat
    }
}

pub open spec fn spec_delegation_amount(unbonded: nat, exchange_rate: nat) -> int {
    ((unbonded * RATE_SCALE) as int) / (exchange_rate as int)
}

pub open spec fn spec_unbonded_amount(delegation: nat, exchange_rate: nat) -> int {
    ((delegation * exchange_rate) as int) / (RATE_SCALE as int)
}

pub open spec fn spec_voting_power(
    delegation_supply: nat,
    exchange_rate: nat,
    base_exchange_rate: nat,
) -> int {
    ((delegation_supply * exchange_rate) as int) / (base_exchange_rate as int)
}

proof fn lemma_mul_fits(a: u64, b: u64)
    ensures
        0 <= a as int * b as int <= u128::MAX,
{
    assert(0 <= a as int * b as int <= 0xffff_ffff_ffff_ffff * 0xffff_ffff_ffff_ffff)
        by (nonlinear_arith)
        requires
            a <= 0xffff_ffff_ffff_ffff,
            b <= 0xffff_ffff_ffff_ffff,
    ;
}

proof fn lemma_quotient_fits(p: int)
    requires
        p >= 0,
        p / (RATE_SCALE as int) <= u64::MAX,
    ensures
        p <= u128::MAX,
{
    let q = p / (RATE_SCALE as int);
    assert(p < (q + 1) * RATE_SCALE);
    assert((q + 1) * RATE_SCALE <= (u64::MAX + 1) * RATE_SCALE) by (nonlinear_arith)
        requires
            q <= u64::MAX,
    ;
}

/// The index of the epoch after `index`; the largest index has no successor
/// and stays as it is.
pub open spec fn next_epoch_index(index: u64) -> u64 {
    if index < u64::MAX {
        (index + 1) as u64
    } else {
        index
    }
}

/// Computes `next_epoch_index`.
pub fn following_epoch_index(index: u64) -> (r: u64)
    ensures
        r == next_epoch_index(index),
{
    if index < u64::MAX {
        index + 1
    } else {
        index
    }
}

/// Describes a validator's reward rate and voting power in some epoch.
#[derive(Debug, Clone, Copy)]
pub struct RateData {
    /// The validator's identity key.
    pub identity_key: IdentityKey,
    /// The index of the epoch for which this rate is valid.
    pub epoch_index: u64,
    /// The validator-specific reward rate.
    pub validator_reward_rate: u64,
    /// The validator-specific exchange rate.
    pub validator_exchange_rate: u64,
}

/// Describes the base reward and exchange rates in some epoch.
#[derive(Debug, Clone, Copy, PartialEq, Eq, Structural)]
pub struct BaseRateData {
    /// The index of the epoch for which this rate is valid.
    pub epoch_index: u64,
    /// The base reward rate.
    pub base_reward_rate: u64,
    /// The base exchange rate.
    pub base_exchange_rate: u64,
}

impl RateData {
    /// Whether `next` can be computed for a validator in `state`: an active
    /// validator's commission is at most one hundred percent and its next
    /// exchange rate fits in 64 bits. Any other state is always accepted.
    pub open spec fn next_defined(
        self,
        streams: Seq<FundingStream>,
        state: ValidatorState,
    ) -> bool {
        &&& state == ValidatorState::Active ==> {
            &&& commission_bps(streams) <= MAX_COMMISSION_BPS
            &&& next_exchange_rate(
                self.validator_exchange_rate as nat,
                self.validator_reward_rate as nat,
            ) <= u64::MAX
        }
    }

    /// The rate data that `next` yields.
    pub open spec fn spec_next(
        self,
        base: BaseRateData,
        streams: Seq<FundingStream>,
        state: ValidatorState,
    ) -> RateData {
        if state == ValidatorState::Active {
            RateData {
                identity_key: self.identity_key,
                epoch_index: next_epoch_index(self.epoch_index),
                validator_reward_rate: next_reward_rate(
                    commission_bps(streams),
                    base.base_reward_rate as nat,
                ) as u64,
                validator_exchange_rate: next_exchange_rate(
                    self.validator_exchange_rate as nat,
                    self.validator_reward_rate as nat,
                ) as u64,
            }
        } else {
            RateData { epoch_index: next_epoch_index(self.epoch_index), ..self }
        }
    }

    /// Compute the validator rate data for the epoch following the current one.
    ///
    /// Validators that are not active keep their rates; active validators
    /// earn the base reward rate less their funding streams' commission.
    pub fn next(
        &self,
        base_rate_data: &BaseRateData,
        funding_streams: &[FundingStream],
        validator_state: &ValidatorState,
    ) -> (r: RateData)
        requires
            self.next_defined(funding_streams@, *validator_state),
        ensures
            r == self.spec_next(*base_rate_data, funding_streams@, *validator_state),
            *validator_state == ValidatorState::Active ==> r.validator_reward_rate
                <= base_rate_data.base_reward_rate,
    {
        match validator_state {
            ValidatorState::Active => {},
            _ => {
                return RateData { epoch_index: following_epoch_index(self.epoch_index), ..*self };
            },
        }
        let commission = total_commission_bps(funding_streams);
        let scaled: u128 = RATE_SCALE as u128 - commission * 1_0000;
        proof {
            assert(scaled <= RATE_SCALE);
            assert(scaled * base_rate_data.base_reward_rate <= RATE_SCALE
                * base_rate_data.base_reward_rate) by (nonlinear_arith)
                requires
                    scaled <= RATE_SCALE,
            ;
            assert(RATE_SCALE * base_rate_data.base_reward_rate <= RATE_SCALE * u64::MAX)
                by (nonlinear_arith);
            assert((scaled * base_rate_data.base_reward_rate) / (RATE_SCALE as int)
                <= base_rate_data.base_reward_rate) by (nonlinear_arith)
                requires
                    scaled <= RATE_SCALE,
            ;
        }
        let validator_reward_rate = (scaled * base_rate_data.base_reward_rate as u128)
            / RATE_SCALE as u128;
        proof {
            lemma_quotient_fits(
                self.validator_exchange_rate as int * (self.validator_reward_rate as int
                    + RATE_SCALE),
            );
        }
        let validator_exchange_rate = (self.validator_exchange_rate as u128 * (
        self.validator_reward_rate as u128 + RATE_SCALE as u128)) / RATE_SCALE as u128;
        RateData {
            identity_key: self.identity_key,
            epoch_index: following_epoch_index(self.epoch_index),
            validator_reward_rate: validator_reward_rate as u64,
            validator_exchange_rate: validator_exchange_rate as u64,
        }
    }

    /// Whether `next` can be computed for a validator in `state` (see
    /// `next_defined`).
    pub fn next_is_defined(&self, funding_streams: &[FundingStream], validator_state: &ValidatorState) -> (r: bool)
        ensures
            r == self.next_defined(funding_streams@, *validator_state),
    {
        match validator_state {
            ValidatorState::Active => {},
            _ => {
                return true;
            },
        }
        if total_commission_bps(funding_streams) > MAX_COMMISSION_BPS as u128 {
            return false;
        }
        match (self.validator_exchange_rate as u128).checked_mul(
            self.validator_reward_rate as u128 + RATE_SCALE as u128,
        ) {
            Some(p) => p / (RATE_SCALE as u128) <= u64::MAX as u128,
            None => {
                proof {
                    let p = self.validator_exchange_rate as int * (self.validator_reward_rate as int
                        + RATE_SCALE);
                    assert(p / (RATE_SCALE as int) > u64::MAX) by (nonlinear_arith)
                        requires
                            p > u128::MAX,
                    ;
                }
                false
            },
        }
    }

    /// `unbonded_amount`, or `None` where the result does not fit in 64 bits.
    pub fn checked_unbonded_amount(&self, delegation_amount: u64) -> (r: Option<u64>)
        ensures
            r matches Some(v) ==> v == spec_unbonded_amount(
                delegation_amount as nat,
                self.validator_exchange_rate as nat,
            ),
            r is None <==> spec_unbonded_amount(
                delegation_amount as nat,
                self.validator_exchange_rate as nat,
            ) > u64::MAX,
    {
        proof {
            lemma_mul_fits(delegation_amount, self.validator_exchange_rate);
        }
        let v = (delegation_amount as u128 * self.validator_exchange_rate as u128) / RATE_SCALE as u128;
        if v > u64::MAX as u128 {
            None
        } else {
            Some(v as u64)
        }
    }

    /// `voting_power`, or `None` where the base exchange rate is zero or the
    /// result does not fit in 64 bits.
    pub fn checked_voting_power(&self, total_delegation_tokens: u64, base_rate_data: &BaseRateData) -> (r: Option<u64>)
        ensures
            r matches Some(v) ==> v == spec_voting_power(
                total_delegation_tokens as nat,
                self.validator_exchange_rate as nat,
                base_rate_data.base_exchange_rate as nat,
            ),
            r is None <==> base_rate_data.base_exchange_rate == 0 || spec_voting_power(
                total_delegation_tokens as nat,
                self.validator_exchange_rate as nat,
                base_rate_data.base_exchange_rate as nat,
            ) > u64::MAX,
    {
        if base_rate_data.base_exchange_rate == 0 {
            return None;
        }
        proof {
            lemma_mul_fits(total_delegation_tokens, self.validator_exchange_rate);
        }
        let v = (total_delegation_tokens as u128 * self.validator_exchange_rate as u128)
            / base_rate_data.base_exchange_rate as u128;
        if v > u64::MAX as u128 {
            None
        } else {
            Some(v as u64)
        }
    }

    /// Computes the amount of delegation tokens corresponding to the given
    /// amount of unbonded stake. Not an inverse of `unbonded_amount`: both
    /// round down.
    pub fn delegation_amount(&self, unbonded_amount: u64) -> (r: u64)
        requires
            self.validator_exchange_rate > 0,
            spec_delegation_amount(unbonded_amount as nat, self.validator_exchange_rate as nat)
                <= u64::MAX,
        ensures
            r == spec_delegation_amount(unbonded_amount as nat, self.validator_exchange_rate as nat),
    {
        proof {
            lemma_mul_fits(unbonded_amount, RATE_SCALE);
        }
        ((unbonded_amount as u128 * RATE_SCALE as u128) / self.validator_exchange_rate as u128) as u64
    }

    /// Applies a slashing penalty (in units of the rate scale) to the reward
    /// rate, saturating at zero.
    pub fn slash(&mut self, slashing_penalty: u64)
        ensures
            *final(self) == (RateData {
                validator_reward_rate: slashed_rate(
                    old(self).validator_reward_rate as nat,
                    slashing_penalty as nat,
                ) as u64,
                ..*old(self)
            }),
    {
        proof {
            lemma_mul_fits(self.validator_reward_rate, slashing_penalty);
        }
        let cut = (self.validator_reward_rate as u128 * slashing_penalty as u128)
            / RATE_SCALE as u128;
        if cut >= self.validator_reward_rate as u128 {
            self.validator_reward_rate = 0;
        } else {
            self.validator_reward_rate = self.validator_reward_rate - cut as u64;
        }
    }

    /// Computes the amount of unbonded stake corresponding to the given
    /// amount of delegation tokens. Not an inverse of `delegation_amount`.
    pub fn unbonded_amount(&self, delegation_amount: u64) -> (r: u64)
        requires
            spec_unbonded_amount(delegation_amount as nat, self.validator_exchange_rate as nat)
                <= u64::MAX,
        ensures
            r == spec_unbonded_amount(delegation_amount as nat, self.validator_exchange_rate as nat),
    {
        proof {
            lemma_mul_fits(delegation_amount, self.validator_exchange_rate);
        }
        ((delegation_amount as u128 * self.validator_exchange_rate as u128) / RATE_SCALE as u128) as u64
    }

    /// Computes the validator's voting power at this epoch given the total
    /// supply of the validator's delegation tokens.
    pub fn voting_power(&self, total_delegation_tokens: u64, base_rate_data: &BaseRateData) -> (r:
        u64)
        requires
            base_rate_data.base_exchange_rate > 0,
            spec_voting_power(
                total_delegation_tokens as nat,
                self.validator_exchange_rate as nat,
                base_rate_data.base_exchange_rate as nat,
            ) <= u64::MAX,
        ensures
            r == spec_voting_power(
                total_delegation_tokens as nat,
                self.validator_exchange_rate as nat,
                base_rate_data.base_exchange_rate as nat,
            ),
    {
        proof {
            lemma_mul_fits(total_delegation_tokens, self.validator_exchange_rate);
        }
        ((total_delegation_tokens as u128 * self.validator_exchange_rate as u128)
            / base_rate_data.base_exchange_rate as u128) as u64
    }
}

impl BaseRateData {
    /// Whether `next` can be computed: the next base exchange rate fits in
    /// 64 bits.
    pub open spec fn next_defined(self, base_reward_rate: u64) -> bool {
        next_exchange_rate(self.base_exchange_rate as nat, base_reward_rate as nat)
            <= u64::MAX
    }

    /// Whether `next` can be computed (see `next_defined`).
    pub fn next_is_defined(&self, base_reward_rate: u64) -> (r: bool)
        ensures
            r == self.next_defined(base_reward_rate),
    {
        match (self.base_exchange_rate as u128).checked_mul(
            base_reward_rate as u128 + RATE_SCALE as u128,
        ) {
            Some(p) => p / (RATE_SCALE as u128) <= u64::MAX as u128,
            None => {
                proof {
                    let p = self.base_exchange_rate as int * (base_reward_rate as int + RATE_SCALE);
                    assert(p / (RATE_SCALE as int) > u64::MAX) by (nonlinear_arith)
                        requires
                            p > u128::MAX,
                    ;
                }
                false
            },
        }
    }

    /// Compute the base rate data for the epoch following the current one,
    /// given the next epoch's base reward rate.
    pub fn next(&self, base_reward_rate: u64) -> (r: BaseRateData)
        requires
            self.next_defined(base_reward_rate),
        ensures
            r == (BaseRateData {
                epoch_index: next_epoch_index(self.epoch_index),
                base_reward_rate,
                base_exchange_rate: next_exchange_rate(
                    self.base_exchange_rate as nat,
                    base_reward_rate as nat,
                ) as u64,
            }),
    {
        proof {
            lemma_quotient_fits(
                self.base_exchange_rate as int * (base_reward_rate as int + RATE_SCALE),
            );
        }
        let base_exchange_rate = (self.base_exchange_rate as u128 * (base_reward_rate as u128
            + RATE_SCALE as u128)) / RATE_SCALE as u128;
        BaseRateData {
            base_exchange_rate: base_exchange_rate as u64,
            base_reward_rate,
            epoch_index: following_epoch_index(self.epoch_index),
        }
    }
}

/// Commission reward of a funding stream for one epoch: its share (in basis
/// points) of the growth that the base exchange rate gave to `supply`
/// delegation tokens.
pub open spec fn spec_reward_amount(
    rate_bps: nat,
    supply: nat,
    next_exchange_rate: nat,
    current_exchange_rate: nat,
) -> int {
    if next_exchange_rate <= current_exchange_rate {
        0
    } else {
        let growth = (supply * (next_exchange_rate - current_exchange_rate) as nat) / (
        RATE_SCALE as nat);
        (growth * rate_bps) as int / (MAX_COMMISSION_BPS as int)
    }
}

impl FundingStream {
    /// The commission this stream earns for the epoch from `supply`
    /// delegation tokens, or `None` where it does not fit in 64 bits.
    pub fn reward_amount(
        &self,
        total_delegation_tokens: u64,
        next_base_rate: &BaseRateData,
        current_base_rate: &BaseRateData,
    ) -> (r: Option<u64>)
        ensures
            r matches Some(v) ==> v == spec_reward_amount(
                self.rate_bps as nat,
                total_delegation_tokens as nat,
                next_base_rate.base_exchange_rate as nat,
                current_base_rate.base_exchange_rate as nat,
            ),
            r is None <==> spec_reward_amount(
                self.rate_bps as nat,
                total_delegation_tokens as nat,
                next_base_rate.base_exchange_rate as nat,
                current_base_rate.base_exchange_rate as nat,
            ) > u64::MAX,
    {
        if next_base_rate.base_exchange_rate <= current_base_rate.base_exchange_rate {
            return Some(0);
        }
        let delta = next_base_rate.base_exchange_rate - current_base_rate.base_exchange_rate;
        proof {
            lemma_mul_fits(total_delegation_tokens, delta);
        }
        let growth = (total_delegation_tokens as u128 * delta as u128) / RATE_SCALE as u128;
        proof {
            assert(growth * self.rate_bps <= u128::MAX) by (nonlinear_arith)
                requires
                    growth <= u128::MAX / 100000000,
                    self.rate_bps <= 0xffff,
            ;
        }
        let amount = (growth * self.rate_bps as u128) / MAX_COMMISSION_BPS as u128;
        if amount > u64::MAX as u128 {
            None
        } else {
            Some(amount as u64)
        }
    }
}

/// Validators that are not active keep both rates from one epoch to the
/// next; only the epoch index advances.
pub proof fn lemma_inactive_rates_constant(
    rate: RateData,
    base: BaseRateData,
    streams: Seq<FundingStream>,
    state: ValidatorState,
)
    requires
        state != ValidatorState::Active,
    ensures
        rate.next_defined(streams, state),
        rate.spec_next(base, streams, state).validator_reward_rate == rate.validator_reward_rate,
        rate.spec_next(base, streams, state).validator_exchange_rate
            == rate.validator_exchange_rate,
        rate.spec_next(base, streams, state).identity_key == rate.identity_key,
        rate.spec_next(base, streams, state).epoch_index == next_epoch_index(rate.epoch_index),
        rate.epoch_index < u64::MAX ==> rate.spec_next(base, streams, state).epoch_index
            == rate.epoch_index + 1,
{
}

} // verus!
