use vstd::prelude::*;

use crate::keys::{ByteOrder, IdentityKey};
use crate::rate::{
    next_epoch_index,
    commission_bps, funding_streams_valid, MAX_COMMISSION_BPS, next_exchange_rate, spec_reward_amount, spec_unbonded_amount,
    spec_voting_power, BaseRateData, FundingStream, RateData,
};
use crate::validator::ValidatorStatus;
use crate::validator_set::{
    epoch_transition, in_top, total_for, with_status, TransitionError, ValidatorSet,
};
use crate::validator::ValidatorInfo;
use crate::validator_state::ValidatorState;

verus! {

/// Base reward rate of every epoch: 3 basis points.
pub const BASE_REWARD_RATE: u64 = 3_0000;

/// Why the end of an epoch could not be accounted. Each of these is a broken
/// invariant of the chain's state, not a fault of a transaction.
#[derive(Debug, Clone, Copy, PartialEq, Eq, Structural)]
pub enum EpochError {
    /// A rate, a supply, a voting power, a reward or the epoch index left the
    /// 64-bit range.
    Overflow,
    /// An active validator's funding streams claim more than one hundred percent.
    CommissionExceeded,
    /// A token supply would fall below zero.
    SupplyUnderflow,
    /// The base exchange rate of the next epoch is zero.
    ZeroExchangeRate,
    /// The state transitions of the epoch boundary contradict each other.
    Transition(TransitionError),
}

/// Reward notes with their addresses as byte sequences.
pub open spec fn note_view(notes: Seq<(u64, Vec<u8>)>) -> Seq<(u64, Seq<u8>)> {
    notes.map_values(|n: (u64, Vec<u8>)| (n.0, n.1@))
}

/// The reward of one funding stream, as paid.
pub open spec fn stream_reward(
    f: FundingStream,
    supply: nat,
    next: BaseRateData,
    current: BaseRateData,
) -> u64 {
    spec_reward_amount(
        f.rate_bps as nat,
        supply,
        next.base_exchange_rate as nat,
        current.base_exchange_rate as nat,
    ) as u64
}

/// The reward notes of a list of funding streams.
pub open spec fn stream_notes(
    streams: Seq<FundingStream>,
    supply: nat,
    next: BaseRateData,
    current: BaseRateData,
) -> Seq<(u64, Seq<u8>)> {
    streams.map_values(|f: FundingStream| (stream_reward(f, supply, next, current), f.address@))
}

/// Sum of the amounts of a list of notes.
pub open spec fn note_total(notes: Seq<(u64, Seq<u8>)>) -> int
    decreases notes.len(),
{
    if notes.len() == 0 {
        0
    } else {
        note_total(notes.drop_last()) + notes.last().0
    }
}

/// Sum of the rewards of a list of funding streams.
pub open spec fn stream_rewards(
    streams: Seq<FundingStream>,
    supply: nat,
    next: BaseRateData,
    current: BaseRateData,
) -> int
    decreases streams.len(),
{
    if streams.len() == 0 {
        0
    } else {
        stream_rewards(streams.drop_last(), supply, next, current) + stream_reward(
            streams.last(),
            supply,
            next,
            current,
        )
    }
}

/// The base rates of the epoch after the one `current` describes.
pub open spec fn base_next(current: BaseRateData) -> BaseRateData {
    BaseRateData {
        epoch_index: next_epoch_index(current.epoch_index),
        base_reward_rate: BASE_REWARD_RATE,
        base_exchange_rate: next_exchange_rate(
            current.base_exchange_rate as nat,
            BASE_REWARD_RATE as nat,
        ) as u64,
    }
}

pub open spec fn abs(x: int) -> int {
    if x < 0 {
        -x
    } else {
        x
    }
}

proof fn lemma_note_total_append(a: Seq<(u64, Seq<u8>)>, b: Seq<(u64, Seq<u8>)>)
    ensures
        note_total(a + b) == note_total(a) + note_total(b),
    decreases b.len(),
{
    if b.len() == 0 {
        assert(a + b =~= a);
    } else {
        assert((a + b).drop_last() =~= a + b.drop_last());
        lemma_note_total_append(a, b.drop_last());
    }
}

proof fn lemma_stream_notes_total(
    streams: Seq<FundingStream>,
    supply: nat,
    next: BaseRateData,
    current: BaseRateData,
)
    ensures
        note_total(stream_notes(streams, supply, next, current)) == stream_rewards(
            streams,
            supply,
            next,
            current,
        ),
    decreases streams.len(),
{
    if streams.len() > 0 {
        assert(stream_notes(streams, supply, next, current).drop_last() =~= stream_notes(
            streams.drop_last(),
            supply,
            next,
            current,
        ));
        lemma_stream_notes_total(streams.drop_last(), supply, next, current);
    }
}

impl ValidatorSet {
    /// Net delegation change of the epoch for key `k`: what the store holds
    /// plus what this block added.
    pub open spec fn epoch_delta(self, committed: Seq<(IdentityKey, i64)>, k: IdentityKey) -> int {
        total_for(committed, k) + total_for(self.delegation_changes@, k)
    }

    /// Delegation-token supply of validator `i` after the epoch's changes.
    pub open spec fn epoch_supply(
        self,
        committed: Seq<(IdentityKey, i64)>,
        supplies: Seq<u64>,
        i: int,
    ) -> int {
        supplies[i] + self.epoch_delta(committed, self.validator_set@[i].key())
    }

    /// Rates of validator `i` in the next epoch.
    pub open spec fn epoch_rate(
        self,
        streams: Seq<Vec<FundingStream>>,
        next: BaseRateData,
        i: int,
    ) -> RateData {
        self.validator_set@[i].rate_data.spec_next(
            next,
            streams[i]@,
            self.validator_set@[i].status.state,
        )
    }

    /// Voting power of validator `i` in the next epoch.
    pub open spec fn epoch_power(
        self,
        committed: Seq<(IdentityKey, i64)>,
        streams: Seq<Vec<FundingStream>>,
        supplies: Seq<u64>,
        next: BaseRateData,
        i: int,
    ) -> int {
        spec_voting_power(
            self.epoch_supply(committed, supplies, i) as nat,
            self.epoch_rate(streams, next, i).validator_exchange_rate as nat,
            next.base_exchange_rate as nat,
        )
    }

    /// Change of the staking-token supply caused by validator `i`: a net
    /// delegation takes the unbonded amount out, a net undelegation puts it back.
    pub open spec fn staking_change(self, committed: Seq<(IdentityKey, i64)>, i: int) -> int {
        let d = self.epoch_delta(committed, self.validator_set@[i].key());
        let u = spec_unbonded_amount(
            abs(d) as nat,
            self.validator_set@[i].rate_data.validator_exchange_rate as nat,
        );
        if d > 0 {
            -u
        } else {
            u
        }
    }

    /// Staking-token supply after the changes of the first `n` validators.
    pub open spec fn staking_after(
        self,
        committed: Seq<(IdentityKey, i64)>,
        initial: int,
        n: int,
    ) -> int
        decreases n,
    {
        if n <= 0 {
            initial
        } else {
            self.staking_after(committed, initial, n - 1) + self.staking_change(committed, n - 1)
        }
    }

    /// Commission notes of validator `i`: one per funding stream if it is active.
    pub open spec fn validator_notes(
        self,
        committed: Seq<(IdentityKey, i64)>,
        streams: Seq<Vec<FundingStream>>,
        supplies: Seq<u64>,
        next: BaseRateData,
        current: BaseRateData,
        i: int,
    ) -> Seq<(u64, Seq<u8>)> {
        if self.validator_set@[i].status.state == ValidatorState::Active {
            stream_notes(
                streams[i]@,
                self.epoch_supply(committed, supplies, i) as nat,
                next,
                current,
            )
        } else {
            Seq::empty()
        }
    }

    /// Commission notes of the first `n` validators.
    pub open spec fn epoch_notes(
        self,
        committed: Seq<(IdentityKey, i64)>,
        streams: Seq<Vec<FundingStream>>,
        supplies: Seq<u64>,
        next: BaseRateData,
        current: BaseRateData,
        n: int,
    ) -> Seq<(u64, Seq<u8>)>
        decreases n,
    {
        if n <= 0 {
            Seq::empty()
        } else {
            self.epoch_notes(committed, streams, supplies, next, current, n - 1)
                + self.validator_notes(committed, streams, supplies, next, current, n - 1)
        }
    }

    /// Commission rewards of the first `n` validators: for each active one,
    /// the sum of its funding streams' rewards.
    pub open spec fn epoch_rewards(
        self,
        committed: Seq<(IdentityKey, i64)>,
        streams: Seq<Vec<FundingStream>>,
        supplies: Seq<u64>,
        next: BaseRateData,
        current: BaseRateData,
        n: int,
    ) -> int
        decreases n,
    {
        if n <= 0 {
            0
        } else {
            self.epoch_rewards(committed, streams, supplies, next, current, n - 1) + if self.validator_set@[n
                - 1].status.state == ValidatorState::Active {
                stream_rewards(
                    streams[n - 1]@,
                    self.epoch_supply(committed, supplies, n - 1) as nat,
                    next,
                    current,
                )
            } else {
                0
            }
        }
    }

    /// The accounting of validator `i` stays in range: its next rates are
    /// defined, its net delegation change and the unbonded amount it moves
    /// fit, its new delegation-token supply is neither negative nor too large,
    /// and so are its voting power and, if active, each commission reward.
    pub open spec fn validator_accountable(
        self,
        committed: Seq<(IdentityKey, i64)>,
        streams: Seq<Vec<FundingStream>>,
        supplies: Seq<u64>,
        next: BaseRateData,
        current: BaseRateData,
        i: int,
    ) -> bool {
        let info = self.validator_set@[i];
        let key = info.key();
        let d = self.epoch_delta(committed, key);
        let supply = self.epoch_supply(committed, supplies, i);
        &&& info.rate_data.next_defined(streams[i]@, info.status.state)
        &&& abs(total_for(committed, key)) <= 0x1_0000_0000_0000_0000
        &&& abs(total_for(self.delegation_changes@, key)) <= 0x1_0000_0000_0000_0000
        &&& abs(d) <= u64::MAX
        &&& spec_unbonded_amount(abs(d) as nat, info.rate_data.validator_exchange_rate as nat)
            <= u64::MAX
        &&& 0 <= supply <= u64::MAX
        &&& self.epoch_power(committed, streams, supplies, next, i) <= u64::MAX
        &&& info.status.state == ValidatorState::Active ==> forall|j: int|
            0 <= j < streams[i]@.len() ==> spec_reward_amount(
                (#[trigger] streams[i]@[j]).rate_bps as nat,
                supply as nat,
                next.base_exchange_rate as nat,
                current.base_exchange_rate as nat,
            ) <= u64::MAX
    }

    /// The end of the epoch can be accounted: every rate, supply, power and
    /// reward stays in range, the staking-token supply never leaves the
    /// 64-bit range as the validators are taken in order, and the
    /// epoch-boundary transitions do not contradict each other.
    pub open spec fn epoch_accountable(
        self,
        current_base_rate: BaseRateData,
        staking_token_supply: u64,
        committed: Seq<(IdentityKey, i64)>,
        streams: Seq<Vec<FundingStream>>,
        supplies: Seq<u64>,
        active_validator_limit: u64,
        unbonding_epochs: u64,
    ) -> bool {
        let next = base_next(current_base_rate);
        let n = self.validator_set@.len() as int;
        let powered = self.powered(committed, streams, supplies, next);
        &&& current_base_rate.next_defined(BASE_REWARD_RATE)
        &&& next.base_exchange_rate > 0
        &&& forall|i: int|
            0 <= i < n ==> #[trigger] self.validator_accountable(
                committed,
                streams,
                supplies,
                next,
                current_base_rate,
                i,
            )
        &&& forall|j: int|
            0 <= j <= n ==> 0 <= #[trigger] self.staking_after(
                committed,
                staking_token_supply as int,
                j,
            ) <= u64::MAX
        &&& self.epoch.index < u64::MAX
        &&& forall|i: int|
            0 <= i < n ==> #[trigger] epoch_transition(
                powered[i].status,
                in_top(powered, i, active_validator_limit as nat),
                (self.epoch.index + 1) as u64,
                unbonding_epochs,
            ) is Some
    }

    /// The validators with their voting powers of the next epoch.
    pub open spec fn powered(
        self,
        committed: Seq<(IdentityKey, i64)>,
        streams: Seq<Vec<FundingStream>>,
        supplies: Seq<u64>,
        next: BaseRateData,
    ) -> Seq<ValidatorInfo> {
        Seq::new(
            self.validator_set@.len(),
            |i: int|
                with_status(
                    self.validator_set@[i],
                    ValidatorStatus {
                        voting_power: self.epoch_power(committed, streams, supplies, next, i) as u64,
                        ..self.validator_set@[i].status
                    },
                ),
        )
    }
}

/// The commission paid out at an epoch boundary is the sum, over the active
/// validators, of the rewards of their funding streams.
pub proof fn lemma_epoch_notes_total(
    set: ValidatorSet,
    committed: Seq<(IdentityKey, i64)>,
    streams: Seq<Vec<FundingStream>>,
    supplies: Seq<u64>,
    next: BaseRateData,
    current: BaseRateData,
    n: int,
)
    ensures
        note_total(set.epoch_notes(committed, streams, supplies, next, current, n))
            == set.epoch_rewards(committed, streams, supplies, next, current, n),
    decreases n,
{
    if n > 0 {
        lemma_epoch_notes_total(set, committed, streams, supplies, next, current, n - 1);
        lemma_note_total_append(
            set.epoch_notes(committed, streams, supplies, next, current, n - 1),
            set.validator_notes(committed, streams, supplies, next, current, n - 1),
        );
        if set.validator_set@[n - 1].status.state == ValidatorState::Active {
            lemma_stream_notes_total(
                streams[n - 1]@,
                set.epoch_supply(committed, supplies, n - 1) as nat,
                next,
                current,
            );
        } else {
            assert(note_total(Seq::<(u64, Seq<u8>)>::empty()) == 0);
        }
    }
}


/// Sum of the changes recorded for `key`.
fn change_total(changes: &Vec<(IdentityKey, i64)>, key: &IdentityKey) -> (r: i128)
    ensures
        r == total_for(changes@, *key),
{
    let mut sum: i128 = 0;
    let mut i: usize = 0;
    while i < changes.len()
        invariant
            0 <= i <= changes@.len(),
            sum == total_for(changes@.take(i as int), *key),
            -(i as int) * 0x8000_0000_0000_0000 <= sum <= (i as int) * 0x8000_0000_0000_0000,
        decreases changes@.len() - i,
    {
        proof {
            assert(changes@.take(i as int + 1).drop_last() =~= changes@.take(i as int));
            assert((i as int + 1) * 0x8000_0000_0000_0000 <= 0x7fff_ffff_ffff_ffff_8000_0000_0000_0000)
                by (nonlinear_arith)
                requires
                    i + 1 <= 0xffff_ffff_ffff_ffff,
            ;
        }
        if changes[i].0.compare(key) == ByteOrder::Equal {
            sum = sum + changes[i].1 as i128;
        }
        i = i + 1;
    }
    proof {
        assert(changes@.take(changes@.len() as int) =~= changes@);
    }
    sum
}

impl ValidatorSet {
    /// Accounts the end of an epoch, after its last block's transactions:
    /// computes the next epoch's base rate and validator rates, applies the
    /// epoch's net delegation changes to the delegation-token and staking-token
    /// supplies, sets each validator's voting power, pays the commission of
    /// active validators' funding streams, and applies the epoch-boundary
    /// state transitions.
    ///
    /// The store provides the current base rate, the staking-token supply,
    /// the delegation changes committed earlier in the epoch, and for each
    /// validator (in the set's order) its funding streams and the supply of
    /// its delegation token.
    #[verifier::rlimit(60)]
    pub fn end_epoch(
        &mut self,
        current_base_rate: BaseRateData,
        staking_token_supply: u64,
        committed_changes: &Vec<(IdentityKey, i64)>,
        funding_streams: &Vec<Vec<FundingStream>>,
        delegation_supplies: &Vec<u64>,
        active_validator_limit: u64,
        unbonding_epochs: u64,
    ) -> (r: Result<(), EpochError>)
        requires
            old(self).wf(),
            funding_streams@.len() == old(self).validator_set@.len(),
            delegation_supplies@.len() == old(self).validator_set@.len(),
        ensures
            final(self).wf(),
            old(self).epoch_accountable(
                current_base_rate,
                staking_token_supply,
                committed_changes@,
                funding_streams@,
                delegation_supplies@,
                active_validator_limit,
                unbonding_epochs,
            ) ==> r is Ok,
            r == Err::<(), EpochError>(EpochError::CommissionExceeded) ==> exists|i: int|
                0 <= i < old(self).validator_set@.len() && old(self).validator_set@[i].status.state
                    == ValidatorState::Active && commission_bps(#[trigger] funding_streams@[i]@)
                    > MAX_COMMISSION_BPS,
            r == Err::<(), EpochError>(EpochError::ZeroExchangeRate) ==> base_next(
                current_base_rate,
            ).base_exchange_rate == 0,
            r matches Err(EpochError::Transition(_)) ==> ({
                let powered = old(self).powered(
                    committed_changes@,
                    funding_streams@,
                    delegation_supplies@,
                    base_next(current_base_rate),
                );
                exists|i: int|
                    0 <= i < powered.len() && #[trigger] epoch_transition(
                        powered[i].status,
                        in_top(powered, i, active_validator_limit as nat),
                        (old(self).epoch.index + 1) as u64,
                        unbonding_epochs,
                    ) is None
            }),
            r is Ok ==> ({
                let n = old(self).validator_set@.len() as int;
                let next = base_next(current_base_rate);
                let c = committed_changes@;
                let st = funding_streams@;
                let sp = delegation_supplies@;
                let powered = old(self).powered(c, st, sp, next);
                &&& forall|i: int|
                    0 <= i < n && old(self).validator_set@[i].status.state == ValidatorState::Active
                        ==> commission_bps(#[trigger] st[i]@) <= MAX_COMMISSION_BPS
                &&& final(self).next_base_rate == Some(next)
                &&& final(self).next_rates matches Some(rates) && rates@.len() == n && forall|i: int|
                    0 <= i < n ==> #[trigger] rates@[i] == old(self).epoch_rate(st, next, i)
                &&& final(self).staking_token_supply == Some(
                    old(self).staking_after(c, staking_token_supply as int, n) as u64,
                )
                &&& final(self).delegation_supply_updates@.len() == n
                &&& forall|i: int|
                    0 <= i < n ==> #[trigger] final(self).delegation_supply_updates@[i] == (
                        old(self).validator_set@[i].key(),
                        old(self).epoch_supply(c, sp, i) as u64,
                    )
                &&& note_view(final(self).reward_notes@) == old(self).epoch_notes(
                    c,
                    st,
                    sp,
                    next,
                    current_base_rate,
                    n,
                )
                &&& note_total(note_view(final(self).reward_notes@)) == old(self).epoch_rewards(
                    c,
                    st,
                    sp,
                    next,
                    current_base_rate,
                    n,
                )
                &&& final(self).validator_set@.len() == n
                &&& forall|i: int|
                    0 <= i < n ==> #[trigger] final(self).validator_set@[i] == with_status(
                        powered[i],
                        epoch_transition(
                            powered[i].status,
                            in_top(powered, i, active_validator_limit as nat),
                            (old(self).epoch.index + 1) as u64,
                            unbonding_epochs,
                        )->Some_0,
                    )
                &&& final(self).epoch == old(self).epoch
                &&& final(self).validator_definitions == old(self).validator_definitions
                &&& final(self).new_validators == old(self).new_validators
                &&& final(self).updated_validators == old(self).updated_validators
                &&& final(self).slashed_validators == old(self).slashed_validators
                &&& final(self).delegation_changes == old(self).delegation_changes
                &&& final(self).tm_validator_updates == old(self).tm_validator_updates
                &&& final(self).supply_updates == old(self).supply_updates
            }),
    {
        let ghost c = committed_changes@;
        let ghost st = funding_streams@;
        let ghost sp = delegation_supplies@;
        let ghost start = *self;
        if self.epoch.index == u64::MAX {
            return Err(EpochError::Overflow);
        }
        let current_epoch = self.epoch.next();
        if !current_base_rate.next_is_defined(BASE_REWARD_RATE) {
            return Err(EpochError::Overflow);
        }
        let next_base = current_base_rate.next(BASE_REWARD_RATE);
        if next_base.base_exchange_rate == 0 {
            return Err(EpochError::ZeroExchangeRate);
        }
        let ghost next = next_base;
        assert(next == base_next(current_base_rate));
        let n = self.validator_set.len();
        let mut staking: u64 = staking_token_supply;
        let mut next_rates: Vec<RateData> = Vec::new();
        let mut notes: Vec<(u64, Vec<u8>)> = Vec::new();
        let mut supply_updates: Vec<(IdentityKey, u64)> = Vec::new();
        let mut powers: Vec<u64> = Vec::new();
        let mut i: usize = 0;
        while i < n
            invariant
                n == start.validator_set@.len(),
                *self == start,
                start == *old(self),
                self.wf(),
                next == base_next(current_base_rate),
                next_base == next,
                next.base_exchange_rate > 0,
                st == funding_streams@,
                sp == delegation_supplies@,
                c == committed_changes@,
                st.len() == n,
                sp.len() == n,
                0 <= i <= n,
                staking == start.staking_after(c, staking_token_supply as int, i as int),
                next_rates@.len() == i,
                forall|j: int| 0 <= j < i ==> #[trigger] next_rates@[j] == start.epoch_rate(st, next, j),
                supply_updates@.len() == i,
                forall|j: int|
                    0 <= j < i ==> #[trigger] supply_updates@[j] == (
                        start.validator_set@[j].key(),
                        start.epoch_supply(c, sp, j) as u64,
                    ),
                forall|j: int| 0 <= j < i ==> 0 <= #[trigger] start.epoch_supply(c, sp, j) <= u64::MAX,
                powers@.len() == i,
                forall|j: int|
                    0 <= j < i ==> #[trigger] powers@[j] == start.epoch_power(c, st, sp, next, j),
                note_view(notes@) == start.epoch_notes(c, st, sp, next, current_base_rate, i as int),
                forall|j: int|
                    0 <= j < i && start.validator_set@[j].status.state == ValidatorState::Active
                        ==> commission_bps(#[trigger] st[j]@) <= MAX_COMMISSION_BPS,
            decreases n - i,
        {
            let rate = self.validator_set[i].rate_data;
            let state = self.validator_set[i].status.state;
            let key = self.validator_set[i].validator.identity_key;
            let streams = &funding_streams[i];
            if state == ValidatorState::Active && !funding_streams_valid(streams.as_slice()) {
                proof {
                    assert(commission_bps(st[i as int]@) > MAX_COMMISSION_BPS);
                    assert(!start.validator_accountable(c, st, sp, next, current_base_rate, i as int));
                }
                return Err(EpochError::CommissionExceeded);
            }
            if !rate.next_is_defined(streams.as_slice(), &state) {
                proof {
                    assert(!start.validator_accountable(c, st, sp, next, current_base_rate, i as int));
                }
                return Err(EpochError::Overflow);
            }
            let next_rate = rate.next(&next_base, streams.as_slice(), &state);
            let stored = change_total(committed_changes, &key);
            let block = change_total(&self.delegation_changes, &key);
            let bound: i128 = 0x1_0000_0000_0000_0000;
            if stored > bound || stored < -bound || block > bound || block < -bound {
                proof {
                    assert(!start.validator_accountable(c, st, sp, next, current_base_rate, i as int));
                }
                return Err(EpochError::Overflow);
            }
            let delta = stored + block;
            let magnitude: i128 = if delta < 0 {
                -delta
            } else {
                delta
            };
            if magnitude > u64::MAX as i128 {
                proof {
                    assert(!start.validator_accountable(c, st, sp, next, current_base_rate, i as int));
                }
                return Err(EpochError::Overflow);
            }
            let amount = magnitude as u64;
            let unbonded = match rate.checked_unbonded_amount(amount) {
                Some(u) => u,
                None => {
                    proof {
                        assert(!start.validator_accountable(c, st, sp, next, current_base_rate, i as int));
                    }
                    return Err(EpochError::Overflow);
                },
            };
            let held = delegation_supplies[i];
            let supply: u64;
            if delta > 0 {
                staking = match staking.checked_sub(unbonded) {
                    Some(v) => v,
                    None => {
                        proof {
                            assert(!(0 <= start.staking_after(c, staking_token_supply as int, i as int + 1) <= u64::MAX));
                        }
                        return Err(EpochError::SupplyUnderflow);
                    },
                };
                supply = match held.checked_add(amount) {
                    Some(v) => v,
                    None => {
                        proof {
                            assert(!start.validator_accountable(c, st, sp, next, current_base_rate, i as int));
                        }
                        return Err(EpochError::Overflow);
                    },
                };
            } else {
                staking = match staking.checked_add(unbonded) {
                    Some(v) => v,
                    None => {
                        proof {
                            assert(!(0 <= start.staking_after(c, staking_token_supply as int, i as int + 1) <= u64::MAX));
                        }
                        return Err(EpochError::Overflow);
                    },
                };
                supply = match held.checked_sub(amount) {
                    Some(v) => v,
                    None => {
                        proof {
                            assert(!start.validator_accountable(c, st, sp, next, current_base_rate, i as int));
                        }
                        return Err(EpochError::SupplyUnderflow);
                    },
                };
            }
            proof {
                assert(delta == start.epoch_delta(c, start.validator_set@[i as int].key()));
                assert(supply == start.epoch_supply(c, sp, i as int));
                assert(staking == start.staking_after(c, staking_token_supply as int, i as int + 1));
            }
            supply_updates.push((key, supply));
            let power = match next_rate.checked_voting_power(supply, &next_base) {
                Some(p) => p,
                None => {
                    proof {
                        assert(!start.validator_accountable(c, st, sp, next, current_base_rate, i as int));
                    }
                    return Err(EpochError::Overflow);
                },
            };
            powers.push(power);
            let ghost notes_before = note_view(notes@);
            if state == ValidatorState::Active {
                let mut j: usize = 0;
                while j < streams.len()
                    invariant
                        0 <= j <= streams@.len(),
                        streams@ == st[i as int]@,
                        note_view(notes@) == notes_before + stream_notes(
                            streams@.take(j as int),
                            supply as nat,
                            next,
                            current_base_rate,
                        ),
                        next_base == next,
                        *self == start,
                        self.wf(),
                        start == *old(self),
                        next == base_next(current_base_rate),
                        0 <= i < n,
                        n == start.validator_set@.len(),
                        state == start.validator_set@[i as int].status.state,
                        state == ValidatorState::Active,
                        supply == start.epoch_supply(c, sp, i as int),
                        st == funding_streams@,
                        sp == delegation_supplies@,
                        c == committed_changes@,
                    decreases streams@.len() - j,
                {
                    let amount = match streams[j].reward_amount(supply, &next_base, &current_base_rate) {
                        Some(a) => a,
                        None => {
                            proof {
                                assert(state == ValidatorState::Active);
                                assert(streams@[j as int] == st[i as int]@[j as int]);
                                assert(!start.validator_accountable(c, st, sp, next, current_base_rate, i as int));
                                assert(!start.epoch_accountable(current_base_rate, staking_token_supply, c, st, sp, active_validator_limit, unbonding_epochs));
                            }
                            return Err(EpochError::Overflow);
                        },
                    };
                    let address = streams[j].address.clone();
                    proof {
                        assert(address@ =~= streams@[j as int].address@);
                    }
                    let ghost before = notes@;
                    notes.push((amount, address));
                    proof {
                        assert(note_view(notes@) =~= note_view(before).push((amount, address@)));
                        assert(stream_notes(streams@.take(j as int + 1), supply as nat, next, current_base_rate)
                            =~= stream_notes(streams@.take(j as int), supply as nat, next, current_base_rate).push(
                            (amount, address@)));
                    }
                    j = j + 1;
                }
                proof {
                    assert(streams@.take(streams@.len() as int) =~= streams@);
                }
            } else {
                proof {
                    assert(notes_before + Seq::<(u64, Seq<u8>)>::empty() =~= notes_before);
                }
            }
            next_rates.push(next_rate);
            i = i + 1;
        }
        proof {
            lemma_epoch_notes_total(start, c, st, sp, next, current_base_rate, n as int);
        }
        let ghost powered = start.powered(c, st, sp, next);
        let mut k: usize = 0;
        while k < n
            invariant
                n == start.validator_set@.len(),
                start == *old(self),
                powered == start.powered(c, st, sp, next),
                0 <= k <= n,
                self.wf(),
                self.same_but_entries(start),
                self.validator_set@.len() == n,
                powers@.len() == n,
                forall|j: int|
                    0 <= j < n ==> #[trigger] powers@[j] == start.epoch_power(c, st, sp, next, j),
                forall|j: int| 0 <= j < k ==> #[trigger] self.validator_set@[j] == powered[j],
                forall|j: int| k <= j < n ==> #[trigger] self.validator_set@[j] == start.validator_set@[j],
            decreases n - k,
        {
            let status = self.validator_set[k].status;
            self.set_status(k, ValidatorStatus { voting_power: powers[k], ..status });
            k = k + 1;
        }
        proof {
            assert(self.validator_set@ =~= powered);
        }
        match self.process_epoch_transitions(active_validator_limit, current_epoch, unbonding_epochs) {
            Ok(()) => {},
            Err(e) => {
                return Err(EpochError::Transition(e));
            },
        }
        self.next_rates = Some(next_rates);
        self.next_base_rate = Some(next_base);
        self.reward_notes = notes;
        self.delegation_supply_updates = supply_updates;
        self.staking_token_supply = Some(staking);
        Ok(())
    }
}

} // verus!
