use vstd::prelude::*;

use crate::keys::{bytes_lt, lemma_bytes_lt_transitive, ByteOrder, ConsensusKey, IdentityKey};
use crate::keys::lemma_bytes_lt_asymmetric;
use crate::rate::{slashed_rate, BaseRateData, RateData, RATE_SCALE};
use crate::validator::{
    same_key, Epoch, Validator, ValidatorDefinition, ValidatorInfo, ValidatorStatus,
};
use crate::validator_state::{ValidatorState, ValidatorStateName};

verus! {

/// Why a validator state transition was refused.
#[derive(Debug, Clone, Copy, PartialEq, Eq, Structural)]
pub enum TransitionError {
    /// No validator has the given consensus key.
    ValidatorNotFound,
    /// The validator's current state does not allow the transition.
    InvalidTransition { from: ValidatorStateName, to: ValidatorStateName },
}

/// Validators sorted strictly by identity key.
pub open spec fn sorted_by_key(s: Seq<ValidatorInfo>) -> bool {
    forall|i: int, j: int|
        0 <= i < j < s.len() ==> (#[trigger] s[i]).key().key_lt(#[trigger] s[j].key())
}

/// `i` is the first position whose validator has consensus key `ck`.
pub open spec fn first_with_consensus_key(s: Seq<ValidatorInfo>, ck: ConsensusKey, i: int) -> bool {
    &&& 0 <= i < s.len()
    &&& s[i].validator.consensus_key.bytes@ == ck.bytes@
    &&& forall|j: int| 0 <= j < i ==> (#[trigger] s[j]).validator.consensus_key.bytes@ != ck.bytes@
}

pub open spec fn has_consensus_key(s: Seq<ValidatorInfo>, ck: ConsensusKey) -> bool {
    exists|i: int| 0 <= i < s.len() && (#[trigger] s[i]).validator.consensus_key.bytes@ == ck.bytes@
}

/// `i` holds the validator with identity key `k`.
pub open spec fn position_of_key(s: Seq<ValidatorInfo>, k: IdentityKey, i: int) -> bool {
    0 <= i < s.len() && same_key(s[i].key(), k)
}

pub open spec fn has_key(s: Seq<ValidatorInfo>, k: IdentityKey) -> bool {
    exists|i: int| position_of_key(s, k, i)
}

/// The validator with identity key `k` is held, and its entry is `info`.
pub open spec fn entry_of(s: Seq<ValidatorInfo>, k: IdentityKey, info: ValidatorInfo) -> bool {
    exists|i: int| position_of_key(s, k, i) && s[i] == info
}

/// The entry with its status replaced.
pub open spec fn with_status(info: ValidatorInfo, status: ValidatorStatus) -> ValidatorInfo {
    ValidatorInfo { status, ..info }
}

/// The entry with its state replaced.
pub open spec fn with_state(info: ValidatorInfo, state: ValidatorState) -> ValidatorInfo {
    with_status(info, ValidatorStatus { state, ..info.status })
}

/// Entry `j` ranks above entry `i`: it has more voting power, or the same
/// voting power and a smaller identity key (an earlier position).
pub open spec fn ranks_above(s: Seq<ValidatorInfo>, j: int, i: int) -> bool {
    s[j].status.voting_power > s[i].status.voting_power || (s[j].status.voting_power
        == s[i].status.voting_power && j < i)
}

/// How many of the first `n` entries rank above entry `i`.
pub open spec fn count_above(s: Seq<ValidatorInfo>, i: int, n: int) -> nat
    decreases n,
{
    if n <= 0 {
        0
    } else {
        count_above(s, i, n - 1) + if ranks_above(s, n - 1, i) {
            1nat
        } else {
            0nat
        }
    }
}

/// Entry `i` is among the `limit` validators with the most voting power.
pub open spec fn in_top(s: Seq<ValidatorInfo>, i: int, limit: nat) -> bool {
    count_above(s, i, s.len() as int) < limit
}

/// The last epoch of an unbonding period that starts at `current_epoch`;
/// a period that would end beyond the largest epoch index ends there.
pub open spec fn unbonding_end(current_epoch: u64, unbonding_epochs: u64) -> u64 {
    if current_epoch + unbonding_epochs <= u64::MAX {
        (current_epoch + unbonding_epochs) as u64
    } else {
        u64::MAX
    }
}

/// The status a validator moves to at an epoch boundary, or `None` where the
/// moves contradict each other (a validator in the top set whose unbonding
/// period has ended is activated and can then no longer be deactivated).
///
/// Inactive and unbonding validators in the top set are activated; active
/// validators outside it start unbonding until `unbonding_end(current_epoch,
/// unbonding_epochs)`; unbonding validators whose unbonding epoch has come
/// become inactive.
pub open spec fn epoch_transition(
    status: ValidatorStatus,
    top: bool,
    current_epoch: u64,
    unbonding_epochs: u64,
) -> Option<ValidatorStatus> {
    match status.state {
        ValidatorState::Inactive => if top {
            Some(ValidatorStatus { state: ValidatorState::Active, ..status })
        } else {
            Some(status)
        },
        ValidatorState::Unbonding { unbonding_epoch } => if unbonding_epoch <= current_epoch {
            if top {
                None
            } else {
                Some(ValidatorStatus { state: ValidatorState::Inactive, ..status })
            }
        } else if top {
            Some(ValidatorStatus { state: ValidatorState::Active, ..status })
        } else {
            Some(status)
        },
        ValidatorState::Active => if top {
            Some(status)
        } else {
            Some(
                ValidatorStatus {
                    identity_key: status.identity_key,
                    voting_power: 0,
                    state: ValidatorState::Unbonding {
                        unbonding_epoch: unbonding_end(current_epoch, unbonding_epochs),
                    },
                },
            )
        },
        ValidatorState::Slashed => Some(status),
    }
}

/// A validator outside the top set is never active after the epoch boundary.
pub proof fn lemma_outside_top_not_active(
    status: ValidatorStatus,
    current_epoch: u64,
    unbonding_epochs: u64,
)
    ensures
        epoch_transition(status, false, current_epoch, unbonding_epochs) matches Some(next)
            ==> next.state != ValidatorState::Active,
{
}

/// The epoch boundary never changes which validator a status belongs to.
proof fn lemma_transition_keeps_key(
    status: ValidatorStatus,
    top: bool,
    current_epoch: u64,
    unbonding_epochs: u64,
)
    ensures
        epoch_transition(status, top, current_epoch, unbonding_epochs) matches Some(next)
            ==> next.identity_key == status.identity_key,
{
}

/// Positions of one identity key in a sorted list agree.
proof fn lemma_position_unique(s: Seq<ValidatorInfo>, k: IdentityKey, i: int, j: int)
    requires
        sorted_by_key(s),
        position_of_key(s, k, i),
        position_of_key(s, k, j),
    ensures
        i == j,
{
    if i < j {
        assert(s[i].key().key_lt(s[j].key()));
        lemma_bytes_lt_asymmetric(s[i].key().bytes@, s[j].key().bytes@);
    } else if j < i {
        assert(s[j].key().key_lt(s[i].key()));
        lemma_bytes_lt_asymmetric(s[j].key().bytes@, s[i].key().bytes@);
    }
}

proof fn lemma_entry_at(s: Seq<ValidatorInfo>, k: IdentityKey, i: int, info: ValidatorInfo)
    requires
        sorted_by_key(s),
        position_of_key(s, k, i),
        entry_of(s, k, info),
    ensures
        s[i] == info,
{
    let j = choose|j: int| position_of_key(s, k, j) && s[j] == info;
    lemma_position_unique(s, k, i, j);
}

/// Definition `p` takes precedence over definition `q`: a higher sequence
/// number, or the same sequence number and a smaller signature, or the same
/// signature and an earlier arrival.
pub open spec fn def_beats(d: Seq<ValidatorDefinition>, p: int, q: int) -> bool {
    ||| d[p].validator.sequence_number > d[q].validator.sequence_number
    ||| d[p].validator.sequence_number == d[q].validator.sequence_number && (bytes_lt(
        d[p].auth_sig@,
        d[q].auth_sig@,
    ) || (d[p].auth_sig@ == d[q].auth_sig@ && p <= q))
}

/// Definition `p` is the one chosen for its identity key: it takes
/// precedence over every definition with the same key.
pub open spec fn is_chosen_definition(d: Seq<ValidatorDefinition>, p: int) -> bool {
    &&& 0 <= p < d.len()
    &&& forall|q: int|
        0 <= q < d.len() && same_key(
            (#[trigger] d[q]).validator.identity_key,
            d[p].validator.identity_key,
        ) ==> def_beats(d, p, q)
}

/// Some definition before position `p` was chosen for key `k`.
pub open spec fn chosen_before(d: Seq<ValidatorDefinition>, p: int, k: IdentityKey) -> bool {
    exists|q: int|
        0 <= q < p && #[trigger] is_chosen_definition(d, q) && same_key(
            d[q].validator.identity_key,
            k,
        )
}

/// At most one definition is chosen for each identity key.
pub proof fn lemma_chosen_unique(d: Seq<ValidatorDefinition>, p: int, q: int)
    requires
        is_chosen_definition(d, p),
        is_chosen_definition(d, q),
        same_key(d[p].validator.identity_key, d[q].validator.identity_key),
    ensures
        p == q,
{
    assert(def_beats(d, p, q));
    assert(def_beats(d, q, p));
    if bytes_lt(d[p].auth_sig@, d[q].auth_sig@) {
        lemma_bytes_lt_asymmetric(d[p].auth_sig@, d[q].auth_sig@);
    }
    if bytes_lt(d[q].auth_sig@, d[p].auth_sig@) {
        lemma_bytes_lt_asymmetric(d[q].auth_sig@, d[p].auth_sig@);
    }
}

/// The status of a validator first defined in this block.
pub open spec fn fresh_status(k: IdentityKey) -> ValidatorStatus {
    ValidatorStatus { identity_key: k, voting_power: 0, state: ValidatorState::Inactive }
}

/// The rates of a validator first defined in this block: no reward, and an
/// exchange rate of one.
pub open spec fn fresh_rate(k: IdentityKey, epoch_index: u64) -> RateData {
    RateData {
        identity_key: k,
        epoch_index,
        validator_reward_rate: 0,
        validator_exchange_rate: RATE_SCALE,
    }
}

/// `info` is what the chosen definition `def` makes of the validator: the new
/// configuration, with the status and rates it had, or those of a new
/// validator if it had none.
pub open spec fn resolved_entry(
    before: Seq<ValidatorInfo>,
    def: ValidatorDefinition,
    epoch_index: u64,
    info: ValidatorInfo,
) -> bool {
    &&& info.validator.same_config(def.validator)
    &&& if has_key(before, def.validator.identity_key) {
        exists|j: int|
            position_of_key(before, def.validator.identity_key, j) && info.status
                == before[j].status && info.rate_data == before[j].rate_data
    } else {
        info.status == fresh_status(def.validator.identity_key) && info.rate_data == fresh_rate(
            def.validator.identity_key,
            epoch_index,
        )
    }
}

/// The power reported to the consensus engine: only active validators have any.
pub open spec fn consensus_power(info: ValidatorInfo) -> u64 {
    if info.status.state == ValidatorState::Active {
        info.status.voting_power
    } else {
        0
    }
}

/// The largest power the consensus engine accepts.
pub const MAX_CONSENSUS_POWER: u64 = 0x7fff_ffff_ffff_ffff;

/// A running total of delegation changes left the `i64` range.
#[derive(Debug, Clone, Copy, PartialEq, Eq, Structural)]
pub struct DelegationOverflow;

/// Why the block could not be ended.
#[derive(Debug, Clone, Copy, PartialEq, Eq, Structural)]
pub enum EndBlockError {
    /// A validator's voting power is above what the consensus engine accepts.
    PowerOutOfRange,
}

/// One chosen definition applied to the validator list keeps the
/// bookkeeping of `end_block` true with one more definition processed.
proof fn lemma_end_block_step(
    d: Seq<ValidatorDefinition>,
    s0: Seq<ValidatorInfo>,
    p: int,
    cur: Seq<ValidatorInfo>,
    nxt: Seq<ValidatorInfo>,
    epoch_index: u64,
)
    requires
        0 <= p < d.len(),
        is_chosen_definition(d, p),
        !chosen_before(d, p, d[p].validator.identity_key),
        sorted_by_key(nxt),
        exists|info: ValidatorInfo|
            entry_of(nxt, d[p].validator.identity_key, info) && resolved_entry(
                s0,
                d[p],
                epoch_index,
                info,
            ),
        forall|k: IdentityKey, info: ValidatorInfo|
            !same_key(k, d[p].validator.identity_key) && #[trigger] entry_of(cur, k, info)
                ==> entry_of(nxt, k, info),
        forall|k: IdentityKey|
            has_key(nxt, k) <==> (has_key(cur, k) || same_key(k, d[p].validator.identity_key)),
        forall|q: int|
            0 <= q < p && #[trigger] is_chosen_definition(d, q) ==> exists|info: ValidatorInfo|
                entry_of(cur, d[q].validator.identity_key, info) && resolved_entry(
                    s0,
                    d[q],
                    epoch_index,
                    info,
                ),
        forall|k: IdentityKey, info: ValidatorInfo|
            !chosen_before(d, p, k) && #[trigger] entry_of(s0, k, info) ==> entry_of(cur, k, info),
        forall|k: IdentityKey| has_key(cur, k) <==> (has_key(s0, k) || chosen_before(d, p, k)),
    ensures
        forall|q: int|
            0 <= q < p + 1 && #[trigger] is_chosen_definition(d, q) ==> exists|info: ValidatorInfo|
                entry_of(nxt, d[q].validator.identity_key, info) && resolved_entry(
                    s0,
                    d[q],
                    epoch_index,
                    info,
                ),
        forall|k: IdentityKey, info: ValidatorInfo|
            !chosen_before(d, p + 1, k) && #[trigger] entry_of(s0, k, info) ==> entry_of(
                nxt,
                k,
                info,
            ),
        forall|k: IdentityKey| has_key(nxt, k) <==> (has_key(s0, k) || chosen_before(d, p + 1, k)),
{
    let kp = d[p].validator.identity_key;
    lemma_chosen_before_step(d, p);
    assert forall|q: int|
        0 <= q < p + 1 && #[trigger] is_chosen_definition(d, q) implies exists|info: ValidatorInfo|
            entry_of(nxt, d[q].validator.identity_key, info) && resolved_entry(
                s0,
                d[q],
                epoch_index,
                info,
            ) by {
        if q < p {
            let info = choose|info: ValidatorInfo|
                entry_of(cur, d[q].validator.identity_key, info) && resolved_entry(
                    s0,
                    d[q],
                    epoch_index,
                    info,
                );
            if same_key(d[q].validator.identity_key, kp) {
                assert(chosen_before(d, p, kp));
            }
            assert(entry_of(nxt, d[q].validator.identity_key, info));
        }
    }
}

/// The keys chosen among the first `p + 1` definitions.
proof fn lemma_chosen_before_step(d: Seq<ValidatorDefinition>, p: int)
    requires
        0 <= p < d.len(),
        is_chosen_definition(d, p),
    ensures
        forall|k: IdentityKey|
            chosen_before(d, p + 1, k) <==> (chosen_before(d, p, k) || same_key(
                k,
                d[p].validator.identity_key,
            )),
{
    let kp = d[p].validator.identity_key;
    assert forall|k: IdentityKey|
        chosen_before(d, p + 1, k) <==> (chosen_before(d, p, k) || same_key(k, kp)) by {
        if chosen_before(d, p + 1, k) {
            let q = choose|q: int|
                0 <= q < p + 1 && #[trigger] is_chosen_definition(d, q) && same_key(
                    d[q].validator.identity_key,
                    k,
                );
            if q != p {
                assert(chosen_before(d, p, k));
            }
        }
        if same_key(k, kp) {
            assert(0 <= p < p + 1 && is_chosen_definition(d, p) && same_key(
                d[p].validator.identity_key,
                k,
            ));
        }
        if chosen_before(d, p, k) {
            let q = choose|q: int|
                0 <= q < p && #[trigger] is_chosen_definition(d, q) && same_key(
                    d[q].validator.identity_key,
                    k,
                );
            assert(0 <= q < p + 1);
        }
    }
}

/// Keys and entries after the entry at `i` is replaced by one with the same key.
proof fn lemma_update_keys(s: Seq<ValidatorInfo>, i: int, v: ValidatorInfo, t: Seq<ValidatorInfo>)
    requires
        t == s.update(i, v),
        position_of_key(s, v.key(), i),
    ensures
        forall|k: IdentityKey| has_key(t, k) <==> (has_key(s, k) || same_key(k, v.key())),
        entry_of(t, v.key(), v),
        forall|k: IdentityKey, info: ValidatorInfo|
            !same_key(k, v.key()) && #[trigger] entry_of(s, k, info) ==> entry_of(t, k, info),
{
    assert(position_of_key(t, v.key(), i));
    assert forall|k: IdentityKey| has_key(t, k) <==> (has_key(s, k) || same_key(k, v.key())) by {
        if has_key(s, k) {
            let j = choose|j: int| position_of_key(s, k, j);
            assert(position_of_key(t, k, j));
        }
        if same_key(k, v.key()) {
            assert(position_of_key(t, k, i));
        }
        if has_key(t, k) {
            let j = choose|j: int| position_of_key(t, k, j);
            if j != i {
                assert(position_of_key(s, k, j));
            }
        }
    }
    assert forall|k: IdentityKey, info: ValidatorInfo|
        !same_key(k, v.key()) && #[trigger] entry_of(s, k, info) implies entry_of(t, k, info) by {
        let j = choose|j: int| position_of_key(s, k, j) && s[j] == info;
        assert(j != i);
        assert(position_of_key(t, k, j));
    }
}

/// Keys and entries after an entry is inserted at `i`.
proof fn lemma_insert_keys(s: Seq<ValidatorInfo>, i: int, v: ValidatorInfo, t: Seq<ValidatorInfo>)
    requires
        t == s.insert(i, v),
        0 <= i <= s.len(),
    ensures
        forall|k: IdentityKey| has_key(t, k) <==> (has_key(s, k) || same_key(k, v.key())),
        entry_of(t, v.key(), v),
        forall|k: IdentityKey, info: ValidatorInfo|
            !same_key(k, v.key()) && #[trigger] entry_of(s, k, info) ==> entry_of(t, k, info),
{
    assert(position_of_key(t, v.key(), i));
    assert forall|k: IdentityKey| has_key(t, k) <==> (has_key(s, k) || same_key(k, v.key())) by {
        if has_key(s, k) {
            let j = choose|j: int| position_of_key(s, k, j);
            if j < i {
                assert(position_of_key(t, k, j));
            } else {
                assert(position_of_key(t, k, j + 1));
            }
        }
        if same_key(k, v.key()) {
            assert(position_of_key(t, k, i));
        }
        if has_key(t, k) {
            let j = choose|j: int| position_of_key(t, k, j);
            if j < i {
                assert(position_of_key(s, k, j));
            } else if j > i {
                assert(position_of_key(s, k, j - 1));
            }
        }
    }
    assert forall|k: IdentityKey, info: ValidatorInfo|
        !same_key(k, v.key()) && #[trigger] entry_of(s, k, info) implies entry_of(t, k, info) by {
        let j = choose|j: int| position_of_key(s, k, j) && s[j] == info;
        if j < i {
            assert(position_of_key(t, k, j));
        } else {
            assert(position_of_key(t, k, j + 1));
        }
    }
}

/// Sum of the changes recorded for key `k`.
pub open spec fn total_for(changes: Seq<(IdentityKey, i64)>, k: IdentityKey) -> int
    decreases changes.len(),
{
    if changes.len() == 0 {
        0
    } else {
        total_for(changes.drop_last(), k) + if same_key(changes.last().0, k) {
            changes.last().1 as int
        } else {
            0int
        }
    }
}

/// No two entries share a key.
pub open spec fn unique_change_keys(changes: Seq<(IdentityKey, i64)>) -> bool {
    forall|i: int, j: int|
        0 <= i < j < changes.len() ==> !same_key((#[trigger] changes[i]).0, (#[trigger] changes[j]).0)
}

/// In a list with unique keys, the total for a key is the value of its
/// entry, or zero without one.
proof fn lemma_total_unique(changes: Seq<(IdentityKey, i64)>, k: IdentityKey, i: int)
    requires
        unique_change_keys(changes),
        0 <= i < changes.len(),
        same_key(changes[i].0, k),
    ensures
        total_for(changes, k) == changes[i].1,
    decreases changes.len(),
{
    let n = changes.len() - 1;
    if i < n {
        assert(!same_key(changes[i].0, changes[n].0));
        assert(unique_change_keys(changes.drop_last()));
        lemma_total_unique(changes.drop_last(), k, i);
    } else {
        lemma_total_absent(changes.drop_last(), k);
    }
}

/// Without an entry for `k` the total for `k` is zero.
proof fn lemma_total_absent(changes: Seq<(IdentityKey, i64)>, k: IdentityKey)
    requires
        forall|i: int| 0 <= i < changes.len() ==> !same_key((#[trigger] changes[i]).0, k),
    ensures
        total_for(changes, k) == 0,
    decreases changes.len(),
{
    if changes.len() > 0 {
        assert(!same_key(changes[changes.len() - 1].0, k));
        lemma_total_absent(changes.drop_last(), k);
    }
}

/// The value of every key after the merge of `changes[x]`, which lands at
/// position `i` of the merged list.
pub open spec fn fits_i64(v: int) -> bool {
    i64::MIN <= v <= i64::MAX
}

/// The merge of the first `x` changes into `stored` never leaves the `i64` range.
pub open spec fn merge_fits(stored: Seq<(IdentityKey, i64)>, changes: Seq<(IdentityKey, i64)>, x: int) -> bool {
    forall|y: int|
        0 <= y < x ==> fits_i64(
            total_for(stored, (#[trigger] changes[y]).0) + total_for(changes.take(y + 1), changes[y].0),
        )
}

proof fn lemma_total_update_other(
    changes: Seq<(IdentityKey, i64)>,
    j: int,
    e: (IdentityKey, i64),
    k: IdentityKey,
)
    requires
        0 <= j < changes.len(),
        same_key(changes[j].0, e.0),
        !same_key(e.0, k),
    ensures
        total_for(changes.update(j, e), k) == total_for(changes, k),
    decreases changes.len(),
{
    let n = changes.len() - 1;
    if j < n {
        assert(changes.update(j, e).drop_last() =~= changes.drop_last().update(j, e));
        lemma_total_update_other(changes.drop_last(), j, e, k);
    } else {
        assert(changes.update(j, e).drop_last() =~= changes.drop_last());
    }
}

/// `k` occurs in the list.
pub open spec fn key_listed(r: Seq<IdentityKey>, k: IdentityKey) -> bool {
    exists|j: int| 0 <= j < r.len() && #[trigger] r[j] == k
}

/// Some validator with key `k` is slashed (`slashed`) or not (`!slashed`).
pub open spec fn state_listed(s: Seq<ValidatorInfo>, k: IdentityKey, slashed: bool) -> bool {
    exists|i: int|
        0 <= i < s.len() && (#[trigger] s[i]).key() == k && (s[i].status.state
            == ValidatorState::Slashed) == slashed
}

/// `i` is the first supply update for base denomination `denom`.
pub open spec fn first_supply_for(s: Seq<(String, u64)>, denom: Seq<char>, i: int) -> bool {
    &&& 0 <= i < s.len()
    &&& s[i].0@ == denom
    &&& forall|j: int| 0 <= j < i ==> (#[trigger] s[j]).0@ != denom
}

pub open spec fn has_supply_for(s: Seq<(String, u64)>, denom: Seq<char>) -> bool {
    exists|i: int| 0 <= i < s.len() && (#[trigger] s[i]).0@ == denom
}

/// A token supply left the 64-bit range.
#[derive(Debug, Clone, Copy, PartialEq, Eq, Structural)]
pub struct SupplyOverflow;

/// `k` was appended to `list` at or after position `from`.
pub open spec fn appended(list: Seq<IdentityKey>, from: int, k: IdentityKey) -> bool {
    exists|x: int| from <= x < list.len() && list[x] == k
}

proof fn lemma_appended_push(list: Seq<IdentityKey>, from: int, k: IdentityKey)
    requires
        0 <= from <= list.len(),
    ensures
        forall|j: IdentityKey| appended(list, from, j) ==> appended(list.push(k), from, j),
        appended(list.push(k), from, k),
{
    assert(list.push(k)[list.len() as int] == k);
    assert forall|j: IdentityKey| appended(list, from, j) implies appended(list.push(k), from, j) by {
        let x = choose|x: int| from <= x < list.len() && list[x] == j;
        assert(list.push(k)[x] == j);
    }
}

/// No entry after `j` has the key of entry `j`.
pub open spec fn last_with_key(all: Seq<ValidatorInfo>, j: int) -> bool {
    &&& 0 <= j < all.len()
    &&& forall|k: int| j < k < all.len() ==> !same_key((#[trigger] all[k]).key(), all[j].key())
}

/// `info` is the last entry of `all` with its key.
pub open spec fn last_entry_of(all: Seq<ValidatorInfo>, info: ValidatorInfo) -> bool {
    exists|j: int| last_with_key(all, j) && info == all[j]
}

/// Keys of the entries of `all` from position `n` on.
pub open spec fn suffix_has_key(all: Seq<ValidatorInfo>, n: int, k: IdentityKey) -> bool {
    exists|i: int| n <= i < all.len() && same_key(#[trigger] all[i].key(), k)
}

proof fn lemma_suffix_keys_step(
    all: Seq<ValidatorInfo>,
    n: int,
    old_set: Seq<ValidatorInfo>,
    new_set: Seq<ValidatorInfo>,
)
    requires
        0 <= n < all.len(),
        forall|k: IdentityKey| has_key(old_set, k) <==> suffix_has_key(all, n + 1, k),
        forall|k: IdentityKey|
            has_key(new_set, k) <==> (has_key(old_set, k) || same_key(k, all[n].key())),
    ensures
        forall|k: IdentityKey| has_key(new_set, k) <==> suffix_has_key(all, n, k),
{
    assert forall|k: IdentityKey| has_key(new_set, k) <==> suffix_has_key(all, n, k) by {
        if suffix_has_key(all, n + 1, k) {
            let i = choose|i: int| n + 1 <= i < all.len() && same_key(#[trigger] all[i].key(), k);
            assert(n <= i < all.len());
        }
        if suffix_has_key(all, n, k) {
            let i = choose|i: int| n <= i < all.len() && same_key(#[trigger] all[i].key(), k);
            if i != n {
                assert(suffix_has_key(all, n + 1, k));
            }
        }
    }
}

/// Records the complete state of all validators throughout a block, and the
/// changes that the block makes, until the block is committed.
#[derive(Debug)]
pub struct ValidatorSet {
    /// Every known validator, sorted by identity key.
    pub validator_set: Vec<ValidatorInfo>,
    /// Validator definitions received during the block, in arrival order.
    pub validator_definitions: Vec<ValidatorDefinition>,
    /// Validators first defined in this block.
    pub new_validators: Vec<IdentityKey>,
    /// Existing validators whose configuration changed in this block.
    pub updated_validators: Vec<IdentityKey>,
    /// Validators slashed during this block.
    pub slashed_validators: Vec<IdentityKey>,
    /// Net delegation change of this block per validator, at most one entry per key.
    pub delegation_changes: Vec<(IdentityKey, i64)>,
    /// The epoch the block belongs to.
    pub epoch: Epoch,
    /// At the last block of an epoch, the base rates of the next epoch.
    pub next_base_rate: Option<BaseRateData>,
    /// At the last block of an epoch, the validator rates of the next epoch.
    pub next_rates: Option<Vec<RateData>>,
    /// Consensus key and power of every validator, sent to the consensus engine.
    pub tm_validator_updates: Vec<(ConsensusKey, u64)>,
    /// Commission rewards of the epoch: amount and recipient address.
    pub reward_notes: Vec<(u64, Vec<u8>)>,
    /// Token supply updates: base denomination and new supply.
    pub supply_updates: Vec<(String, u64)>,
    /// At the last block of an epoch, the new supply of each validator's
    /// delegation token.
    pub delegation_supply_updates: Vec<(IdentityKey, u64)>,
    /// At the last block of an epoch, the new supply of the staking token.
    pub staking_token_supply: Option<u64>,
}

impl ValidatorSet {
    /// The validator entries are sorted by identity key, each entry's status
    /// and rates name the same validator as its configuration, and the
    /// block's delegation changes hold at most one entry per key.
    pub open spec fn wf(self) -> bool {
        &&& sorted_by_key(self.validator_set@)
        &&& unique_change_keys(self.delegation_changes@)
        &&& forall|i: int|
            0 <= i < self.validator_set@.len() ==> (#[trigger] self.validator_set@[i]).consistent()
    }

    /// A set whose validators are those of `validators` and which has seen
    /// nothing yet in `epoch`. When two entries share an identity key, the
    /// later one is kept: each entry of the set is the last input entry with
    /// its key.
    #[verifier::rlimit(50)]
    pub fn new(validators: Vec<ValidatorInfo>, epoch: Epoch) -> (r: ValidatorSet)
        requires
            forall|i: int| 0 <= i < validators@.len() ==> (#[trigger] validators@[i]).consistent(),
        ensures
            r.wf(),
            r.epoch == epoch,
            r.validator_definitions@.len() == 0,
            r.new_validators@.len() == 0,
            r.updated_validators@.len() == 0,
            r.slashed_validators@.len() == 0,
            r.delegation_changes@.len() == 0,
            r.next_base_rate is None,
            r.next_rates is None,
            r.tm_validator_updates@.len() == 0,
            r.reward_notes@.len() == 0,
            r.supply_updates@.len() == 0,
            r.delegation_supply_updates@.len() == 0,
            r.staking_token_supply is None,
            forall|k: IdentityKey| has_key(r.validator_set@, k) <==> suffix_has_key(validators@, 0, k),
            forall|i: int|
                0 <= i < r.validator_set@.len() ==> last_entry_of(validators@, #[trigger] r.validator_set@[i]),
    {
        let mut set = ValidatorSet {
            validator_set: Vec::new(),
            validator_definitions: Vec::new(),
            new_validators: Vec::new(),
            updated_validators: Vec::new(),
            slashed_validators: Vec::new(),
            delegation_changes: Vec::new(),
            epoch,
            next_base_rate: None,
            next_rates: None,
            tm_validator_updates: Vec::new(),
            reward_notes: Vec::new(),
            supply_updates: Vec::new(),
            delegation_supply_updates: Vec::new(),
            staking_token_supply: None,
        };
        let ghost set0 = set;
        let mut validators = validators;
        let ghost all = validators@;
        // Later entries win: walk from the back and keep the first seen of each key.
        while validators.len() > 0
            invariant
                set.wf(),
                set == (ValidatorSet { validator_set: set.validator_set, ..set0 }),
                validators@.len() <= all.len(),
                validators@ == all.subrange(0, validators@.len() as int),
                forall|i: int| 0 <= i < all.len() ==> (#[trigger] all[i]).consistent(),
                forall|k: IdentityKey|
                    has_key(set.validator_set@, k) <==> suffix_has_key(all, validators@.len() as int, k),
                forall|i: int|
                    0 <= i < set.validator_set@.len() ==> last_entry_of(all, #[trigger] set.validator_set@[i]),
            decreases validators@.len(),
        {
            let v = validators.pop().unwrap();
            let ghost n = validators@.len() as int;
            proof {
                assert(all[n] == v);
                assert(validators@ =~= all.subrange(0, n));
            }
            let ghost old_set = set.validator_set@;
            let found = set.find_key(&v.validator.identity_key);
            if found.is_none() {
                proof {
                    assert(last_with_key(all, n)) by {
                        assert forall|j: int| n < j < all.len() implies !same_key(
                            all[j].key(),
                            all[n].key(),
                        ) by {
                            if same_key(all[j].key(), all[n].key()) {
                                assert(suffix_has_key(all, n + 1, v.key()));
                                assert(has_key(old_set, v.key()));
                            }
                        }
                    }
                }
                set.add_validator(v);
                proof {
                    let new_set = set.validator_set@;
                    let p = choose|p: int|
                        {
                            ||| position_of_key(old_set, v.key(), p) && new_set == old_set.update(p, v)
                            ||| !has_key(old_set, v.key()) && 0 <= p <= old_set.len() && new_set
                                == old_set.insert(p, v)
                        };
                    if position_of_key(old_set, v.key(), p) {
                        assert(has_key(old_set, v.key()));
                    }
                    assert forall|i: int| 0 <= i < new_set.len() implies last_entry_of(all, #[trigger] new_set[i]) by {
                        if i < p {
                            assert(new_set[i] == old_set[i]);
                        } else if i == p {
                            assert(new_set[i] == all[n]);
                            assert(last_with_key(all, n) && new_set[i] == all[n]);
                        } else {
                            assert(new_set[i] == old_set[i - 1]);
                        }
                    }
                    assert forall|k: IdentityKey| has_key(set.validator_set@, k) <==> (has_key(old_set, k) || same_key(k, all[n].key())) by {
                        assert(same_key(k, all[n].key()) == same_key(k, v.key()));
                    }
                }
            }
            proof {
                if let Some(p) = found {
                    assert forall|k: IdentityKey| has_key(set.validator_set@, k) <==> (has_key(old_set, k) || same_key(k, all[n].key())) by {
                        if same_key(k, all[n].key()) {
                            assert(position_of_key(old_set, k, p as int));
                        }
                    }
                }
                lemma_suffix_keys_step(all, n, old_set, set.validator_set@);
            }
        }
        set
    }

    /// The position of the validator with identity key `key`, if any.
    pub fn find_key(&self, key: &IdentityKey) -> (r: Option<usize>)
        ensures
            r matches Some(i) ==> position_of_key(self.validator_set@, *key, i as int),
            r is None ==> !has_key(self.validator_set@, *key),
    {
        let mut i: usize = 0;
        while i < self.validator_set.len()
            invariant
                0 <= i <= self.validator_set@.len(),
                forall|j: int| 0 <= j < i ==> !position_of_key(self.validator_set@, *key, j),
            decreases self.validator_set@.len() - i,
        {
            if self.validator_set[i].validator.identity_key.compare(key) == ByteOrder::Equal {
                return Some(i);
            }
            i = i + 1;
        }
        None
    }

    /// Everything but the validator entries is as in `other`.
    pub open spec fn same_but_entries(self, other: ValidatorSet) -> bool {
        self == (ValidatorSet { validator_set: self.validator_set, ..other })
    }

    /// The position of the first validator with consensus key `ck`, if any.
    pub fn find_consensus_key(&self, ck: &ConsensusKey) -> (r: Option<usize>)
        ensures
            r matches Some(i) ==> first_with_consensus_key(self.validator_set@, *ck, i as int),
            r is None ==> !has_consensus_key(self.validator_set@, *ck),
    {
        let mut i: usize = 0;
        while i < self.validator_set.len()
            invariant
                0 <= i <= self.validator_set@.len(),
                forall|j: int|
                    0 <= j < i ==> (#[trigger] self.validator_set@[j]).validator.consensus_key.bytes@
                        != ck.bytes@,
            decreases self.validator_set@.len() - i,
        {
            if self.validator_set[i].validator.consensus_key == *ck {
                return Some(i);
            }
            i = i + 1;
        }
        None
    }

    /// The validator with identity key `identity_key`, if any.
    pub fn get_validator_info(&self, identity_key: &IdentityKey) -> (r: Option<&ValidatorInfo>)
        ensures
            r matches Some(info) ==> exists|i: int|
                position_of_key(self.validator_set@, *identity_key, i) && *info
                    == self.validator_set@[i],
            r is None ==> !has_key(self.validator_set@, *identity_key),
    {
        match self.find_key(identity_key) {
            Some(i) => Some(&self.validator_set[i]),
            None => None,
        }
    }

    /// The state of the validator with identity key `identity_key`, if any.
    pub fn get_state(&self, identity_key: &IdentityKey) -> (r: Option<ValidatorState>)
        ensures
            r matches Some(state) ==> exists|i: int|
                position_of_key(self.validator_set@, *identity_key, i) && state
                    == self.validator_set@[i].status.state,
            r is None ==> !has_key(self.validator_set@, *identity_key),
    {
        match self.find_key(identity_key) {
            Some(i) => Some(self.validator_set[i].status.state),
            None => None,
        }
    }

    /// The configuration of the first validator with consensus key `ck`.
    pub fn get_validator_by_consensus_key(&self, ck: &ConsensusKey) -> (r: Result<
        &Validator,
        TransitionError,
    >)
        ensures
            r matches Ok(v) ==> exists|i: int|
                first_with_consensus_key(self.validator_set@, *ck, i) && *v
                    == self.validator_set@[i].validator,
            r is Err ==> r == Err::<&Validator, _>(TransitionError::ValidatorNotFound)
                && !has_consensus_key(self.validator_set@, *ck),
    {
        match self.find_consensus_key(ck) {
            Some(i) => Ok(&self.validator_set[i].validator),
            None => Err(TransitionError::ValidatorNotFound),
        }
    }

    /// Replaces the status of the entry at `i`.
    pub(crate) fn set_status(&mut self, i: usize, status: ValidatorStatus)
        requires
            old(self).wf(),
            i < old(self).validator_set@.len(),
            same_key(status.identity_key, old(self).validator_set@[i as int].status.identity_key),
        ensures
            final(self).wf(),
            final(self).same_but_entries(*old(self)),
            final(self).validator_set@ == old(self).validator_set@.update(
                i as int,
                with_status(old(self).validator_set@[i as int], status),
            ),
    {
        let ghost s = self.validator_set@;
        self.validator_set[i].status = status;
        proof {
            let t = self.validator_set@;
            assert(t =~= s.update(i as int, with_status(s[i as int], status)));
            assert forall|a: int, b: int|
                0 <= a < b < t.len() implies (#[trigger] t[a]).key().key_lt(#[trigger] t[b].key()) by {
                assert(s[a].key().key_lt(s[b].key()));
            }
            assert forall|a: int| 0 <= a < t.len() implies (#[trigger] t[a]).consistent() by {
                assert(s[a].consistent());
            }
        }
    }

    /// Moves a validator from `Inactive` or `Unbonding` to `Active`.
    pub fn activate_validator(&mut self, ck: ConsensusKey) -> (r: Result<(), TransitionError>)
        requires
            old(self).wf(),
        ensures
            final(self).wf(),
            final(self).same_but_entries(*old(self)),
            !has_consensus_key(old(self).validator_set@, ck) ==> r == Err::<(), _>(
                TransitionError::ValidatorNotFound,
            ) && final(self).validator_set@ == old(self).validator_set@,
            forall|i: int|
                #[trigger] first_with_consensus_key(old(self).validator_set@, ck, i) ==> {
                    let info = old(self).validator_set@[i];
                    if info.status.state is Inactive || info.status.state is Unbonding {
                        r is Ok && final(self).validator_set@ == old(self).validator_set@.update(
                            i,
                            with_state(info, ValidatorState::Active),
                        )
                    } else {
                        r == Err::<(), _>(
                            TransitionError::InvalidTransition {
                                from: info.status.state.spec_name(),
                                to: ValidatorStateName::Active,
                            },
                        ) && final(self).validator_set@ == old(self).validator_set@
                    }
                },
    {
        let i = match self.find_consensus_key(&ck) {
            Some(i) => i,
            None => {
                return Err(TransitionError::ValidatorNotFound);
            },
        };
        let status = self.validator_set[i].status;
        match status.state {
            ValidatorState::Inactive | ValidatorState::Unbonding { .. } => {
                self.set_status(i, ValidatorStatus { state: ValidatorState::Active, ..status });
                Ok(())
            },
            _ => Err(
                TransitionError::InvalidTransition {
                    from: status.state.name(),
                    to: ValidatorStateName::Active,
                },
            ),
        }
    }

    /// Moves a validator from `Unbonding` to `Inactive`.
    pub fn deactivate_validator(&mut self, ck: ConsensusKey) -> (r: Result<(), TransitionError>)
        requires
            old(self).wf(),
        ensures
            final(self).wf(),
            final(self).same_but_entries(*old(self)),
            !has_consensus_key(old(self).validator_set@, ck) ==> r == Err::<(), _>(
                TransitionError::ValidatorNotFound,
            ) && final(self).validator_set@ == old(self).validator_set@,
            forall|i: int|
                #[trigger] first_with_consensus_key(old(self).validator_set@, ck, i) ==> {
                    let info = old(self).validator_set@[i];
                    if info.status.state is Unbonding {
                        r is Ok && final(self).validator_set@ == old(self).validator_set@.update(
                            i,
                            with_state(info, ValidatorState::Inactive),
                        )
                    } else {
                        r == Err::<(), _>(
                            TransitionError::InvalidTransition {
                                from: info.status.state.spec_name(),
                                to: ValidatorStateName::Inactive,
                            },
                        ) && final(self).validator_set@ == old(self).validator_set@
                    }
                },
    {
        let i = match self.find_consensus_key(&ck) {
            Some(i) => i,
            None => {
                return Err(TransitionError::ValidatorNotFound);
            },
        };
        let status = self.validator_set[i].status;
        match status.state {
            ValidatorState::Unbonding { .. } => {
                self.set_status(i, ValidatorStatus { state: ValidatorState::Inactive, ..status });
                Ok(())
            },
            _ => Err(
                TransitionError::InvalidTransition {
                    from: status.state.name(),
                    to: ValidatorStateName::Inactive,
                },
            ),
        }
    }

    /// Moves a validator from `Active` to `Unbonding` until `unbonding_epoch`;
    /// its voting power drops to zero.
    pub fn unbond_validator(&mut self, ck: ConsensusKey, unbonding_epoch: u64) -> (r: Result<
        (),
        TransitionError,
    >)
        requires
            old(self).wf(),
        ensures
            final(self).wf(),
            final(self).same_but_entries(*old(self)),
            !has_consensus_key(old(self).validator_set@, ck) ==> r == Err::<(), _>(
                TransitionError::ValidatorNotFound,
            ) && final(self).validator_set@ == old(self).validator_set@,
            forall|i: int|
                #[trigger] first_with_consensus_key(old(self).validator_set@, ck, i) ==> {
                    let info = old(self).validator_set@[i];
                    if info.status.state == ValidatorState::Active {
                        r is Ok && final(self).validator_set@ == old(self).validator_set@.update(
                            i,
                            with_status(
                                info,
                                ValidatorStatus {
                                    identity_key: info.status.identity_key,
                                    voting_power: 0,
                                    state: ValidatorState::Unbonding { unbonding_epoch },
                                },
                            ),
                        )
                    } else {
                        r == Err::<(), _>(
                            TransitionError::InvalidTransition {
                                from: info.status.state.spec_name(),
                                to: ValidatorStateName::Unbonding,
                            },
                        ) && final(self).validator_set@ == old(self).validator_set@
                    }
                },
    {
        let i = match self.find_consensus_key(&ck) {
            Some(i) => i,
            None => {
                return Err(TransitionError::ValidatorNotFound);
            },
        };
        let status = self.validator_set[i].status;
        match status.state {
            ValidatorState::Active => {
                self.set_status(
                    i,
                    ValidatorStatus {
                        identity_key: status.identity_key,
                        voting_power: 0,
                        state: ValidatorState::Unbonding { unbonding_epoch },
                    },
                );
                Ok(())
            },
            _ => Err(
                TransitionError::InvalidTransition {
                    from: status.state.name(),
                    to: ValidatorStateName::Unbonding,
                },
            ),
        }
    }

    /// Moves a validator from `Active` or `Unbonding` to `Slashed`, applies
    /// the slashing penalty to its reward rate at once, and records it among
    /// the block's slashed validators.
    pub fn slash_validator(&mut self, ck: &ConsensusKey, slashing_penalty: u64) -> (r: Result<
        (),
        TransitionError,
    >)
        requires
            old(self).wf(),
        ensures
            final(self).wf(),
            !has_consensus_key(old(self).validator_set@, *ck) ==> r == Err::<(), _>(
                TransitionError::ValidatorNotFound,
            ) && *final(self) == *old(self),
            forall|i: int|
                #[trigger] first_with_consensus_key(old(self).validator_set@, *ck, i) ==> {
                    let info = old(self).validator_set@[i];
                    if info.status.state is Active || info.status.state is Unbonding {
                        &&& r is Ok
                        &&& final(self).validator_set@ == old(self).validator_set@.update(
                            i,
                            ValidatorInfo {
                                status: ValidatorStatus {
                                    state: ValidatorState::Slashed,
                                    ..info.status
                                },
                                rate_data: RateData {
                                    validator_reward_rate: slashed_rate(
                                        info.rate_data.validator_reward_rate as nat,
                                        slashing_penalty as nat,
                                    ) as u64,
                                    ..info.rate_data
                                },
                                ..info
                            },
                        )
                        &&& final(self).slashed_validators@ == old(
                            self,
                        ).slashed_validators@.push(info.key())
                        &&& *final(self) == (ValidatorSet {
                            validator_set: final(self).validator_set,
                            slashed_validators: final(self).slashed_validators,
                            ..*old(self)
                        })
                    } else {
                        r == Err::<(), _>(
                            TransitionError::InvalidTransition {
                                from: info.status.state.spec_name(),
                                to: ValidatorStateName::Slashed,
                            },
                        ) && *final(self) == *old(self)
                    }
                },
    {
        let i = match self.find_consensus_key(ck) {
            Some(i) => i,
            None => {
                return Err(TransitionError::ValidatorNotFound);
            },
        };
        let status = self.validator_set[i].status;
        match status.state {
            ValidatorState::Active | ValidatorState::Unbonding { .. } => {},
            _ => {
                return Err(
                    TransitionError::InvalidTransition {
                        from: status.state.name(),
                        to: ValidatorStateName::Slashed,
                    },
                );
            },
        }
        let ghost s = self.validator_set@;
        let mut rate = self.validator_set[i].rate_data;
        rate.slash(slashing_penalty);
        self.validator_set[i].rate_data = rate;
        self.validator_set[i].status = ValidatorStatus { state: ValidatorState::Slashed, ..status };
        self.slashed_validators.push(self.validator_set[i].validator.identity_key);
        proof {
            let t = self.validator_set@;
            assert forall|a: int, b: int|
                0 <= a < b < t.len() implies (#[trigger] t[a]).key().key_lt(#[trigger] t[b].key()) by {
                assert(s[a].key().key_lt(s[b].key()));
            }
            assert forall|a: int| 0 <= a < t.len() implies (#[trigger] t[a]).consistent() by {
                assert(s[a].consistent());
            }
            assert(t =~= s.update(
                i as int,
                ValidatorInfo {
                    status: ValidatorStatus { state: ValidatorState::Slashed, ..s[i as int].status },
                    rate_data: rate,
                    ..s[i as int]
                },
            ));
        }
        Ok(())
    }

    /// Applies the epoch-boundary state transitions to every validator (see
    /// `epoch_transition`), with the top set chosen by voting power among
    /// `active_validator_limit` places. When the transitions contradict each
    /// other for some validator nothing changes and an error is returned.
    pub fn process_epoch_transitions(
        &mut self,
        active_validator_limit: u64,
        current_epoch: Epoch,
        unbonding_epochs: u64,
    ) -> (r: Result<(), TransitionError>)
        requires
            old(self).wf(),
        ensures
            final(self).wf(),
            final(self).same_but_entries(*old(self)),
            r is Err <==> exists|i: int|
                0 <= i < old(self).validator_set@.len() && #[trigger] epoch_transition(
                    old(self).validator_set@[i].status,
                    in_top(old(self).validator_set@, i, active_validator_limit as nat),
                    current_epoch.index,
                    unbonding_epochs,
                ) is None,
            r is Err ==> r == Err::<(), _>(
                TransitionError::InvalidTransition {
                    from: ValidatorStateName::Active,
                    to: ValidatorStateName::Inactive,
                },
            ) && final(self).validator_set@ == old(self).validator_set@,
            r is Ok ==> final(self).validator_set@.len() == old(self).validator_set@.len(),
            r is Ok ==> forall|i: int|
                0 <= i < old(self).validator_set@.len() ==> #[trigger] final(self).validator_set@[i]
                    == with_status(
                    old(self).validator_set@[i],
                    epoch_transition(
                        old(self).validator_set@[i].status,
                        in_top(old(self).validator_set@, i, active_validator_limit as nat),
                        current_epoch.index,
                        unbonding_epochs,
                    )->Some_0,
                ),
            r is Ok ==> forall|i: int|
                0 <= i < old(self).validator_set@.len() && !in_top(
                    old(self).validator_set@,
                    i,
                    active_validator_limit as nat,
                ) ==> (#[trigger] final(self).validator_set@[i]).status.state
                    != ValidatorState::Active,
    {
        let ghost s = self.validator_set@;
        let n = self.validator_set.len();
        let mut next: Vec<ValidatorStatus> = Vec::new();
        let mut i: usize = 0;
        while i < n
            invariant
                n == s.len(),
                self.validator_set@ == s,
                *self == *old(self),
                self.wf(),
                0 <= i <= n,
                next@.len() == i,
                forall|j: int|
                    0 <= j < i ==> epoch_transition(
                        s[j].status,
                        in_top(s, j, active_validator_limit as nat),
                        current_epoch.index,
                        unbonding_epochs,
                    ) == Some(#[trigger] next@[j]),
            decreases n - i,
        {
            // Count the validators that rank above entry `i`.
            let power = self.validator_set[i].status.voting_power;
            let mut above: u64 = 0;
            let mut j: usize = 0;
            while j < n
                invariant
                    n == s.len(),
                    self.validator_set@ == s,
                    0 <= i < n,
                    0 <= j <= n,
                    power == s[i as int].status.voting_power,
                    above == count_above(s, i as int, j as int),
                    above <= j,
                decreases n - j,
            {
                let other = self.validator_set[j].status.voting_power;
                if other > power || (other == power && j < i) {
                    above = above + 1;
                }
                j = j + 1;
            }
            let top = above < active_validator_limit;
            let status = self.validator_set[i].status;
            let moved = match status.state {
                ValidatorState::Inactive => if top {
                    ValidatorStatus { state: ValidatorState::Active, ..status }
                } else {
                    status
                },
                ValidatorState::Unbonding { unbonding_epoch } => if unbonding_epoch
                    <= current_epoch.index {
                    if top {
                        proof {
                            assert(in_top(s, i as int, active_validator_limit as nat));
                            assert(epoch_transition(
                                s[i as int].status,
                                in_top(s, i as int, active_validator_limit as nat),
                                current_epoch.index,
                                unbonding_epochs,
                            ) is None);
                        }
                        return Err(
                            TransitionError::InvalidTransition {
                                from: ValidatorStateName::Active,
                                to: ValidatorStateName::Inactive,
                            },
                        );
                    } else {
                        ValidatorStatus { state: ValidatorState::Inactive, ..status }
                    }
                } else if top {
                    ValidatorStatus { state: ValidatorState::Active, ..status }
                } else {
                    status
                },
                ValidatorState::Active => if top {
                    status
                } else {
                    ValidatorStatus {
                        identity_key: status.identity_key,
                        voting_power: 0,
                        state: ValidatorState::Unbonding {
                            unbonding_epoch: current_epoch.index.saturating_add(unbonding_epochs),
                        },
                    }
                },
                ValidatorState::Slashed => status,
            };
            next.push(moved);
            i = i + 1;
        }
        let mut k: usize = 0;
        while k < n
            invariant
                n == s.len(),
                next@.len() == n,
                0 <= k <= n,
                self.wf(),
                self.same_but_entries(*old(self)),
                s == old(self).validator_set@,
                self.validator_set@.len() == n,
                forall|j: int|
                    0 <= j < n ==> epoch_transition(
                        s[j].status,
                        in_top(s, j, active_validator_limit as nat),
                        current_epoch.index,
                        unbonding_epochs,
                    ) == Some(#[trigger] next@[j]),
                forall|j: int| 0 <= j < k ==> #[trigger] self.validator_set@[j] == with_status(s[j], next@[j]),
                forall|j: int| k <= j < n ==> #[trigger] self.validator_set@[j] == s[j],
            decreases n - k,
        {
            proof {
                lemma_transition_keeps_key(
                    s[k as int].status,
                    in_top(s, k as int, active_validator_limit as nat),
                    current_epoch.index,
                    unbonding_epochs,
                );
            }
            self.set_status(k, next[k]);
            k = k + 1;
        }
        proof {
            assert forall|j: int| 0 <= j < n implies #[trigger] epoch_transition(
                s[j].status,
                in_top(s, j, active_validator_limit as nat),
                current_epoch.index,
                unbonding_epochs,
            ) is Some by {
                assert(epoch_transition(
                    s[j].status,
                    in_top(s, j, active_validator_limit as nat),
                    current_epoch.index,
                    unbonding_epochs,
                ) == Some(next@[j]));
            }
            assert forall|j: int|
                0 <= j < n && !in_top(s, j, active_validator_limit as nat) implies (
                #[trigger] self.validator_set@[j]).status.state != ValidatorState::Active by {
                lemma_outside_top_not_active(s[j].status, current_epoch.index, unbonding_epochs);
            }
        }
        Ok(())
    }

    /// Replaces the configuration of the entry at `i`, keeping its status and rates.
    fn set_config(&mut self, i: usize, validator: Validator)
        requires
            old(self).wf(),
            i < old(self).validator_set@.len(),
            same_key(validator.identity_key, old(self).validator_set@[i as int].key()),
        ensures
            final(self).wf(),
            final(self).same_but_entries(*old(self)),
            final(self).validator_set@ == old(self).validator_set@.update(
                i as int,
                ValidatorInfo { validator, ..old(self).validator_set@[i as int] },
            ),
            entry_of(
                final(self).validator_set@,
                validator.identity_key,
                ValidatorInfo { validator, ..old(self).validator_set@[i as int] },
            ),
            forall|k: IdentityKey| has_key(final(self).validator_set@, k) <==> has_key(old(self).validator_set@, k),
            forall|k: IdentityKey, info: ValidatorInfo|
                !same_key(k, validator.identity_key) && #[trigger] entry_of(old(self).validator_set@, k, info)
                    ==> entry_of(final(self).validator_set@, k, info),
    {
        let ghost s = self.validator_set@;
        let ghost v = validator;
        self.validator_set[i].validator = validator;
        proof {
            let t = self.validator_set@;
            assert(t =~= s.update(i as int, ValidatorInfo { validator: v, ..s[i as int] }));
            assert forall|a: int, b: int|
                0 <= a < b < t.len() implies (#[trigger] t[a]).key().key_lt(#[trigger] t[b].key()) by {
                assert(s[a].key().key_lt(s[b].key()));
            }
            assert forall|a: int| 0 <= a < t.len() implies (#[trigger] t[a]).consistent() by {
                assert(s[a].consistent());
            }
            let nv = ValidatorInfo { validator: v, ..s[i as int] };
            assert(position_of_key(s, nv.key(), i as int));
            lemma_update_keys(s, i as int, nv, t);
            assert forall|k: IdentityKey| has_key(t, k) <==> has_key(s, k) by {
                if same_key(k, nv.key()) {
                    assert(position_of_key(s, k, i as int));
                }
            }
        }
    }

    /// Whether definition `p` is the one chosen for its identity key.
    fn is_chosen(&self, p: usize) -> (r: bool)
        requires
            p < self.validator_definitions@.len(),
        ensures
            r == is_chosen_definition(self.validator_definitions@, p as int),
    {
        let d = &self.validator_definitions;
        let n = d.len();
        let mut chosen = true;
        let mut q: usize = 0;
        while q < n
            invariant
                n == d@.len(),
                p < n,
                0 <= q <= n,
                chosen == forall|j: int|
                    0 <= j < q && same_key(
                        (#[trigger] d@[j]).validator.identity_key,
                        d@[p as int].validator.identity_key,
                    ) ==> def_beats(d@, p as int, j),
            decreases n - q,
        {
            let beats = if d[q].validator.identity_key.compare(&d[p].validator.identity_key)
                == ByteOrder::Equal {
                let sp = d[p].validator.sequence_number;
                let sq = d[q].validator.sequence_number;
                let c = crate::keys::compare_bytes(d[p].auth_sig.as_slice(), d[q].auth_sig.as_slice());
                proof {
                    if c == ByteOrder::Greater {
                        lemma_bytes_lt_asymmetric(d@[q as int].auth_sig@, d@[p as int].auth_sig@);
                    }
                }
                sp > sq || (sp == sq && (c == ByteOrder::Less || (c == ByteOrder::Equal && p <= q)))
            } else {
                true
            };
            proof {
                assert(beats == (same_key(d@[q as int].validator.identity_key, d@[p as int].validator.identity_key)
                    ==> def_beats(d@, p as int, q as int)));
            }
            chosen = chosen && beats;
            q = q + 1;
        }
        chosen
    }

    /// The power of every validator, as the consensus engine is to receive it.
    fn consensus_updates(&self) -> (r: Result<Vec<(ConsensusKey, u64)>, EndBlockError>)
        ensures
            r is Ok <==> forall|i: int|
                0 <= i < self.validator_set@.len() ==> consensus_power(
                    #[trigger] self.validator_set@[i],
                ) <= MAX_CONSENSUS_POWER,
            r matches Ok(u) ==> u@.len() == self.validator_set@.len() && forall|i: int|
                0 <= i < u@.len() ==> (#[trigger] u@[i]).0 == self.validator_set@[i].validator.consensus_key
                    && u@[i].1 == consensus_power(self.validator_set@[i]),
            r is Err ==> r == Err::<Vec<(ConsensusKey, u64)>, _>(EndBlockError::PowerOutOfRange),
    {
        let mut u: Vec<(ConsensusKey, u64)> = Vec::new();
        let mut i: usize = 0;
        while i < self.validator_set.len()
            invariant
                0 <= i <= self.validator_set@.len(),
                u@.len() == i,
                forall|j: int|
                    0 <= j < i ==> (#[trigger] u@[j]).0 == self.validator_set@[j].validator.consensus_key
                        && u@[j].1 == consensus_power(self.validator_set@[j]),
                forall|j: int|
                    0 <= j < i ==> consensus_power(#[trigger] self.validator_set@[j])
                        <= MAX_CONSENSUS_POWER,
            decreases self.validator_set@.len() - i,
        {
            let info = &self.validator_set[i];
            let power = if info.status.state == ValidatorState::Active {
                info.status.voting_power
            } else {
                0
            };
            if power > MAX_CONSENSUS_POWER {
                return Err(EndBlockError::PowerOutOfRange);
            }
            u.push((info.validator.consensus_key, power));
            i = i + 1;
        }
        Ok(u)
    }

    /// Ends the block: picks one definition per identity key among those
    /// received (see `is_chosen_definition`), applies each to the validator
    /// set, and computes the consensus engine's power updates.
    pub fn end_block(&mut self, epoch: Epoch) -> (r: Result<(), EndBlockError>)
        requires
            old(self).wf(),
        ensures
            final(self).wf(),
            final(self).epoch == epoch,
            final(self).validator_definitions == old(self).validator_definitions,
            final(self).slashed_validators == old(self).slashed_validators,
            final(self).delegation_changes == old(self).delegation_changes,
            final(self).next_base_rate == old(self).next_base_rate,
            final(self).next_rates == old(self).next_rates,
            final(self).reward_notes == old(self).reward_notes,
            final(self).supply_updates == old(self).supply_updates,
            final(self).delegation_supply_updates == old(self).delegation_supply_updates,
            final(self).staking_token_supply == old(self).staking_token_supply,
            forall|p: int|
                #[trigger] is_chosen_definition(old(self).validator_definitions@, p) ==> exists|
                    info: ValidatorInfo,
                |
                    entry_of(
                        final(self).validator_set@,
                        old(self).validator_definitions@[p].validator.identity_key,
                        info,
                    ) && resolved_entry(
                        old(self).validator_set@,
                        old(self).validator_definitions@[p],
                        epoch.index,
                        info,
                    ),
            forall|k: IdentityKey, info: ValidatorInfo|
                !chosen_before(
                    old(self).validator_definitions@,
                    old(self).validator_definitions@.len() as int,
                    k,
                ) && #[trigger] entry_of(old(self).validator_set@, k, info) ==> entry_of(
                    final(self).validator_set@,
                    k,
                    info,
                ),
            forall|k: IdentityKey|
                has_key(final(self).validator_set@, k) <==> (has_key(old(self).validator_set@, k)
                    || chosen_before(
                    old(self).validator_definitions@,
                    old(self).validator_definitions@.len() as int,
                    k,
                )),
            old(self).new_validators@.is_prefix_of(final(self).new_validators@),
            old(self).updated_validators@.is_prefix_of(final(self).updated_validators@),
            forall|p: int|
                #[trigger] is_chosen_definition(old(self).validator_definitions@, p) ==> if has_key(
                    old(self).validator_set@,
                    old(self).validator_definitions@[p].validator.identity_key,
                ) {
                    appended(
                        final(self).updated_validators@,
                        old(self).updated_validators@.len() as int,
                        old(self).validator_definitions@[p].validator.identity_key,
                    )
                } else {
                    appended(
                        final(self).new_validators@,
                        old(self).new_validators@.len() as int,
                        old(self).validator_definitions@[p].validator.identity_key,
                    )
                },
            forall|x: int|
                old(self).new_validators@.len() <= x < final(self).new_validators@.len() ==> {
                    &&& chosen_before(
                        old(self).validator_definitions@,
                        old(self).validator_definitions@.len() as int,
                        #[trigger] final(self).new_validators@[x],
                    )
                    &&& !has_key(old(self).validator_set@, final(self).new_validators@[x])
                },
            forall|x: int|
                old(self).updated_validators@.len() <= x < final(self).updated_validators@.len()
                    ==> {
                    &&& chosen_before(
                        old(self).validator_definitions@,
                        old(self).validator_definitions@.len() as int,
                        #[trigger] final(self).updated_validators@[x],
                    )
                    &&& has_key(old(self).validator_set@, final(self).updated_validators@[x])
                },
            r is Ok <==> forall|i: int|
                0 <= i < final(self).validator_set@.len() ==> consensus_power(
                    #[trigger] final(self).validator_set@[i],
                ) <= MAX_CONSENSUS_POWER,
            r is Ok ==> final(self).tm_validator_updates@.len() == final(self).validator_set@.len()
                && forall|i: int|
                0 <= i < final(self).tm_validator_updates@.len() ==> (
                #[trigger] final(self).tm_validator_updates@[i]).0
                    == final(self).validator_set@[i].validator.consensus_key
                    && final(self).tm_validator_updates@[i].1 == consensus_power(
                    final(self).validator_set@[i],
                ),
            r is Err ==> r == Err::<(), _>(EndBlockError::PowerOutOfRange)
                && final(self).tm_validator_updates == old(self).tm_validator_updates,
    {
        self.epoch = epoch;
        let ghost d = self.validator_definitions@;
        let ghost s0 = self.validator_set@;
        let ghost start = *self;
        let n = self.validator_definitions.len();
        let mut p: usize = 0;
        while p < n
            invariant
                n == d.len(),
                0 <= p <= n,
                self.wf(),
                self.validator_definitions@ == d,
                *self == (ValidatorSet {
                    validator_set: self.validator_set,
                    new_validators: self.new_validators,
                    updated_validators: self.updated_validators,
                    ..start
                }),
                start.validator_set@ == s0,
                forall|q: int|
                    0 <= q < p && #[trigger] is_chosen_definition(d, q) ==> exists|info: ValidatorInfo|
                        entry_of(self.validator_set@, d[q].validator.identity_key, info)
                            && resolved_entry(s0, d[q], epoch.index, info),
                forall|k: IdentityKey, info: ValidatorInfo|
                    !chosen_before(d, p as int, k) && #[trigger] entry_of(s0, k, info) ==> entry_of(
                        self.validator_set@,
                        k,
                        info,
                    ),
                forall|k: IdentityKey|
                    #![trigger has_key(self.validator_set@, k)]
                    has_key(self.validator_set@, k) <==> (has_key(s0, k) || chosen_before(
                        d,
                        p as int,
                        k,
                    )),
                start.new_validators@.is_prefix_of(self.new_validators@),
                start.updated_validators@.is_prefix_of(self.updated_validators@),
                forall|q: int|
                    0 <= q < p && #[trigger] is_chosen_definition(d, q) ==> if has_key(
                        s0,
                        d[q].validator.identity_key,
                    ) {
                        appended(
                            self.updated_validators@,
                            start.updated_validators@.len() as int,
                            d[q].validator.identity_key,
                        )
                    } else {
                        appended(
                            self.new_validators@,
                            start.new_validators@.len() as int,
                            d[q].validator.identity_key,
                        )
                    },
                forall|x: int|
                    start.new_validators@.len() <= x < self.new_validators@.len() ==> {
                        &&& chosen_before(d, p as int, #[trigger] self.new_validators@[x])
                        &&& !has_key(s0, self.new_validators@[x])
                    },
                forall|x: int|
                    start.updated_validators@.len() <= x < self.updated_validators@.len() ==> {
                        &&& chosen_before(d, p as int, #[trigger] self.updated_validators@[x])
                        &&& has_key(s0, self.updated_validators@[x])
                    },
            decreases n - p,
        {
            if self.is_chosen(p) {
                let v = self.validator_definitions[p].validator.duplicate();
                let key = v.identity_key;
                let ghost cur = self.validator_set@;
                let ghost kp = d[p as int].validator.identity_key;
                proof {
                    assert(same_key(key, kp));
                    if chosen_before(d, p as int, kp) {
                        let q = choose|q: int|
                            0 <= q < p && #[trigger] is_chosen_definition(d, q) && same_key(
                                d[q].validator.identity_key,
                                kp,
                            );
                        lemma_chosen_unique(d, p as int, q);
                    }
                }
                match self.find_key(&key) {
                    Some(i) => {
                        proof {
                            assert(position_of_key(cur, key, i as int));
                            assert(has_key(cur, key));
                            if chosen_before(d, p as int, key) {
                                let q = choose|q: int|
                                    0 <= q < p && #[trigger] is_chosen_definition(d, q) && same_key(
                                        d[q].validator.identity_key,
                                        key,
                                    );
                                assert(chosen_before(d, p as int, kp));
                            }
                            assert(has_key(s0, key));
                            let j = choose|j: int| position_of_key(s0, key, j);
                            assert(entry_of(s0, key, s0[j]));
                            lemma_entry_at(cur, key, i as int, s0[j]);
                        }
                        let ghost entry = ValidatorInfo { validator: v, ..cur[i as int] };
                        self.set_config(i, v);
                        let ghost upd = self.updated_validators@;
                        self.updated_validators.push(key);
                        proof {
                            assert(self.updated_validators@[upd.len() as int] == kp);
                            lemma_appended_push(upd, start.updated_validators@.len() as int, key);
                        }
                        proof {
                            let j = choose|j: int| position_of_key(s0, key, j);
                            assert(position_of_key(s0, kp, j));
                            assert(resolved_entry(s0, d[p as int], epoch.index, entry));
                            assert(entry_of(self.validator_set@, kp, entry));
                            assert forall|k: IdentityKey| has_key(self.validator_set@, k) <==> (has_key(cur, k) || same_key(k, kp)) by {
                                if same_key(k, kp) {
                                    assert(position_of_key(cur, k, i as int));
                                }
                            }
                        }
                    },
                    None => {
                        let info = ValidatorInfo {
                            validator: v,
                            status: ValidatorStatus {
                                identity_key: key,
                                voting_power: 0,
                                state: ValidatorState::Inactive,
                            },
                            rate_data: RateData {
                                identity_key: key,
                                epoch_index: epoch.index,
                                validator_reward_rate: 0,
                                validator_exchange_rate: RATE_SCALE,
                            },
                        };
                        let ghost entry = info;
                        proof {
                            if has_key(cur, kp) {
                                let j = choose|j: int| position_of_key(cur, kp, j);
                                assert(position_of_key(cur, key, j));
                            }
                            assert(has_key(cur, kp) == (has_key(s0, kp) || chosen_before(d, p as int, kp)));
                            assert(!has_key(s0, kp));
                            assert(resolved_entry(s0, d[p as int], epoch.index, entry));
                        }
                        self.add_validator(info);
                        let ghost nw = self.new_validators@;
                        self.new_validators.push(key);
                        proof {
                            assert(self.new_validators@[nw.len() as int] == kp);
                            lemma_appended_push(nw, start.new_validators@.len() as int, key);
                        }
                        proof {
                            assert(entry.key() == kp);
                            assert(entry_of(self.validator_set@, kp, entry));
                            assert forall|k: IdentityKey| has_key(self.validator_set@, k) <==> (has_key(cur, k) || same_key(k, kp)) by {
                                assert(same_key(k, kp) == same_key(k, entry.key()));
                            }
                        }
                    },
                }
                proof {
                    lemma_end_block_step(d, s0, p as int, cur, self.validator_set@, epoch.index);
                    let nv = self.new_validators@;
                    let uv = self.updated_validators@;
                    assert(chosen_before(d, p as int + 1, kp));
                    assert forall|x: int|
                        start.new_validators@.len() <= x < nv.len() implies {
                            &&& chosen_before(d, p as int + 1, #[trigger] nv[x])
                            &&& !has_key(s0, nv[x])
                        } by {
                        if x < nv.len() - 1 || nv.len() == 0 || nv.last() != key || !same_key(nv[x], kp) {
                            if chosen_before(d, p as int, nv[x]) {
                                let q = choose|q: int|
                                    0 <= q < p && #[trigger] is_chosen_definition(d, q) && same_key(
                                        d[q].validator.identity_key,
                                        nv[x],
                                    );
                                assert(0 <= q < p + 1);
                            }
                        }
                    }
                    assert forall|x: int|
                        start.updated_validators@.len() <= x < uv.len() implies {
                            &&& chosen_before(d, p as int + 1, #[trigger] uv[x])
                            &&& has_key(s0, uv[x])
                        } by {
                        if chosen_before(d, p as int, uv[x]) {
                            let q = choose|q: int|
                                0 <= q < p && #[trigger] is_chosen_definition(d, q) && same_key(
                                    d[q].validator.identity_key,
                                    uv[x],
                                );
                            assert(0 <= q < p + 1);
                        }
                    }
                }
            } else {
                proof {
                    assert forall|k: IdentityKey| chosen_before(d, p as int + 1, k) == chosen_before(d, p as int, k) by {
                        if chosen_before(d, p as int + 1, k) {
                            let q = choose|q: int|
                                0 <= q < p + 1 && #[trigger] is_chosen_definition(d, q) && same_key(
                                    d[q].validator.identity_key,
                                    k,
                                );
                            assert(q != p);
                        }
                    }
                }
            }
            p = p + 1;
        }
        match self.consensus_updates() {
            Ok(u) => {
                self.tm_validator_updates = u;
                Ok(())
            },
            Err(e) => Err(e),
        }
    }

    /// Clears what the block accumulated: definitions, new, updated and
    /// slashed validators, delegation changes, consensus updates, reward
    /// notes and supply updates. A new epoch index also clears the next
    /// epoch's rates and moves the set to `new_epoch`.
    pub fn commit_block(&mut self, new_epoch: Epoch)
        requires
            old(self).wf(),
        ensures
            final(self).wf(),
            final(self).validator_set == old(self).validator_set,
            final(self).validator_definitions@.len() == 0,
            final(self).new_validators@.len() == 0,
            final(self).updated_validators@.len() == 0,
            final(self).slashed_validators@.len() == 0,
            final(self).delegation_changes@.len() == 0,
            final(self).tm_validator_updates@.len() == 0,
            final(self).reward_notes@.len() == 0,
            final(self).supply_updates@.len() == 0,
            final(self).delegation_supply_updates@.len() == 0,
            final(self).staking_token_supply is None,
            if new_epoch.index != old(self).epoch.index {
                &&& final(self).epoch == new_epoch
                &&& final(self).next_base_rate is None
                &&& final(self).next_rates is None
            } else {
                &&& final(self).epoch == old(self).epoch
                &&& final(self).next_base_rate == old(self).next_base_rate
                &&& final(self).next_rates == old(self).next_rates
            },
    {
        if new_epoch.index != self.epoch.index {
            self.epoch = new_epoch;
            self.next_base_rate = None;
            self.next_rates = None;
        }
        self.reward_notes = Vec::new();
        self.supply_updates = Vec::new();
        self.delegation_supply_updates = Vec::new();
        self.staking_token_supply = None;
        self.new_validators = Vec::new();
        self.slashed_validators = Vec::new();
        self.validator_definitions = Vec::new();
        self.updated_validators = Vec::new();
        self.tm_validator_updates = Vec::new();
        self.delegation_changes = Vec::new();
    }

    /// Records a validator definition received during the block; conflicts
    /// are resolved in `end_block`.
    pub fn add_validator_definition(&mut self, validator_definition: ValidatorDefinition)
        ensures
            final(self).validator_definitions@ == old(self).validator_definitions@.push(
                validator_definition,
            ),
            *final(self) == (ValidatorSet {
                validator_definitions: final(self).validator_definitions,
                ..*old(self)
            }),
    {
        self.validator_definitions.push(validator_definition);
    }

    /// Adds the net delegation changes of a transaction to those of the block.
    /// Fails, changing nothing, if a running total leaves the `i64` range.
    pub fn update_delegations(&mut self, delegation_changes: &Vec<(IdentityKey, i64)>) -> (r: Result<
        (),
        DelegationOverflow,
    >)
        requires
            old(self).wf(),
        ensures
            final(self).wf(),
            r is Ok <==> merge_fits(
                old(self).delegation_changes@,
                delegation_changes@,
                delegation_changes@.len() as int,
            ),
            r is Ok ==> forall|k: IdentityKey|
                #[trigger] total_for(final(self).delegation_changes@, k) == total_for(
                    old(self).delegation_changes@,
                    k,
                ) + total_for(delegation_changes@, k),
            r is Ok ==> *final(self) == (ValidatorSet {
                delegation_changes: final(self).delegation_changes,
                ..*old(self)
            }),
            r is Err ==> *final(self) == *old(self),
    {
        let ghost stored = self.delegation_changes@;
        let ghost input = delegation_changes@;
        let mut work: Vec<(IdentityKey, i64)> = Vec::new();
        let mut i: usize = 0;
        while i < self.delegation_changes.len()
            invariant
                0 <= i <= stored.len(),
                self.delegation_changes@ == stored,
                work@ == stored.take(i as int),
            decreases stored.len() - i,
        {
            work.push(self.delegation_changes[i]);
            proof {
                assert(work@ =~= stored.take(i as int + 1));
            }
            i = i + 1;
        }
        proof {
            assert(work@ =~= stored);
        }
        let mut x: usize = 0;
        while x < delegation_changes.len()
            invariant
                0 <= x <= input.len(),
                input == delegation_changes@,
                *self == *old(self),
                self.wf(),
                self.delegation_changes@ == stored,
                unique_change_keys(stored),
                unique_change_keys(work@),
                merge_fits(stored, input, x as int),
                forall|k: IdentityKey|
                    #[trigger] total_for(work@, k) == total_for(stored, k) + total_for(
                        input.take(x as int),
                        k,
                    ),
            decreases input.len() - x,
        {
            let (key, change) = delegation_changes[x];
            proof {
                assert forall|k: IdentityKey| #[trigger] total_for(input.take(x as int + 1), k)
                    == total_for(input.take(x as int), k) + if same_key(key, k) {
                    change as int
                } else {
                    0int
                } by {
                    assert(input.take(x as int + 1).drop_last() =~= input.take(x as int));
                }
            }
            let mut j: usize = 0;
            while j < work.len() && work[j].0.compare(&key) != ByteOrder::Equal
                invariant
                    0 <= j <= work@.len(),
                    forall|a: int| 0 <= a < j ==> !same_key((#[trigger] work@[a]).0, key),
                decreases work@.len() - j,
            {
                j = j + 1;
            }
            let ghost before = work@;
            if j < work.len() {
                let current = work[j].1;
                proof {
                    lemma_total_unique(before, key, j as int);
                }
                let sum = current as i128 + change as i128;
                if sum < i64::MIN as i128 || sum > i64::MAX as i128 {
                    proof {
                        assert(!fits_i64(total_for(stored, input[x as int].0) + total_for(input.take(x as int + 1), input[x as int].0)));
                        assert(!merge_fits(stored, input, input.len() as int));
                    }
                    return Err(DelegationOverflow);
                }
                work.set(j, (key, sum as i64));
                proof {
                    assert forall|k: IdentityKey| #[trigger] total_for(work@, k) == total_for(before, k) + if same_key(key, k) {
                        change as int
                    } else {
                        0int
                    } by {
                        if same_key(key, k) {
                            assert(same_key(work@[j as int].0, k));
                            assert forall|a: int, b: int| 0 <= a < b < work@.len() implies !same_key((#[trigger] work@[a]).0, (#[trigger] work@[b]).0) by {
                                assert(!same_key(before[a].0, before[b].0));
                            }
                            lemma_total_unique(work@, k, j as int);
                            lemma_total_unique(before, k, j as int);
                        } else {
                            lemma_total_update_other(before, j as int, (key, sum as i64), k);
                        }
                    }
                }
            } else {
                proof {
                    lemma_total_absent(before, key);
                }
                work.push((key, change));
                proof {
                    assert(work@.drop_last() =~= before);
                }
            }
            proof {
                assert forall|k: IdentityKey| #[trigger] total_for(work@, k) == total_for(before, k) + if same_key(key, k) {
                    change as int
                } else {
                    0int
                } by {
                    if j < before.len() {
                    } else {
                        assert(work@.drop_last() =~= before);
                    }
                }
                assert forall|a: int, b: int| 0 <= a < b < work@.len() implies !same_key((#[trigger] work@[a]).0, (#[trigger] work@[b]).0) by {
                    if b < before.len() {
                        assert(!same_key(before[a].0, before[b].0));
                    }
                }
                assert(merge_fits(stored, input, x as int + 1)) by {
                    assert forall|y: int| 0 <= y < x + 1 implies fits_i64(
                        total_for(stored, (#[trigger] input[y]).0) + total_for(input.take(y + 1), input[y].0),
                    ) by {
                        if y == x {
                            assert(total_for(before, key) == total_for(stored, key) + total_for(input.take(x as int), key));
                        }
                    }
                }
            }
            x = x + 1;
        }
        proof {
            assert(input.take(input.len() as int) =~= input);
        }
        self.delegation_changes = work;
        Ok(())
    }

    /// The status of every validator, in identity-key order.
    pub fn next_validator_statuses(&self) -> (r: Vec<ValidatorStatus>)
        ensures
            r@.len() == self.validator_set@.len(),
            forall|i: int| 0 <= i < r@.len() ==> #[trigger] r@[i] == self.validator_set@[i].status,
    {
        let mut r: Vec<ValidatorStatus> = Vec::new();
        let mut i: usize = 0;
        while i < self.validator_set.len()
            invariant
                0 <= i <= self.validator_set@.len(),
                r@.len() == i,
                forall|j: int| 0 <= j < i ==> #[trigger] r@[j] == self.validator_set@[j].status,
            decreases self.validator_set@.len() - i,
        {
            r.push(self.validator_set[i].status);
            i = i + 1;
        }
        r
    }

    /// The identity keys of all validators, in identity-key order.
    pub fn validators(&self) -> (r: Vec<IdentityKey>)
        ensures
            r@.len() == self.validator_set@.len(),
            forall|i: int| 0 <= i < r@.len() ==> #[trigger] r@[i] == self.validator_set@[i].key(),
    {
        let mut r: Vec<IdentityKey> = Vec::new();
        let mut i: usize = 0;
        while i < self.validator_set.len()
            invariant
                0 <= i <= self.validator_set@.len(),
                r@.len() == i,
                forall|j: int| 0 <= j < i ==> #[trigger] r@[j] == self.validator_set@[j].key(),
            decreases self.validator_set@.len() - i,
        {
            r.push(self.validator_set[i].validator.identity_key);
            i = i + 1;
        }
        r
    }

    /// Every validator, in identity-key order.
    pub fn validators_info(&self) -> (r: &Vec<ValidatorInfo>)
        ensures
            r@ == self.validator_set@,
    {
        &self.validator_set
    }

    /// The identity keys of the validators whose state is (or is not)
    /// `Slashed`, in identity-key order.
    fn validators_where_slashed(&self, slashed: bool) -> (r: Vec<IdentityKey>)
        ensures
            forall|k: IdentityKey|
                #![trigger key_listed(r@, k)]
                #![trigger state_listed(self.validator_set@, k, slashed)]
                key_listed(r@, k) <==> state_listed(self.validator_set@, k, slashed),
    {
        let mut r: Vec<IdentityKey> = Vec::new();
        let mut i: usize = 0;
        while i < self.validator_set.len()
            invariant
                0 <= i <= self.validator_set@.len(),
                forall|k: IdentityKey|
                    #![trigger key_listed(r@, k)]
                    key_listed(r@, k) <==> state_listed(self.validator_set@.take(i as int), k, slashed),
            decreases self.validator_set@.len() - i,
        {
            let ghost before = r@;
            let info = &self.validator_set[i];
            if (info.status.state == ValidatorState::Slashed) == slashed {
                r.push(info.validator.identity_key);
            }
            proof {
                let pre = self.validator_set@.take(i as int);
                let post = self.validator_set@.take(i as int + 1);
                assert forall|k: IdentityKey|
                    #![trigger key_listed(r@, k)]
                    key_listed(r@, k) <==> state_listed(post, k, slashed) by {
                    if key_listed(r@, k) {
                        let j = choose|j: int| 0 <= j < r@.len() && #[trigger] r@[j] == k;
                        if j < before.len() {
                            assert(key_listed(before, k));
                            let a = choose|a: int| 0 <= a < pre.len() && (#[trigger] pre[a]).key() == k
                                && (pre[a].status.state == ValidatorState::Slashed) == slashed;
                            assert(post[a] == pre[a]);
                        } else {
                            assert(post[i as int].key() == k);
                        }
                    }
                    if state_listed(post, k, slashed) {
                        let a = choose|a: int| 0 <= a < post.len() && (#[trigger] post[a]).key() == k
                            && (post[a].status.state == ValidatorState::Slashed) == slashed;
                        if a < i {
                            assert(pre[a] == post[a]);
                            assert(state_listed(pre, k, slashed));
                            assert(key_listed(before, k));
                            let j = choose|j: int| 0 <= j < before.len() && #[trigger] before[j] == k;
                            assert(r@[j] == k);
                        } else {
                            assert(r@[r@.len() - 1] == k);
                        }
                    }
                }
            }
            i = i + 1;
        }
        proof {
            assert(self.validator_set@.take(i as int) =~= self.validator_set@);
        }
        r
    }

    /// The identity keys of the validators in the `Slashed` state.
    pub fn slashed_validators(&self) -> (r: Vec<IdentityKey>)
        ensures
            forall|k: IdentityKey|
                #![trigger key_listed(r@, k)]
                key_listed(r@, k) <==> state_listed(self.validator_set@, k, true),
    {
        self.validators_where_slashed(true)
    }

    /// The identity keys of the validators not in the `Slashed` state.
    pub fn unslashed_validators(&self) -> (r: Vec<IdentityKey>)
        ensures
            forall|k: IdentityKey|
                #![trigger key_listed(r@, k)]
                key_listed(r@, k) <==> state_listed(self.validator_set@, k, false),
    {
        self.validators_where_slashed(false)
    }

    /// The position of the first supply update for `denom`, if any.
    fn find_supply(&self, denom: &String) -> (r: Option<usize>)
        ensures
            r matches Some(i) ==> first_supply_for(self.supply_updates@, denom@, i as int),
            r is None ==> forall|i: int|
                0 <= i < self.supply_updates@.len() ==> (#[trigger] self.supply_updates@[i]).0@
                    != denom@,
    {
        let mut i: usize = 0;
        while i < self.supply_updates.len()
            invariant
                0 <= i <= self.supply_updates@.len(),
                forall|j: int| 0 <= j < i ==> (#[trigger] self.supply_updates@[j]).0@ != denom@,
            decreases self.supply_updates@.len() - i,
        {
            if self.supply_updates[i].0 == *denom {
                return Some(i);
            }
            i = i + 1;
        }
        None
    }

    /// Records the new supply of the asset with base denomination `denom`,
    /// replacing an earlier record for it.
    pub fn add_supply_update(&mut self, denom: String, token_supply: u64)
        ensures
            *final(self) == (ValidatorSet { supply_updates: final(self).supply_updates, ..*old(self) }),
            forall|i: int| #[trigger] first_supply_for(old(self).supply_updates@, denom@, i)
                ==> final(self).supply_updates@ == old(self).supply_updates@.update(i, (denom, token_supply)),
            !has_supply_for(old(self).supply_updates@, denom@) ==> final(self).supply_updates@
                == old(self).supply_updates@.push((denom, token_supply)),
    {
        match self.find_supply(&denom) {
            Some(i) => {
                self.supply_updates.set(i, (denom, token_supply));
            },
            None => {
                self.supply_updates.push((denom, token_supply));
            },
        }
    }

    /// Adds `amount` to the recorded supply of the asset with base
    /// denomination `denom` (from zero when none is recorded). Fails, changing
    /// nothing, when the sum does not fit in 64 bits.
    pub fn update_supply_for_denom(&mut self, denom: String, amount: u64) -> (r: Result<(), SupplyOverflow>)
        ensures
            *final(self) == (ValidatorSet { supply_updates: final(self).supply_updates, ..*old(self) }),
            forall|i: int| #[trigger] first_supply_for(old(self).supply_updates@, denom@, i) ==> {
                let held = old(self).supply_updates@[i].1;
                if held + amount <= u64::MAX {
                    r is Ok && final(self).supply_updates@ == old(self).supply_updates@.update(
                        i,
                        (old(self).supply_updates@[i].0, (held + amount) as u64),
                    )
                } else {
                    r is Err && final(self).supply_updates@ == old(self).supply_updates@
                }
            },
            !has_supply_for(old(self).supply_updates@, denom@) ==> r is Ok && final(self).supply_updates@
                == old(self).supply_updates@.push((denom, amount)),
    {
        match self.find_supply(&denom) {
            Some(i) => {
                let held = self.supply_updates[i].1;
                match held.checked_add(amount) {
                    Some(total) => {
                        let key = self.supply_updates[i].0.clone();
                        proof {
                            assert(key@ =~= self.supply_updates@[i as int].0@);
                        }
                        self.supply_updates.set(i, (key, total));
                        Ok(())
                    },
                    None => Err(SupplyOverflow),
                }
            },
            None => {
                self.supply_updates.push((denom, amount));
                Ok(())
            },
        }
    }

    /// Adds a validator, replacing the entry with the same identity key.
    pub fn add_validator(&mut self, validator: ValidatorInfo)
        requires
            old(self).wf(),
            validator.consistent(),
        ensures
            final(self).wf(),
            *final(self) == (ValidatorSet { validator_set: final(self).validator_set, ..*old(self) }),
            exists|p: int|
                {
                    ||| position_of_key(old(self).validator_set@, validator.key(), p)
                        && final(self).validator_set@ == old(self).validator_set@.update(p, validator)
                    ||| !has_key(old(self).validator_set@, validator.key()) && 0 <= p
                        <= old(self).validator_set@.len() && final(self).validator_set@
                        == old(self).validator_set@.insert(p, validator)
                },
            forall|k: IdentityKey| has_key(final(self).validator_set@, k) <==> (has_key(old(self).validator_set@, k) || same_key(k, validator.key())),
            entry_of(final(self).validator_set@, validator.key(), validator),
            forall|k: IdentityKey, info: ValidatorInfo|
                !same_key(k, validator.key()) && #[trigger] entry_of(old(self).validator_set@, k, info)
                    ==> entry_of(final(self).validator_set@, k, info),
    {
        let key = validator.validator.identity_key;
        let n = self.validator_set.len();
        let mut i: usize = 0;
        while i < n && self.validator_set[i].validator.identity_key.compare(&key) == ByteOrder::Less
            invariant
                n == self.validator_set@.len(),
                0 <= i <= n,
                forall|j: int| 0 <= j < i ==> (#[trigger] self.validator_set@[j]).key().key_lt(key),
            decreases n - i,
        {
            i = i + 1;
        }
        let ghost s = self.validator_set@;
        if i < n && self.validator_set[i].validator.identity_key.compare(&key) == ByteOrder::Equal {
            self.validator_set.remove(i);
            self.validator_set.insert(i, validator);
            proof {
                assert(self.validator_set@ =~= s.update(i as int, validator));
                assert(position_of_key(s, validator.key(), i as int));
                assert forall|a: int, b: int|
                    0 <= a < b < self.validator_set@.len() implies (#[trigger] self.validator_set@[a]).key().key_lt(
                        #[trigger] self.validator_set@[b].key(),
                    ) by {
                    assert(s[a].key().key_lt(s[b].key()));
                }
                lemma_update_keys(s, i as int, validator, self.validator_set@);
                assert(forall|k: IdentityKey| has_key(self.validator_set@, k) <==> (has_key(s, k) || same_key(k, validator.key())));
            }
        } else {
            proof {
                // Every entry from `i` on lies above the new key.
                assert forall|j: int| i <= j < n implies key.key_lt(#[trigger] s[j].key()) by {
                    assert(key.key_lt(s[i as int].key()));
                    if j > i {
                        assert(s[i as int].key().key_lt(s[j].key()));
                        lemma_bytes_lt_transitive(key.bytes@, s[i as int].key().bytes@, s[j].key().bytes@);
                    }
                }
                assert(!has_key(s, key)) by {
                    if has_key(s, key) {
                        let j = choose|j: int| position_of_key(s, key, j);
                        if j < i {
                            assert(s[j].key().key_lt(key));
                        } else {
                            assert(key.key_lt(s[j].key()));
                        }
                        crate::keys::lemma_bytes_lt_asymmetric(s[j].key().bytes@, key.bytes@);
                        crate::keys::lemma_bytes_lt_asymmetric(key.bytes@, s[j].key().bytes@);
                    }
                }
            }
            self.validator_set.insert(i, validator);
            proof {
                let t = self.validator_set@;
                assert(t =~= s.insert(i as int, validator));
                assert forall|a: int, b: int|
                    0 <= a < b < t.len() implies (#[trigger] t[a]).key().key_lt(#[trigger] t[b].key()) by {
                    if b < i {
                        assert(s[a].key().key_lt(s[b].key()));
                    } else if b == i {
                        assert(s[a].key().key_lt(key));
                    } else if a == i {
                        assert(key.key_lt(s[b - 1].key()));
                    } else if a < i {
                        assert(s[a].key().key_lt(s[b - 1].key()));
                    } else {
                        assert(s[a - 1].key().key_lt(s[b - 1].key()));
                    }
                }
                lemma_insert_keys(s, i as int, validator, t);
                assert(forall|k: IdentityKey| has_key(t, k) <==> (has_key(s, k) || same_key(k, validator.key())));
            }
        }
    }
}

} // verus!
