//! Laws of the SIFS brain that relate several functions or hold over every input.

use vstd::arithmetic::div_mod::lemma_div_is_ordered;
use vstd::prelude::*;

use crate::constants::SIFS_LEVELS;
use crate::fixed::{spec_s_level, trunc_div, FIXED_ONE};
use crate::fixed::{REFRACTORY_STEPS, S_COORDINATE_MAX};
use crate::neuron::{
    spec_level_contribution, spec_ring_targets, spec_sifs_current, spec_sifs_sum, spec_sigma,
    NeuronArrays, OUT_DEGREE,
};
use crate::fixed::{Fixed16, INERTIA_CURVE, INERTIA_LEVELS};
use crate::genesis_core::{
    lemma_effective_input_unique, spec_core_night_neuron, spec_effective_input, spec_ghost_input, spec_ghost_target,
    spec_ghost_target_of_any, spec_ghost_targets, spec_level_count, spec_sharded, SifsShard,
};
use crate::neuron::SIFSShard;
use crate::phase::{
    lemma_members, spec_clamp, spec_day_step, spec_inertial_update, spec_night_neuron,
    spec_synapse_after, spec_history_after, spec_inertia_rank,
    spec_input_at, spec_level_members, spec_next_voltage, spec_regrouped, spec_fires, spec_day_neuron,
};
use crate::runner::{
    same_neurons, same_state, spec_initial_block, spec_observed, spec_run, spec_run_tick, spec_tick, spec_ticks,
    spec_ticks_per_observation, BrainRunner,
};

verus! {

/// Rounding toward zero is monotone.
proof fn lemma_trunc_div_monotone(a: int, b: int, d: int)
    requires
        a <= b,
        d > 0,
    ensures
        trunc_div(a, d) <= trunc_div(b, d),
{
    if a >= 0 {
        lemma_div_is_ordered(a, b, d);
    } else if b >= 0 {
        assert((-a) / d >= 0) by {
            vstd::arithmetic::div_mod::lemma_div_pos_is_pos(-a, d);
        }
        vstd::arithmetic::div_mod::lemma_div_pos_is_pos(b, d);
    } else {
        lemma_div_is_ordered(-b, -a, d);
    }
}

/// The smoothed step lies in `[0, 1.0]` and is monotone.
pub proof fn lemma_sigma_monotone(d1: int, d2: int)
    requires
        d1 <= d2,
    ensures
        0 <= spec_sigma(d1) <= spec_sigma(d2) <= FIXED_ONE,
{
    lemma_trunc_div_monotone(d1, d2, 4);
    if -2 * FIXED_ONE <= d1 <= 2 * FIXED_ONE {
        lemma_trunc_div_monotone(-2 * FIXED_ONE, d1, 4);
        lemma_trunc_div_monotone(d1, 2 * FIXED_ONE, 4);
    }
    if -2 * FIXED_ONE <= d2 <= 2 * FIXED_ONE {
        lemma_trunc_div_monotone(-2 * FIXED_ONE, d2, 4);
        lemma_trunc_div_monotone(d2, 2 * FIXED_ONE, 4);
    }
}

proof fn lemma_contribution_monotone(v1: int, v2: int, w: int, th: int)
    requires
        v1 <= v2,
        w >= 0,
    ensures
        0 <= spec_level_contribution(v1, w, th) <= spec_level_contribution(v2, w, th) <= w,
{
    let s1 = spec_sigma(v1 - th);
    let s2 = spec_sigma(v2 - th);
    lemma_sigma_monotone(v1 - th, v2 - th);
    assert(0 <= w * s1 <= w * s2 <= w * 65536) by (nonlinear_arith)
        requires
            w >= 0,
            0 <= s1 <= s2 <= 65536,
    ;
    lemma_div_is_ordered(0, w * s1, 65536);
    lemma_div_is_ordered(w * s1, w * s2, 65536);
    lemma_div_is_ordered(w * s2, w * 65536, 65536);
    assert((w * 65536) / 65536 == w) by (nonlinear_arith);
}

/// The sum of the first `k` level weights.
pub open spec fn spec_weight_sum(w: Seq<i32>, k: nat) -> int
    decreases k,
{
    if k == 0 {
        0
    } else {
        spec_weight_sum(w, (k - 1) as nat) + w[k - 1]
    }
}

proof fn lemma_sum_monotone(v1: int, v2: int, w: Seq<i32>, th: Seq<i32>, k: nat)
    requires
        v1 <= v2,
        k <= w.len(),
        forall|n: int| 0 <= n < w.len() ==> #[trigger] w[n] >= 0,
    ensures
        0 <= spec_sifs_sum(v1, w, th, k) <= spec_sifs_sum(v2, w, th, k) <= spec_weight_sum(w, k),
    decreases k,
{
    if k > 0 {
        lemma_sum_monotone(v1, v2, w, th, (k - 1) as nat);
        lemma_contribution_monotone(v1, v2, w[k - 1] as int, th[k - 1] as int);
    }
}

/// Law: with non-negative level weights the SIFS current is monotone in the input
/// voltage, never negative, and at most the sum of the level weights.
pub proof fn lemma_sifs_current_monotone(v1: int, v2: int, w: Seq<i32>, th: Seq<i32>)
    requires
        v1 <= v2,
        w.len() == SIFS_LEVELS,
        th.len() == SIFS_LEVELS,
        forall|n: int| 0 <= n < SIFS_LEVELS ==> #[trigger] w[n] >= 0,
    ensures
        0 <= spec_sifs_current(v1, w, th) <= spec_sifs_current(v2, w, th),
        spec_sifs_current(v2, w, th) <= spec_weight_sum(w, SIFS_LEVELS as nat),
{
    lemma_sum_monotone(v1, v2, w, th, SIFS_LEVELS as nat);
}


/// Law: a day step keeps every membrane voltage non-negative.
pub proof fn lemma_day_step_keeps_voltage_nonnegative(
    before: NeuronArrays,
    after: NeuronArrays,
    input: Seq<i32>,
    sifs_enabled: bool,
    time_step: u32,
    spikes: Seq<usize>,
)
    requires
        spec_day_step(before, after, input, sifs_enabled, time_step, spikes),
        forall|i: int| 0 <= i < before.n() ==> #[trigger] before.voltage@[i] >= 0,
    ensures
        forall|i: int| 0 <= i < after.n() ==> #[trigger] after.voltage@[i] >= 0,
{
    assert forall|i: int| 0 <= i < after.n() implies #[trigger] after.voltage@[i] >= 0 by {
        assert(before.voltage@[i] >= 0);
        let v = before.voltage@[i] as int;
        assert(trunc_div(v, 2) >= 0) by {
            vstd::arithmetic::div_mod::lemma_div_pos_is_pos(v, 2);
        }
        assert(spec_next_voltage(before, i, spec_input_at(input, i), sifs_enabled) >= 0);
        assert(crate::phase::spec_day_neuron(before, after, i, spec_input_at(input, i), sifs_enabled, time_step));
    }
}

/// Law: a neuron with more than one refractory step left does not spike in a day step;
/// its timer counts down by one. A spiking neuron is reset to zero and becomes refractory.
pub proof fn lemma_day_step_refractory(
    before: NeuronArrays,
    after: NeuronArrays,
    input: Seq<i32>,
    sifs_enabled: bool,
    time_step: u32,
    spikes: Seq<usize>,
    i: int,
)
    requires
        spec_day_step(before, after, input, sifs_enabled, time_step, spikes),
        0 <= i < before.n(),
    ensures
        before.refractory_timer@[i] > 1 ==> !spikes.contains(i as usize)
            && after.refractory_timer@[i] == before.refractory_timer@[i] - 1,
        spikes.contains(i as usize) ==> after.voltage@[i] == 0 && after.refractory_timer@[i]
            == REFRACTORY_STEPS && after.spike_count@[i] == before.spike_count@[i] + 1
            && after.last_spike_time@[i] == time_step,
{
    assert(crate::phase::spec_day_neuron(before, after, i, spec_input_at(input, i), sifs_enabled, time_step));
}

/// A strictly increasing sequence of indices below `n` has at most `n` entries.
proof fn lemma_increasing_below_len(s: Seq<usize>, n: int)
    requires
        n >= 0,
        forall|a: int, b: int| 0 <= a < b < s.len() ==> s[a] < s[b],
        forall|a: int| 0 <= a < s.len() ==> #[trigger] s[a] < n,
    ensures
        s.len() <= n,
    decreases s.len(),
{
    if s.len() > 0 {
        let t = s.drop_last();
        assert forall|a: int| 0 <= a < t.len() implies #[trigger] t[a] < s[s.len() - 1] by {
            assert(s[a] < s[s.len() - 1]);
        }
        lemma_increasing_below_len(t, s[s.len() - 1] as int);
        assert(s[s.len() - 1] < n);
        assert(t.len() == s.len() - 1);
    }
}

/// Law: a day step yields at most one spike per neuron.
pub proof fn lemma_day_step_spike_count(
    before: NeuronArrays,
    after: NeuronArrays,
    input: Seq<i32>,
    sifs_enabled: bool,
    time_step: u32,
    spikes: Seq<usize>,
)
    requires
        spec_day_step(before, after, input, sifs_enabled, time_step, spikes),
    ensures
        spikes.len() <= before.n(),
{
    lemma_increasing_below_len(spikes, before.n() as int);
}

/// Law: in the initial ring each neuron has five synapses, all to neurons of the
/// network, and when there are more than five neurons none of them to itself and no two
/// to the same neuron.
pub proof fn lemma_ring_targets(i: int, n: int)
    requires
        0 <= i < n,
        n <= usize::MAX,
    ensures
        spec_ring_targets(i, n).len() == OUT_DEGREE,
        forall|d: int| 0 <= d < OUT_DEGREE ==> #[trigger] spec_ring_targets(i, n)[d] < n,
        n > OUT_DEGREE ==> forall|d: int|
            0 <= d < OUT_DEGREE ==> #[trigger] spec_ring_targets(i, n)[d] != i,
        n > OUT_DEGREE ==> forall|d: int, e: int|
            0 <= d < e < OUT_DEGREE ==> spec_ring_targets(i, n)[d] != spec_ring_targets(i, n)[e],
{
    assert forall|d: int| 0 <= d < OUT_DEGREE implies #[trigger] spec_ring_targets(i, n)[d] < n by {
        vstd::arithmetic::div_mod::lemma_mod_bound(i + d + 1, n);
    }
    if n > OUT_DEGREE {
        assert forall|d: int| 0 <= d < OUT_DEGREE implies #[trigger] spec_ring_targets(i, n)[d] != i by {
            vstd::arithmetic::div_mod::lemma_mod_bound(i + d + 1, n);
            if i + d + 1 < n {
                vstd::arithmetic::div_mod::lemma_small_mod((i + d + 1) as nat, n as nat);
            } else {
                vstd::arithmetic::div_mod::lemma_mod_sub_multiples_vanish(i + d + 1, n);
                vstd::arithmetic::div_mod::lemma_small_mod((i + d + 1 - n) as nat, n as nat);
            }
        }
        assert forall|d: int, e: int| 0 <= d < e < OUT_DEGREE implies spec_ring_targets(i, n)[d]
            != spec_ring_targets(i, n)[e] by {
            let x = i + d + 1;
            let y = i + e + 1;
            if x < n {
                vstd::arithmetic::div_mod::lemma_small_mod(x as nat, n as nat);
            } else {
                vstd::arithmetic::div_mod::lemma_mod_sub_multiples_vanish(x, n);
                vstd::arithmetic::div_mod::lemma_small_mod((x - n) as nat, n as nat);
            }
            if y < n {
                vstd::arithmetic::div_mod::lemma_small_mod(y as nat, n as nat);
            } else {
                vstd::arithmetic::div_mod::lemma_mod_sub_multiples_vanish(y, n);
                vstd::arithmetic::div_mod::lemma_small_mod((y - n) as nat, n as nat);
            }
        }
    }
}


/// Law: after the night phase regroups the shards (at least one per S-level), each neuron
/// is in exactly one shard, the shard of its S-level `min(9, floor(S))`, and no shard
/// lists a neuron twice.
pub proof fn lemma_regrouped_partition(before: Seq<SIFSShard>, after: Seq<SIFSShard>, s: Seq<i32>)
    requires
        spec_regrouped(before, after, s),
        s.len() <= usize::MAX,
    ensures
        forall|k: int, i: usize|
            0 <= k < after.len() && i < s.len() ==> (#[trigger] after[k].neurons@.contains(i) <==> k
                == spec_s_level(s[i as int] as int)),
        forall|k: int, a: int, b: int|
            0 <= k < after.len() && 0 <= a < b < after[k].neurons@.len() ==> #[trigger] after[k].neurons@[a]
                < #[trigger] after[k].neurons@[b],
{
    assert forall|k: int, i: usize| 0 <= k < after.len() && i < s.len() implies (
    #[trigger] after[k].neurons@.contains(i) <==> k == spec_s_level(s[i as int] as int)) by {
        assert(after[k].s_level == before[k].s_level);
        lemma_members(|j: int| spec_s_level(s[j] as int), k, s.len());
    }
    assert forall|k: int, a: int, b: int|
        0 <= k < after.len() && 0 <= a < b < after[k].neurons@.len() implies #[trigger] after[k].neurons@[a]
            < #[trigger] after[k].neurons@[b] by {
        assert(after[k].s_level == before[k].s_level);
        lemma_members(|j: int| spec_s_level(s[j] as int), k, s.len());
    }
}

/// Law: after the S-shards are built, each shard lists, in increasing order, exactly the
/// neurons of its S-level; with a shard for every S-level each neuron is in exactly one.
pub proof fn lemma_sharded_partition(before: Seq<SifsShard>, after: Seq<SifsShard>, s: Seq<i32>)
    requires
        spec_sharded(before, after, s),
        s.len() <= usize::MAX,
    ensures
        forall|k: int, i: usize|
            0 <= k < after.len() && i < s.len() ==> (#[trigger] after[k].neurons@.contains(i) <==> k
                == spec_s_level(s[i as int] as int)),
        forall|k: int, a: int, b: int|
            0 <= k < after.len() && 0 <= a < b < after[k].neurons@.len() ==> #[trigger] after[k].neurons@[a]
                < #[trigger] after[k].neurons@[b],
{
    assert forall|k: int, i: usize| 0 <= k < after.len() && i < s.len() implies (
    #[trigger] after[k].neurons@.contains(i) <==> k == spec_s_level(s[i as int] as int)) by {
        assert(after[k].level == before[k].level);
        lemma_members(|j: int| spec_s_level(s[j] as int), k, s.len());
    }
    assert forall|k: int, a: int, b: int|
        0 <= k < after.len() && 0 <= a < b < after[k].neurons@.len() implies #[trigger] after[k].neurons@[a]
            < #[trigger] after[k].neurons@[b] by {
        assert(after[k].level == before[k].level);
        lemma_members(|j: int| spec_s_level(s[j] as int), k, s.len());
    }
}

/// Law: the initial sharding puts neuron `i` of `n` into shard `min(i * 10 / n, 9)` and
/// into no other one; the blocks are contiguous: a later neuron is never in an earlier
/// shard.
pub proof fn lemma_initial_blocks(n: int, i: int, j: int, k: int)
    requires
        0 <= i <= j < n,
        n <= usize::MAX,
        0 <= k < SIFS_LEVELS,
    ensures
        0 <= spec_initial_block(n, i) < SIFS_LEVELS,
        spec_initial_block(n, i) <= spec_initial_block(n, j),
        crate::phase::spec_members(|x: int| spec_initial_block(n, x), k, n as nat).contains(i as usize) <==> k
            == spec_initial_block(n, i),
{
    lemma_members(|x: int| spec_initial_block(n, x), k, n as nat);
    assert(i * (SIFS_LEVELS as int) <= j * (SIFS_LEVELS as int));
    lemma_div_is_ordered(i * (SIFS_LEVELS as int), j * (SIFS_LEVELS as int), n);
    vstd::arithmetic::div_mod::lemma_div_pos_is_pos(i * (SIFS_LEVELS as int), n);
}

/// Law: stronger connections change more slowly: the inertia of a synaptic weight does not
/// grow with the weight's magnitude, and lies in `(0, 1.0]`.
pub proof fn lemma_inertia_non_increasing(w1: int, w2: int)
    requires
        (if w1 < 0 { -w1 } else { w1 }) <= (if w2 < 0 { -w2 } else { w2 }),
    ensures
        0 < INERTIA_CURVE[spec_inertia_rank(w2)] <= INERTIA_CURVE[spec_inertia_rank(w1)] <= FIXED_ONE,
{
    let a1 = if w1 < 0 { -w1 } else { w1 };
    let a2 = if w2 < 0 { -w2 } else { w2 };
    lemma_div_is_ordered(a1, a2, 8192);
    vstd::arithmetic::div_mod::lemma_div_pos_is_pos(a1, 8192);
    let r1 = spec_inertia_rank(w1);
    let r2 = spec_inertia_rank(w2);
    assert(0 <= r1 <= r2 < INERTIA_LEVELS);
    assert(forall|r: int| 0 <= r < INERTIA_LEVELS - 1 ==> #[trigger] INERTIA_CURVE[r] >= INERTIA_CURVE[r + 1]);
    assert(forall|r: int| 0 <= r < INERTIA_LEVELS ==> 0 < #[trigger] INERTIA_CURVE[r] <= FIXED_ONE);
}

/// Law: the spike history never grows past its limit and ends with the newest spikes.
pub proof fn lemma_history_bounded(history: Seq<Vec<usize>>, spikes: Seq<usize>, limit: int)
    requires
        history.len() <= limit,
        limit > 0,
    ensures
        spec_history_after(history, spikes, limit).len() == if history.len() < limit {
            history.len() + 1int
        } else {
            limit
        },
        spec_history_after(history, spikes, limit).last() == spikes,
{
}

/// The sum of the per-level counts of the first `m` spikes over the first `levels`
/// S-levels.
pub open spec fn spec_count_sum(s: Seq<i32>, spikes: Seq<usize>, m: nat, levels: nat) -> int
    decreases levels,
{
    if levels == 0 {
        0
    } else {
        spec_count_sum(s, spikes, m, (levels - 1) as nat) + spec_level_count(s, spikes, (levels - 1) as int, m)
    }
}

proof fn lemma_count_sum_step(s: Seq<i32>, spikes: Seq<usize>, m: nat, levels: nat)
    requires
        m > 0,
    ensures
        spec_count_sum(s, spikes, m, levels) == spec_count_sum(s, spikes, (m - 1) as nat, levels) + if spec_s_level(
            s[spikes[m - 1] as int] as int,
        ) < levels {
            1int
        } else {
            0int
        },
    decreases levels,
{
    if levels > 0 {
        lemma_count_sum_step(s, spikes, m, (levels - 1) as nat);
    }
}

proof fn lemma_count_sum_zero(s: Seq<i32>, spikes: Seq<usize>, levels: nat)
    ensures
        spec_count_sum(s, spikes, 0, levels) == 0,
    decreases levels,
{
    if levels > 0 {
        lemma_count_sum_zero(s, spikes, (levels - 1) as nat);
    }
}

/// Law: the per-S-level spike counts of the readout add up to the number of spikes: every
/// spike is counted in exactly one S-level.
pub proof fn lemma_level_counts_sum(s: Seq<i32>, spikes: Seq<usize>, m: nat)
    ensures
        spec_count_sum(s, spikes, m, SIFS_LEVELS as nat) == m,
    decreases m,
{
    if m > 0 {
        lemma_level_counts_sum(s, spikes, (m - 1) as nat);
        lemma_count_sum_step(s, spikes, m, SIFS_LEVELS as nat);
    } else {
        lemma_count_sum_zero(s, spikes, SIFS_LEVELS as nat);
    }
}


/// Law: after the night phase a neuron's scale coordinate lies in `[0, 10.0]`, its spike
/// count is zero, and each synapse that the phase updates (its target is a neuron) has a
/// weight in `[0, 2.0]`.
pub proof fn lemma_night_neuron_in_range<
    A: Fn(u16, usize) -> Fixed16,
    L: Fn(Fixed16) -> [Fixed16; SIFS_LEVELS],
    E: Fn(usize, Fixed16) -> Fixed16,
    H: Fn(u16, u16, usize) -> Fixed16,
>(
    before: NeuronArrays,
    after: NeuronArrays,
    i: int,
    history_len: usize,
    activity_delta: A,
    level_weights: L,
    learning_rate: E,
    hebbian: H,
    k: int,
)
    requires
        spec_night_neuron(before, after, i, history_len, activity_delta, level_weights, learning_rate, hebbian),
        0 <= k < before.synaptic_weights@[i]@.len(),
        k < before.dendrite_targets@[i]@.len(),
        before.dendrite_targets@[i]@[k] < before.n(),
    ensures
        0 <= after.s_coordinate@[i] <= S_COORDINATE_MAX,
        after.spike_count@[i] == 0,
        0 <= after.synaptic_weights@[i]@[k] <= 2 * FIXED_ONE,
{
    let row = after.sifs_weights@[i];
    let level = spec_s_level(after.s_coordinate@[i] as int);
    let eta = choose|eta: Fixed16|
        #[trigger] learning_rate.ensures((level as usize, row[level]), eta) && {
            &&& after.synaptic_weights@[i]@.len() == before.synaptic_weights@[i]@.len()
            &&& forall|q: int|
                0 <= q < before.synaptic_weights@[i]@.len() ==> #[trigger] spec_synapse_after(
                    before,
                    after,
                    i,
                    q,
                    eta as int,
                    history_len,
                    hebbian,
                )
        };
    assert(spec_synapse_after(before, after, i, k, eta as int, history_len, hebbian));
}

/// Law: after the core night phase a neuron's scale coordinate lies in `[0, 10.0]` and its
/// spike count is zero.
pub proof fn lemma_core_night_neuron_in_range<
    A: Fn(u16, usize) -> Fixed16,
    L: Fn(Fixed16) -> [Fixed16; SIFS_LEVELS],
>(
    before: NeuronArrays,
    after: NeuronArrays,
    i: int,
    history_len: usize,
    activity_delta: A,
    level_weights: L,
)
    requires
        spec_core_night_neuron(before, after, i, history_len, activity_delta, level_weights),
    ensures
        0 <= after.s_coordinate@[i] <= S_COORDINATE_MAX,
        after.spike_count@[i] == 0,
{
}

/// Two strictly increasing sequences with the same elements are equal.
proof fn lemma_increasing_unique(a: Seq<usize>, b: Seq<usize>)
    requires
        forall|p: int, q: int| 0 <= p < q < a.len() ==> a[p] < a[q],
        forall|p: int, q: int| 0 <= p < q < b.len() ==> b[p] < b[q],
        forall|x: usize| a.contains(x) <==> b.contains(x),
    ensures
        a == b,
    decreases a.len(),
{
    if a.len() == 0 {
        if b.len() > 0 {
            assert(b.contains(b[0]));
        }
        assert(a =~= b);
    } else {
        assert(a.contains(a[0]));
        assert(b.len() > 0);
        assert(b.contains(b[0]));
        let j = choose|j: int| 0 <= j < b.len() && b[j] == a[0];
        let k = choose|k: int| 0 <= k < a.len() && a[k] == b[0];
        assert(a[0] <= a[k]);
        assert(b[0] <= b[j]);
        assert(a[0] == b[0]);
        let ta = a.drop_first();
        let tb = b.drop_first();
        assert forall|x: usize| ta.contains(x) <==> tb.contains(x) by {
            if ta.contains(x) {
                let p = choose|p: int| 0 <= p < ta.len() && ta[p] == x;
                assert(a[p + 1] == x);
                assert(a.contains(x));
                let q = choose|q: int| 0 <= q < b.len() && b[q] == x;
                assert(a[0] < a[p + 1]);
                assert(q != 0);
                assert(tb[q - 1] == x);
            }
            if tb.contains(x) {
                let p = choose|p: int| 0 <= p < tb.len() && tb[p] == x;
                assert(b[p + 1] == x);
                assert(b.contains(x));
                let q = choose|q: int| 0 <= q < a.len() && a[q] == x;
                assert(b[0] < b[p + 1]);
                assert(q != 0);
                assert(ta[q - 1] == x);
            }
        }
        lemma_increasing_unique(ta, tb);
        assert(a.len() == b.len());
        assert forall|i: int| 0 <= i < a.len() implies a[i] == b[i] by {
            if i > 0 {
                assert(a[i] == ta[i - 1]);
                assert(b[i] == tb[i - 1]);
            }
        }
        assert(a =~= b);
    }
}

/// Law: a day step is a function of the neuron state and the input: from the same state,
/// two day steps for the same input give the same neurons and the same spikes.
pub proof fn lemma_day_step_unique(
    before1: NeuronArrays,
    before2: NeuronArrays,
    after1: NeuronArrays,
    after2: NeuronArrays,
    input: Seq<i32>,
    sifs_enabled: bool,
    time_step: u32,
    spikes1: Seq<usize>,
    spikes2: Seq<usize>,
)
    requires
        same_neurons(before1, before2),
        spec_day_step(before1, after1, input, sifs_enabled, time_step, spikes1),
        spec_day_step(before2, after2, input, sifs_enabled, time_step, spikes2),
    ensures
        same_neurons(after1, after2),
        spikes1 == spikes2,
{
    let n = before1.n();
    assert forall|i: int| 0 <= i < n implies #[trigger] spec_fires(before1, i, spec_input_at(input, i), sifs_enabled)
        == spec_fires(before2, i, spec_input_at(input, i), sifs_enabled) by {}
    assert forall|i: int| 0 <= i < n implies #[trigger] after1.voltage@[i] == after2.voltage@[i] by {
        assert(spec_day_neuron(before1, after1, i, spec_input_at(input, i), sifs_enabled, time_step));
        assert(spec_day_neuron(before2, after2, i, spec_input_at(input, i), sifs_enabled, time_step));
    }
    assert forall|i: int| 0 <= i < n implies #[trigger] after1.spike_count@[i] == after2.spike_count@[i] by {
        assert(spec_day_neuron(before1, after1, i, spec_input_at(input, i), sifs_enabled, time_step));
        assert(spec_day_neuron(before2, after2, i, spec_input_at(input, i), sifs_enabled, time_step));
    }
    assert forall|i: int| 0 <= i < n implies #[trigger] after1.last_spike_time@[i] == after2.last_spike_time@[i] by {
        assert(spec_day_neuron(before1, after1, i, spec_input_at(input, i), sifs_enabled, time_step));
        assert(spec_day_neuron(before2, after2, i, spec_input_at(input, i), sifs_enabled, time_step));
    }
    assert forall|i: int| 0 <= i < n implies #[trigger] after1.refractory_timer@[i] == after2.refractory_timer@[i] by {
        assert(spec_day_neuron(before1, after1, i, spec_input_at(input, i), sifs_enabled, time_step));
        assert(spec_day_neuron(before2, after2, i, spec_input_at(input, i), sifs_enabled, time_step));
    }
    assert(after1.voltage@ =~= after2.voltage@);
    assert(after1.spike_count@ =~= after2.spike_count@);
    assert(after1.last_spike_time@ =~= after2.last_spike_time@);
    assert(after1.refractory_timer@ =~= after2.refractory_timer@);
    assert forall|x: usize| spikes1.contains(x) <==> spikes2.contains(x) by {
        if spikes1.contains(x) {
            let p = choose|p: int| 0 <= p < spikes1.len() && spikes1[p] == x;
            assert(spikes1[p] < n);
            assert(spec_fires(before1, x as int, spec_input_at(input, x as int), sifs_enabled));
        }
        if spikes2.contains(x) {
            let p = choose|p: int| 0 <= p < spikes2.len() && spikes2[p] == x;
            assert(spikes2[p] < n);
            assert(spec_fires(before2, x as int, spec_input_at(input, x as int), sifs_enabled));
        }
    }
    lemma_increasing_unique(spikes1, spikes2);
}

/// Law: the reward reaches the brain only through the night phase. Two ticks from the
/// same state for the same input, when no night is due, end in the same state with the
/// same spikes, whatever kernels each tick was given.
pub proof fn lemma_tick_without_night_ignores_kernels<
    A1: Fn(u16, usize) -> Fixed16,
    L1: Fn(Fixed16) -> [Fixed16; SIFS_LEVELS],
    E1: Fn(usize, Fixed16) -> Fixed16,
    H1: Fn(u16, u16, usize) -> Fixed16,
    A2: Fn(u16, usize) -> Fixed16,
    L2: Fn(Fixed16) -> [Fixed16; SIFS_LEVELS],
    E2: Fn(usize, Fixed16) -> Fixed16,
    H2: Fn(u16, u16, usize) -> Fixed16,
>(
    before1: BrainRunner,
    before2: BrainRunner,
    after1: BrainRunner,
    after2: BrainRunner,
    input: Seq<i32>,
    spikes1: Seq<usize>,
    spikes2: Seq<usize>,
    activity_delta1: A1,
    level_weights1: L1,
    learning_rate1: E1,
    hebbian1: H1,
    activity_delta2: A2,
    level_weights2: L2,
    learning_rate2: E2,
    hebbian2: H2,
)
    requires
        same_state(before1, before2),
        before1.config.night_interval > 0,
        (before1.time_step + 1) % (before1.config.night_interval as int) != 0,
        spec_tick(before1, after1, input, spikes1, activity_delta1, level_weights1, learning_rate1, hebbian1),
        spec_tick(before2, after2, input, spikes2, activity_delta2, level_weights2, learning_rate2, hebbian2),
    ensures
        same_state(after1, after2),
        spikes1 == spikes2,
{
    let mid1 = choose|mid: NeuronArrays|
        #[trigger] spec_day_step(before1.neurons, mid, input, before1.config.sifs_enabled, before1.time_step, spikes1)
            && if after1.time_step as int % before1.config.night_interval as int == 0 {
            crate::phase::spec_night_step(
                mid,
                before1.shards@,
                after1.neurons,
                after1.shards@,
                after1.spike_history@.len() as usize,
                activity_delta1,
                level_weights1,
                learning_rate1,
                hebbian1,
            )
        } else {
            &&& after1.neurons == mid
            &&& after1.shards@ == before1.shards@
        };
    let mid2 = choose|mid: NeuronArrays|
        #[trigger] spec_day_step(before2.neurons, mid, input, before2.config.sifs_enabled, before2.time_step, spikes2)
            && if after2.time_step as int % before2.config.night_interval as int == 0 {
            crate::phase::spec_night_step(
                mid,
                before2.shards@,
                after2.neurons,
                after2.shards@,
                after2.spike_history@.len() as usize,
                activity_delta2,
                level_weights2,
                learning_rate2,
                hebbian2,
            )
        } else {
            &&& after2.neurons == mid
            &&& after2.shards@ == before2.shards@
        };
    lemma_day_step_unique(
        before1.neurons,
        before2.neurons,
        mid1,
        mid2,
        input,
        before1.config.sifs_enabled,
        before1.time_step,
        spikes1,
        spikes2,
    );
    assert(after1.neurons == mid1);
    assert(after2.neurons == mid2);
    assert(after1.spike_history@.map_values(|v: Vec<usize>| v@) == after2.spike_history@.map_values(
        |v: Vec<usize>| v@,
    ));
}

/// Tick `j` after the clock value `time_step` is a night tick: the clock then reaches a
/// multiple of `interval`.
pub open spec fn spec_night_tick(time_step: int, interval: int, j: int) -> bool {
    (time_step + j) % interval == 0
}

proof fn lemma_runs_agree<
    A1: Fn(u16, usize) -> Fixed16,
    L1: Fn(Fixed16) -> [Fixed16; SIFS_LEVELS],
    E1: Fn(usize, Fixed16) -> Fixed16,
    H1: Fn(u16, u16, usize) -> Fixed16,
    A2: Fn(u16, usize) -> Fixed16,
    L2: Fn(Fixed16) -> [Fixed16; SIFS_LEVELS],
    E2: Fn(usize, Fixed16) -> Fixed16,
    H2: Fn(u16, u16, usize) -> Fixed16,
>(
    states1: Seq<BrainRunner>,
    trains1: Seq<Seq<usize>>,
    states2: Seq<BrainRunner>,
    trains2: Seq<Seq<usize>>,
    input: Seq<i32>,
    k1: nat,
    k2: nat,
    j: nat,
    activity_delta1: A1,
    level_weights1: L1,
    learning_rate1: E1,
    hebbian1: H1,
    activity_delta2: A2,
    level_weights2: L2,
    learning_rate2: E2,
    hebbian2: H2,
)
    requires
        j <= k1,
        j <= k2,
        states1.len() == k1 + 1,
        trains1.len() == k1 + 1,
        states2.len() == k2 + 1,
        trains2.len() == k2 + 1,
        trains1[0] == trains2[0],
        same_state(states1[0], states2[0]),
        states1[0].config.night_interval > 0,
        forall|q: int| 0 <= q < k1 ==> #[trigger] spec_run_tick(states1, trains1, q, input, activity_delta1, level_weights1, learning_rate1, hebbian1),
        forall|q: int| 0 <= q < k2 ==> #[trigger] spec_run_tick(states2, trains2, q, input, activity_delta2, level_weights2, learning_rate2, hebbian2),
        forall|q: int|
            1 <= q <= k1 ==> !#[trigger] spec_night_tick(
                states1[0].time_step as int,
                states1[0].config.night_interval as int,
                q,
            ),
    ensures
        same_state(states1[j as int], states2[j as int]),
        trains1[j as int] == trains2[j as int],
        states1[j as int].time_step == states1[0].time_step + j,
        states1[j as int].config == states1[0].config,
    decreases j,
{
    if j > 0 {
        let p = (j - 1) as nat;
        lemma_runs_agree(
            states1, trains1, states2, trains2, input, k1, k2, p,
            activity_delta1, level_weights1, learning_rate1, hebbian1,
            activity_delta2, level_weights2, learning_rate2, hebbian2,
        );
        assert(spec_run_tick(states1, trains1, p as int, input, activity_delta1, level_weights1, learning_rate1, hebbian1));
        assert(spec_run_tick(states2, trains2, p as int, input, activity_delta2, level_weights2, learning_rate2, hebbian2));
        assert(!spec_night_tick(states1[0].time_step as int, states1[0].config.night_interval as int, j as int));
        lemma_tick_without_night_ignores_kernels(
            states1[p as int],
            states2[p as int],
            states1[j as int],
            states2[j as int],
            input,
            trains1[j as int],
            trains2[j as int],
            activity_delta1, level_weights1, learning_rate1, hebbian1,
            activity_delta2, level_weights2, learning_rate2, hebbian2,
        );
    }
}

/// Law: over a whole observation the reward reaches the brain only through the night
/// phase. Two runs of `k` ticks from the same state for the same input, when none of the
/// `k` ticks is a night tick, end in the same state with the same spikes, whatever
/// kernels each run was given.
pub proof fn lemma_ticks_without_night_ignore_kernels<
    A1: Fn(u16, usize) -> Fixed16,
    L1: Fn(Fixed16) -> [Fixed16; SIFS_LEVELS],
    E1: Fn(usize, Fixed16) -> Fixed16,
    H1: Fn(u16, u16, usize) -> Fixed16,
    A2: Fn(u16, usize) -> Fixed16,
    L2: Fn(Fixed16) -> [Fixed16; SIFS_LEVELS],
    E2: Fn(usize, Fixed16) -> Fixed16,
    H2: Fn(u16, u16, usize) -> Fixed16,
>(
    before1: BrainRunner,
    before2: BrainRunner,
    after1: BrainRunner,
    after2: BrainRunner,
    input: Seq<i32>,
    spikes1: Seq<usize>,
    spikes2: Seq<usize>,
    k: nat,
    activity_delta1: A1,
    level_weights1: L1,
    learning_rate1: E1,
    hebbian1: H1,
    activity_delta2: A2,
    level_weights2: L2,
    learning_rate2: E2,
    hebbian2: H2,
)
    requires
        same_state(before1, before2),
        before1.config.night_interval > 0,
        forall|q: int|
            1 <= q <= k ==> !#[trigger] spec_night_tick(
                before1.time_step as int,
                before1.config.night_interval as int,
                q,
            ),
        spec_ticks(before1, after1, input, spikes1, k, activity_delta1, level_weights1, learning_rate1, hebbian1),
        spec_ticks(before2, after2, input, spikes2, k, activity_delta2, level_weights2, learning_rate2, hebbian2),
    ensures
        same_state(after1, after2),
        spikes1 == spikes2,
{
    let (states1, trains1) = choose|states: Seq<BrainRunner>, trains: Seq<Seq<usize>>|
        #[trigger] spec_run(states, trains, before1, after1, input, spikes1, k, activity_delta1, level_weights1, learning_rate1, hebbian1);
    let (states2, trains2) = choose|states: Seq<BrainRunner>, trains: Seq<Seq<usize>>|
        #[trigger] spec_run(states, trains, before2, after2, input, spikes2, k, activity_delta2, level_weights2, learning_rate2, hebbian2);
    lemma_runs_agree(
        states1, trains1, states2, trains2, input, k, k, k,
        activity_delta1, level_weights1, learning_rate1, hebbian1,
        activity_delta2, level_weights2, learning_rate2, hebbian2,
    );
}

/// Two day steps whose neurons start in the same state and reach the same new voltages
/// end in the same state with the same spikes.
proof fn lemma_day_steps_agree(
    before1: NeuronArrays,
    before2: NeuronArrays,
    after1: NeuronArrays,
    after2: NeuronArrays,
    input1: Seq<i32>,
    input2: Seq<i32>,
    sifs1: bool,
    sifs2: bool,
    time_step: u32,
    spikes1: Seq<usize>,
    spikes2: Seq<usize>,
)
    requires
        same_neurons(before1, before2),
        spec_day_step(before1, after1, input1, sifs1, time_step, spikes1),
        spec_day_step(before2, after2, input2, sifs2, time_step, spikes2),
        forall|i: int|
            0 <= i < before1.n() ==> #[trigger] spec_next_voltage(before1, i, spec_input_at(input1, i), sifs1)
                == spec_next_voltage(before2, i, spec_input_at(input2, i), sifs2),
    ensures
        same_neurons(after1, after2),
        spikes1 == spikes2,
{
    let n = before1.n();
    assert forall|i: int| 0 <= i < n implies #[trigger] spec_fires(before1, i, spec_input_at(input1, i), sifs1)
        == spec_fires(before2, i, spec_input_at(input2, i), sifs2) by {
        assert(spec_next_voltage(before1, i, spec_input_at(input1, i), sifs1)
            == spec_next_voltage(before2, i, spec_input_at(input2, i), sifs2));
    }
    assert forall|i: int| 0 <= i < n implies {
        &&& #[trigger] after1.voltage@[i] == after2.voltage@[i]
        &&& after1.spike_count@[i] == after2.spike_count@[i]
        &&& after1.last_spike_time@[i] == after2.last_spike_time@[i]
        &&& after1.refractory_timer@[i] == after2.refractory_timer@[i]
    } by {
        assert(spec_day_neuron(before1, after1, i, spec_input_at(input1, i), sifs1, time_step));
        assert(spec_day_neuron(before2, after2, i, spec_input_at(input2, i), sifs2, time_step));
        assert(spec_fires(before1, i, spec_input_at(input1, i), sifs1)
            == spec_fires(before2, i, spec_input_at(input2, i), sifs2));
        assert(spec_next_voltage(before1, i, spec_input_at(input1, i), sifs1)
            == spec_next_voltage(before2, i, spec_input_at(input2, i), sifs2));
    }
    assert forall|i: int| 0 <= i < n implies #[trigger] after1.spike_count@[i] == after2.spike_count@[i] by {
        assert(after1.voltage@[i] == after2.voltage@[i]);
    }
    assert forall|i: int| 0 <= i < n implies #[trigger] after1.last_spike_time@[i] == after2.last_spike_time@[i] by {
        assert(after1.voltage@[i] == after2.voltage@[i]);
    }
    assert forall|i: int| 0 <= i < n implies #[trigger] after1.refractory_timer@[i] == after2.refractory_timer@[i] by {
        assert(after1.voltage@[i] == after2.voltage@[i]);
    }
    assert(after1.voltage@ =~= after2.voltage@);
    assert(after1.spike_count@ =~= after2.spike_count@);
    assert(after1.last_spike_time@ =~= after2.last_spike_time@);
    assert(after1.refractory_timer@ =~= after2.refractory_timer@);
    assert forall|x: usize| spikes1.contains(x) <==> spikes2.contains(x) by {
        if spikes1.contains(x) {
            let p = choose|p: int| 0 <= p < spikes1.len() && spikes1[p] == x;
            assert(spikes1[p] < n);
            assert(spec_fires(before1, x as int, spec_input_at(input1, x as int), sifs1));
            assert(spec_fires(before2, x as int, spec_input_at(input2, x as int), sifs2));
        }
        if spikes2.contains(x) {
            let p = choose|p: int| 0 <= p < spikes2.len() && spikes2[p] == x;
            assert(spikes2[p] < n);
            assert(spec_fires(before2, x as int, spec_input_at(input2, x as int), sifs2));
            assert(spec_fires(before1, x as int, spec_input_at(input1, x as int), sifs1));
        }
    }
    lemma_increasing_unique(spikes1, spikes2);
}

/// Law: the core day step is the six-kernel pipeline with no ghost spikes: from the same
/// neuron state, for the same external input and clock, both end in the same state with
/// the same spikes.
pub proof fn lemma_core_day_step_is_pipeline(
    before1: NeuronArrays,
    before2: NeuronArrays,
    after1: NeuronArrays,
    after2: NeuronArrays,
    external: Seq<i32>,
    time_step: u32,
    spikes1: Seq<usize>,
    spikes2: Seq<usize>,
)
    requires
        same_neurons(before1, before2),
        spec_day_step(before1, after1, external, true, time_step, spikes1),
        spec_day_step(
            before2,
            after2,
            spec_effective_input(external, Seq::<usize>::empty(), before2.n(), 0),
            true,
            time_step,
            spikes2,
        ),
    ensures
        same_neurons(after1, after2),
        spikes1 == spikes2,
{
    let eff = spec_effective_input(external, Seq::<usize>::empty(), before2.n(), 0);
    assert forall|i: int| 0 <= i < before1.n() implies #[trigger] spec_next_voltage(
        before1,
        i,
        spec_input_at(external, i),
        true,
    ) == spec_next_voltage(before2, i, spec_input_at(eff, i), true) by {
        assert(spec_input_at(eff, i) == spec_input_at(external, i));
    }
    lemma_day_steps_agree(before1, before2, after1, after2, external, eff, true, true, time_step, spikes1, spikes2);
}

/// Law: with the SIFS current off the input does not reach the neurons: from the same
/// neuron state, day steps for any two inputs end in the same state with the same spikes,
/// and no non-negative voltage rises.
pub proof fn lemma_sifs_off_ignores_input(
    before1: NeuronArrays,
    before2: NeuronArrays,
    after1: NeuronArrays,
    after2: NeuronArrays,
    input1: Seq<i32>,
    input2: Seq<i32>,
    time_step: u32,
    spikes1: Seq<usize>,
    spikes2: Seq<usize>,
)
    requires
        same_neurons(before1, before2),
        spec_day_step(before1, after1, input1, false, time_step, spikes1),
        spec_day_step(before2, after2, input2, false, time_step, spikes2),
    ensures
        same_neurons(after1, after2),
        spikes1 == spikes2,
        forall|i: int|
            0 <= i < before1.n() && before1.voltage@[i] >= 0 ==> #[trigger] after1.voltage@[i] <= before1.voltage@[i],
{
    assert forall|i: int| 0 <= i < before1.n() implies #[trigger] spec_next_voltage(
        before1,
        i,
        spec_input_at(input1, i),
        false,
    ) == spec_next_voltage(before2, i, spec_input_at(input2, i), false) by {
        assert(before1.voltage@[i] == before2.voltage@[i]);
        assert(before1.refractory_timer@[i] == before2.refractory_timer@[i]);
    }
    lemma_day_steps_agree(before1, before2, after1, after2, input1, input2, false, false, time_step, spikes1, spikes2);
    assert forall|i: int| 0 <= i < before1.n() && before1.voltage@[i] >= 0 implies #[trigger] after1.voltage@[i]
        <= before1.voltage@[i] by {
        let v = before1.voltage@[i] as int;
        assert(spec_day_neuron(before1, after1, i, spec_input_at(input1, i), false, time_step));
        assert(trunc_div(v, 2) <= v) by {
            vstd::arithmetic::div_mod::lemma_div_is_ordered_by_denominator(v, 1, 2);
        }
        assert((v * 62259) / 65536 <= v) by (nonlinear_arith)
            requires
                v >= 0,
        ;
        assert((0int * 65) / 65536 == 0);
    }
}

/// The effective input of a neuron is never below its external input: ghost spikes only
/// add current (saturating).
proof fn lemma_effective_input_at_least(external: Seq<i32>, ghosts: Seq<usize>, n: nat, m: nat)
    requires
        m <= ghosts.len(),
    ensures
        spec_effective_input(external, ghosts, n, m).len() == n,
        forall|i: int| 0 <= i < n ==> #[trigger] spec_effective_input(external, ghosts, n, m)[i] >= spec_input_at(external, i),
    decreases m,
{
    if m > 0 {
        lemma_effective_input_at_least(external, ghosts, n, (m - 1) as nat);
    }
}

/// Law: ghost spikes only add input current. From the same neuron state with non-negative
/// level weights, the six-kernel pipeline with any ghost spikes fires every neuron that
/// fires without them, and a neuron that fires in neither run ends with a voltage at least
/// as high as without them.
pub proof fn lemma_ghost_spikes_only_add(
    before: NeuronArrays,
    after1: NeuronArrays,
    after2: NeuronArrays,
    external: Seq<i32>,
    ghosts: Seq<usize>,
    time_step: u32,
    spikes1: Seq<usize>,
    spikes2: Seq<usize>,
)
    requires
        forall|i: int, l: int|
            0 <= i < before.n() && 0 <= l < SIFS_LEVELS ==> #[trigger] before.sifs_weights@[i]@[l] >= 0,
        spec_day_step(
            before,
            after1,
            spec_effective_input(external, Seq::<usize>::empty(), before.n(), 0),
            true,
            time_step,
            spikes1,
        ),
        spec_day_step(
            before,
            after2,
            spec_effective_input(external, ghosts, before.n(), ghosts.len()),
            true,
            time_step,
            spikes2,
        ),
    ensures
        forall|x: usize| #[trigger] spikes1.contains(x) ==> spikes2.contains(x),
        forall|i: int|
            0 <= i < before.n() && !spikes1.contains(i as usize) && !spikes2.contains(i as usize)
                ==> #[trigger] after1.voltage@[i] <= after2.voltage@[i],
{
    let n = before.n();
    let in1 = spec_effective_input(external, Seq::<usize>::empty(), n, 0);
    let in2 = spec_effective_input(external, ghosts, n, ghosts.len());
    lemma_effective_input_at_least(external, ghosts, n, ghosts.len());
    assert forall|i: int| 0 <= i < n implies #[trigger] spec_next_voltage(before, i, spec_input_at(in1, i), true)
        <= spec_next_voltage(before, i, spec_input_at(in2, i), true) && (spec_fires(
        before,
        i,
        spec_input_at(in1, i),
        true,
    ) ==> spec_fires(before, i, spec_input_at(in2, i), true)) by {
        assert(spec_input_at(in1, i) == spec_input_at(external, i));
        assert(in2[i] >= spec_input_at(external, i));
        let v = before.voltage@[i] as int;
        let w = before.sifs_weights@[i]@;
        let th = before.sifs_thresholds@[i]@;
        assert forall|l: int| 0 <= l < SIFS_LEVELS implies #[trigger] w[l] >= 0 by {
            assert(before.sifs_weights@[i]@[l] >= 0);
        }
        lemma_sifs_current_monotone(spec_input_at(in1, i) + v, spec_input_at(in2, i) + v, w, th);
        let c1 = spec_sifs_current(spec_input_at(in1, i) + v, w, th) as int;
        let c2 = spec_sifs_current(spec_input_at(in2, i) + v, w, th) as int;
        lemma_div_is_ordered(65 * c1, 65 * c2, 65536);
    }
    assert forall|x: usize| #[trigger] spikes1.contains(x) implies spikes2.contains(x) by {
        let p = choose|p: int| 0 <= p < spikes1.len() && spikes1[p] == x;
        assert(spikes1[p] < n);
        assert(spec_fires(before, x as int, spec_input_at(in1, x as int), true));
        assert(spec_next_voltage(before, x as int, spec_input_at(in1, x as int), true)
            <= spec_next_voltage(before, x as int, spec_input_at(in2, x as int), true));
    }
    assert forall|i: int|
        0 <= i < n && !spikes1.contains(i as usize) && !spikes2.contains(i as usize)
            implies #[trigger] after1.voltage@[i] <= after2.voltage@[i] by {
        assert(spec_day_neuron(before, after1, i, spec_input_at(in1, i), true, time_step));
        assert(spec_day_neuron(before, after2, i, spec_input_at(in2, i), true, time_step));
        assert(spec_next_voltage(before, i, spec_input_at(in1, i), true)
            <= spec_next_voltage(before, i, spec_input_at(in2, i), true));
    }
}

/// A neuron is a ghost target of two spike lists one after the other exactly when it is
/// one of either list.
proof fn lemma_ghost_target_of_concat(
    neurons: NeuronArrays,
    shards: Seq<SifsShard>,
    a: Seq<usize>,
    b: Seq<usize>,
    x: usize,
)
    ensures
        spec_ghost_target_of_any(neurons, shards, a + b, (a + b).len() as int, x) <==> (spec_ghost_target_of_any(
            neurons,
            shards,
            a,
            a.len() as int,
            x,
        ) || spec_ghost_target_of_any(neurons, shards, b, b.len() as int, x)),
{
    let ab = a + b;
    if spec_ghost_target_of_any(neurons, shards, ab, ab.len() as int, x) {
        let q = choose|q: int| 0 <= q < ab.len() && #[trigger] spec_ghost_target(neurons, shards, ab[q] as int, x);
        if q < a.len() {
            assert(ab[q] == a[q]);
            assert(spec_ghost_target(neurons, shards, a[q] as int, x));
        } else {
            assert(ab[q] == b[q - a.len()]);
            assert(spec_ghost_target(neurons, shards, b[q - a.len()] as int, x));
        }
    }
    if spec_ghost_target_of_any(neurons, shards, a, a.len() as int, x) {
        let q = choose|q: int| 0 <= q < a.len() && #[trigger] spec_ghost_target(neurons, shards, a[q] as int, x);
        assert(ab[q] == a[q]);
        assert(spec_ghost_target(neurons, shards, ab[q] as int, x));
    }
    if spec_ghost_target_of_any(neurons, shards, b, b.len() as int, x) {
        let q = choose|q: int| 0 <= q < b.len() && #[trigger] spec_ghost_target(neurons, shards, b[q] as int, x);
        assert(ab[a.len() + q] == b[q]);
        assert(spec_ghost_target(neurons, shards, ab[a.len() + q] as int, x));
    }
}

/// Law: the ghost targets of two spike lists one after the other are the union of the
/// ghost targets of each; being strictly increasing, the list is the sorted union without
/// repeats.
pub proof fn lemma_ghost_targets_union(
    neurons: NeuronArrays,
    shards: Seq<SifsShard>,
    a: Seq<usize>,
    b: Seq<usize>,
    targets_a: Seq<usize>,
    targets_b: Seq<usize>,
    targets_ab: Seq<usize>,
)
    requires
        spec_ghost_targets(neurons, shards, a, targets_a),
        spec_ghost_targets(neurons, shards, b, targets_b),
        spec_ghost_targets(neurons, shards, a + b, targets_ab),
    ensures
        forall|x: usize| #[trigger] targets_ab.contains(x) <==> (targets_a.contains(x) || targets_b.contains(x)),
{
    assert forall|x: usize| #[trigger] targets_ab.contains(x) <==> (targets_a.contains(x) || targets_b.contains(x)) by {
        lemma_ghost_target_of_concat(neurons, shards, a, b, x);
    }
}

/// Law: the ghost targets depend only on which neurons spiked: two spike lists with the
/// same elements (in any order, with any repeats) have the same ghost-target list, and an
/// empty spike list has none.
pub proof fn lemma_ghost_targets_by_spike_set(
    neurons: NeuronArrays,
    shards: Seq<SifsShard>,
    spikes1: Seq<usize>,
    spikes2: Seq<usize>,
    targets1: Seq<usize>,
    targets2: Seq<usize>,
)
    requires
        forall|y: usize| #[trigger] spikes1.contains(y) <==> spikes2.contains(y),
        spec_ghost_targets(neurons, shards, spikes1, targets1),
        spec_ghost_targets(neurons, shards, spikes2, targets2),
    ensures
        targets1 == targets2,
        spikes1.len() == 0 ==> targets1.len() == 0,
{
    assert forall|x: usize| #[trigger] targets1.contains(x) <==> targets2.contains(x) by {
        if spec_ghost_target_of_any(neurons, shards, spikes1, spikes1.len() as int, x) {
            let q = choose|q: int| 0 <= q < spikes1.len() && #[trigger] spec_ghost_target(neurons, shards, spikes1[q] as int, x);
            assert(spikes1.contains(spikes1[q]));
            assert(spikes2.contains(spikes1[q]));
            let r = choose|r: int| 0 <= r < spikes2.len() && spikes2[r] == spikes1[q];
            assert(spec_ghost_target(neurons, shards, spikes2[r] as int, x));
        }
        if spec_ghost_target_of_any(neurons, shards, spikes2, spikes2.len() as int, x) {
            let q = choose|q: int| 0 <= q < spikes2.len() && #[trigger] spec_ghost_target(neurons, shards, spikes2[q] as int, x);
            assert(spikes2.contains(spikes2[q]));
            assert(spikes1.contains(spikes2[q]));
            let r = choose|r: int| 0 <= r < spikes1.len() && spikes1[r] == spikes2[q];
            assert(spec_ghost_target(neurons, shards, spikes1[r] as int, x));
        }
    }
    lemma_increasing_unique(targets1, targets2);
    if spikes1.len() == 0 && targets1.len() > 0 {
        assert(targets1.contains(targets1[0]));
    }
}

/// Law: the input of a core step is what the six-kernel pipeline gets from the previous
/// step's ghost targets: with no history the external input alone (no ghost spikes),
/// otherwise the external input plus the ghost current for every ghost target of the last
/// spike list.
pub proof fn lemma_step_input_is_pipeline_input(
    neurons: NeuronArrays,
    shards: Seq<SifsShard>,
    history: Seq<Vec<usize>>,
    external: Seq<i32>,
    ghosts: Seq<usize>,
)
    requires
        neurons.n() <= usize::MAX,
        history.len() == 0 ==> ghosts.len() == 0,
        history.len() > 0 ==> spec_ghost_targets(neurons, shards, history.last()@, ghosts),
    ensures
        spec_ghost_input(neurons, shards, history, external) == spec_effective_input(
            external,
            ghosts,
            neurons.n(),
            ghosts.len(),
        ),
{
    let n = neurons.n();
    lemma_effective_input_unique(external, ghosts, n, ghosts.len());
    assert(ghosts.take(ghosts.len() as int) == ghosts);
    let eff = spec_effective_input(external, ghosts, n, ghosts.len());
    let target = spec_ghost_input(neurons, shards, history, external);
    assert forall|i: int| 0 <= i < n implies #[trigger] eff[i] == target[i] by {
        if history.len() == 0 {
            assert(!ghosts.contains(i as usize));
        }
    }
    assert(eff =~= target);
}

/// Law: a core step runs the six-kernel pipeline on the previous step's ghost targets.
/// The day step of `run_step` (on `spec_ghost_input`) and the pipeline on the external
/// input with those ghost spikes, from the same state and clock, end in the same neuron
/// state with the same spikes. (`run_step` then runs the night phase exactly when its new
/// clock is a multiple of the night interval.)
pub proof fn lemma_run_step_is_pipeline(
    neurons: NeuronArrays,
    shards: Seq<SifsShard>,
    history: Seq<Vec<usize>>,
    external: Seq<i32>,
    ghosts: Seq<usize>,
    time_step: u32,
    after1: NeuronArrays,
    after2: NeuronArrays,
    spikes1: Seq<usize>,
    spikes2: Seq<usize>,
)
    requires
        neurons.n() <= usize::MAX,
        history.len() == 0 ==> ghosts.len() == 0,
        history.len() > 0 ==> spec_ghost_targets(neurons, shards, history.last()@, ghosts),
        spec_day_step(
            neurons,
            after1,
            spec_ghost_input(neurons, shards, history, external),
            true,
            time_step,
            spikes1,
        ),
        spec_day_step(
            neurons,
            after2,
            spec_effective_input(external, ghosts, neurons.n(), ghosts.len()),
            true,
            time_step,
            spikes2,
        ),
    ensures
        same_neurons(after1, after2),
        spikes1 == spikes2,
{
    lemma_step_input_is_pipeline_input(neurons, shards, history, external, ghosts);
    lemma_day_step_unique(neurons, neurons, after1, after2, spec_ghost_input(neurons, shards, history, external), true, time_step, spikes1, spikes2);
}

/// Along a run of ticks the clock advances by one per tick, the configuration stays, the
/// spike history grows by one entry per tick up to the night interval, and its newest
/// entry holds the spikes of the last tick.
proof fn lemma_run_schedule<
    A: Fn(u16, usize) -> Fixed16,
    L: Fn(Fixed16) -> [Fixed16; SIFS_LEVELS],
    E: Fn(usize, Fixed16) -> Fixed16,
    H: Fn(u16, u16, usize) -> Fixed16,
>(
    states: Seq<BrainRunner>,
    trains: Seq<Seq<usize>>,
    input: Seq<i32>,
    k: nat,
    j: nat,
    activity_delta: A,
    level_weights: L,
    learning_rate: E,
    hebbian: H,
)
    requires
        j <= k,
        states.len() == k + 1,
        trains.len() == k + 1,
        states[0].spike_history@.len() <= states[0].config.night_interval,
        forall|q: int| 0 <= q < k ==> #[trigger] spec_run_tick(states, trains, q, input, activity_delta, level_weights, learning_rate, hebbian),
    ensures
        states[j as int].time_step == states[0].time_step + j,
        states[j as int].config == states[0].config,
        states[j as int].spike_history@.len() == if states[0].spike_history@.len() + j <= states[0].config.night_interval {
            (states[0].spike_history@.len() + j) as int
        } else {
            states[0].config.night_interval as int
        },
        j > 0 ==> states[j as int].spike_history@.last()@ == trains[j as int],
    decreases j,
{
    if j > 0 {
        let p = (j - 1) as nat;
        lemma_run_schedule(states, trains, input, k, p, activity_delta, level_weights, learning_rate, hebbian);
        assert(spec_run_tick(states, trains, p as int, input, activity_delta, level_weights, learning_rate, hebbian));
        let prev = states[p as int];
        let next = states[j as int];
        let mapped = next.spike_history@.map_values(|v: Vec<usize>| v@);
        let expected = spec_history_after(prev.spike_history@, trains[j as int], prev.config.night_interval as int);
        assert(mapped == expected);
        assert(mapped.len() == next.spike_history@.len());
        assert(expected.len() > 0);
        assert(mapped[mapped.len() - 1] == next.spike_history@[next.spike_history@.len() - 1]@);
        assert(expected[expected.len() - 1] == trains[j as int]);
    }
}

/// Law: the schedule of one observation. After a run of `k` ticks from a brain whose
/// history holds at most `night_interval` entries, the clock has moved by `k`, the
/// configuration is unchanged, the history holds `min(old length + k, night_interval)`
/// entries, the newest of them the spikes of the last tick, and the run passes through
/// states whose clocks are the old clock plus 0, 1, ..., k; since each tick runs the night
/// phase exactly when its new clock is a multiple of the interval, the nights of the
/// observation are exactly its ticks `j` with `(old clock + j) % night_interval == 0`.
pub proof fn lemma_observation_schedule<
    A: Fn(u16, usize) -> Fixed16,
    L: Fn(Fixed16) -> [Fixed16; SIFS_LEVELS],
    E: Fn(usize, Fixed16) -> Fixed16,
    H: Fn(u16, u16, usize) -> Fixed16,
>(
    before: BrainRunner,
    after: BrainRunner,
    input: Seq<i32>,
    spikes: Seq<usize>,
    k: nat,
    activity_delta: A,
    level_weights: L,
    learning_rate: E,
    hebbian: H,
)
    requires
        before.spike_history@.len() <= before.config.night_interval,
        spec_ticks(before, after, input, spikes, k, activity_delta, level_weights, learning_rate, hebbian),
    ensures
        after.time_step == before.time_step + k,
        after.config == before.config,
        after.spike_history@.len() == if before.spike_history@.len() + k <= before.config.night_interval {
            (before.spike_history@.len() + k) as int
        } else {
            before.config.night_interval as int
        },
        k > 0 ==> after.spike_history@.last()@ == spikes,
        exists|states: Seq<BrainRunner>, trains: Seq<Seq<usize>>|
            {
                &&& #[trigger] spec_run(states, trains, before, after, input, spikes, k, activity_delta, level_weights, learning_rate, hebbian)
                &&& forall|j: int| 0 <= j <= k ==> #[trigger] states[j].time_step == before.time_step + j
            },
{
    let (states, trains) = choose|states: Seq<BrainRunner>, trains: Seq<Seq<usize>>|
        #[trigger] spec_run(states, trains, before, after, input, spikes, k, activity_delta, level_weights, learning_rate, hebbian);
    lemma_run_schedule(states, trains, input, k, k, activity_delta, level_weights, learning_rate, hebbian);
    assert forall|j: int| 0 <= j <= k implies #[trigger] states[j].time_step == before.time_step + j by {
        lemma_run_schedule(states, trains, input, k, j as nat, activity_delta, level_weights, learning_rate, hebbian);
    }
}

/// Two brains in the same state either both may run a tick that is no night tick or both
/// may not, whatever activity kernel each is given.
proof fn lemma_tick_ok_same_state<A1: Fn(u16, usize) -> Fixed16, A2: Fn(u16, usize) -> Fixed16>(
    r1: BrainRunner,
    r2: BrainRunner,
    input: Seq<i32>,
    activity_delta1: A1,
    activity_delta2: A2,
)
    requires
        same_state(r1, r2),
        r1.config.night_interval > 0 ==> !spec_night_tick(r1.time_step as int, r1.config.night_interval as int, 1),
    ensures
        crate::runner::tick_ok(r1, input, activity_delta1) == crate::runner::tick_ok(r2, input, activity_delta2),
{
    let n1 = r1.neurons;
    let n2 = r2.neurons;
    let sifs = r1.config.sifs_enabled;
    assert(r1.spike_history@.len() == r1.spike_history@.map_values(|v: Vec<usize>| v@).len());
    assert(r2.spike_history@.len() == r2.spike_history@.map_values(|v: Vec<usize>| v@).len());
    assert forall|i: int| 0 <= i < n1.n() implies (#[trigger] crate::phase::voltage_update_ok(
        n1,
        i,
        spec_input_at(input, i),
        sifs,
    ) == crate::phase::voltage_update_ok(n2, i, spec_input_at(input, i), sifs)) && spec_fires(
        n1,
        i,
        spec_input_at(input, i),
        sifs,
    ) == spec_fires(n2, i, spec_input_at(input, i), sifs) by {}
    assert(crate::phase::day_phase_ok(n1, input, sifs) == crate::phase::day_phase_ok(n2, input, sifs)) by {
        if crate::phase::day_phase_ok(n1, input, sifs) {
            assert forall|i: int| 0 <= i < n2.n() implies {
                &&& crate::phase::voltage_update_ok(n2, i, spec_input_at(input, i), sifs)
                &&& spec_fires(n2, i, spec_input_at(input, i), sifs) ==> n2.spike_count@[i] < u16::MAX
            } by {
                assert(crate::phase::voltage_update_ok(n1, i, spec_input_at(input, i), sifs));
            }
        }
        if crate::phase::day_phase_ok(n2, input, sifs) {
            assert forall|i: int| 0 <= i < n1.n() implies {
                &&& crate::phase::voltage_update_ok(n1, i, spec_input_at(input, i), sifs)
                &&& spec_fires(n1, i, spec_input_at(input, i), sifs) ==> n1.spike_count@[i] < u16::MAX
            } by {
                assert(crate::phase::voltage_update_ok(n2, i, spec_input_at(input, i), sifs));
            }
        }
    }
}

/// Law: over one observation, as the library runs it (`observe`), the reward reaches the
/// brain only through the night phase. Two observations from the same state for the same
/// input, when none of their `max(1, steps_per_observation)` ticks is a night tick, stop
/// or finish alike: the same result (the same spikes, or both stopped) and the same final
/// state, whatever kernels each was given.
pub proof fn lemma_observation_without_night_ignores_kernels<
    A1: Fn(u16, usize) -> Fixed16,
    L1: Fn(Fixed16) -> [Fixed16; SIFS_LEVELS],
    E1: Fn(usize, Fixed16) -> Fixed16,
    H1: Fn(u16, u16, usize) -> Fixed16,
    A2: Fn(u16, usize) -> Fixed16,
    L2: Fn(Fixed16) -> [Fixed16; SIFS_LEVELS],
    E2: Fn(usize, Fixed16) -> Fixed16,
    H2: Fn(u16, u16, usize) -> Fixed16,
>(
    before1: BrainRunner,
    before2: BrainRunner,
    after1: BrainRunner,
    after2: BrainRunner,
    input: Seq<i32>,
    result1: Option<Seq<usize>>,
    result2: Option<Seq<usize>>,
    activity_delta1: A1,
    level_weights1: L1,
    learning_rate1: E1,
    hebbian1: H1,
    activity_delta2: A2,
    level_weights2: L2,
    learning_rate2: E2,
    hebbian2: H2,
)
    requires
        same_state(before1, before2),
        before1.config.night_interval > 0,
        forall|q: int|
            1 <= q <= spec_ticks_per_observation(before1.config) ==> !#[trigger] spec_night_tick(
                before1.time_step as int,
                before1.config.night_interval as int,
                q,
            ),
        spec_observed(before1, after1, input, result1, activity_delta1, level_weights1, learning_rate1, hebbian1),
        spec_observed(before2, after2, input, result2, activity_delta2, level_weights2, learning_rate2, hebbian2),
    ensures
        same_state(after1, after2),
        result1 == result2,
{
    let big_k = spec_ticks_per_observation(before1.config);
    let (k1, spikes1): (nat, Seq<usize>) = match result1 {
        Some(sp) => (big_k, sp),
        None => choose|k: nat, spikes: Seq<usize>|
            {
                &&& k < big_k
                &&& #[trigger] spec_ticks(before1, after1, input, spikes, k, activity_delta1, level_weights1, learning_rate1, hebbian1)
                &&& !crate::runner::tick_ok(after1, input, activity_delta1)
            },
    };
    let (k2, spikes2): (nat, Seq<usize>) = match result2 {
        Some(sp) => (big_k, sp),
        None => choose|k: nat, spikes: Seq<usize>|
            {
                &&& k < big_k
                &&& #[trigger] spec_ticks(before2, after2, input, spikes, k, activity_delta2, level_weights2, learning_rate2, hebbian2)
                &&& !crate::runner::tick_ok(after2, input, activity_delta2)
            },
    };
    assert(spec_ticks(before1, after1, input, spikes1, k1, activity_delta1, level_weights1, learning_rate1, hebbian1));
    assert(spec_ticks(before2, after2, input, spikes2, k2, activity_delta2, level_weights2, learning_rate2, hebbian2));
    let (states1, trains1) = choose|states: Seq<BrainRunner>, trains: Seq<Seq<usize>>|
        #[trigger] spec_run(states, trains, before1, after1, input, spikes1, k1, activity_delta1, level_weights1, learning_rate1, hebbian1);
    let (states2, trains2) = choose|states: Seq<BrainRunner>, trains: Seq<Seq<usize>>|
        #[trigger] spec_run(states, trains, before2, after2, input, spikes2, k2, activity_delta2, level_weights2, learning_rate2, hebbian2);
    if k1 < k2 {
        lemma_runs_agree(
            states1, trains1, states2, trains2, input, k1, k2, k1,
            activity_delta1, level_weights1, learning_rate1, hebbian1,
            activity_delta2, level_weights2, learning_rate2, hebbian2,
        );
        assert(spec_run_tick(states2, trains2, k1 as int, input, activity_delta2, level_weights2, learning_rate2, hebbian2));
        assert(!spec_night_tick(before1.time_step as int, before1.config.night_interval as int, (k1 + 1) as int));
        lemma_tick_ok_same_state(after1, states2[k1 as int], input, activity_delta1, activity_delta2);
        assert(false);
    } else if k2 < k1 {
        lemma_runs_agree(
            states1, trains1, states2, trains2, input, k1, k2, k2,
            activity_delta1, level_weights1, learning_rate1, hebbian1,
            activity_delta2, level_weights2, learning_rate2, hebbian2,
        );
        assert(spec_run_tick(states1, trains1, k2 as int, input, activity_delta1, level_weights1, learning_rate1, hebbian1));
        assert(!spec_night_tick(before1.time_step as int, before1.config.night_interval as int, (k2 + 1) as int));
        lemma_tick_ok_same_state(states1[k2 as int], after2, input, activity_delta1, activity_delta2);
        assert(false);
    } else {
        lemma_runs_agree(
            states1, trains1, states2, trains2, input, k1, k2, k1,
            activity_delta1, level_weights1, learning_rate1, hebbian1,
            activity_delta2, level_weights2, learning_rate2, hebbian2,
        );
    }
}

} // verus!
