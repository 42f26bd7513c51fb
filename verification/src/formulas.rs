//! Laws that tie the core operations to closed formulas of their inputs: the SIFS
//! current, the inertial weight update, the synapse update of the night phase, the
//! ghost-axon targets and the recurrent pool sums. Each law is stated with its own
//! arithmetic, not through the spec functions that the operations' contracts use.

use vstd::prelude::*;

use crate::constants::SIFS_LEVELS;
use crate::fixed::{spec_s_level, Fixed16, INERTIA_CURVE};
use crate::genesis_core::{spec_ghost_target, spec_ghost_target_of_any, strictly_increasing, SifsShard};
use crate::neuron::{spec_sifs_current, spec_sifs_sum, NeuronArrays};
use crate::phase::{spec_inertial_update, spec_night_neuron, spec_synapse_after};

verus! {

/// The SIFS current written out: the sum over the first `k` levels of
/// `(W(n) * step(V - V_th(n))) / 65536`, where `step(d)` is 0 for `d < -2.0`, 1.0 for
/// `d > 2.0`, and `0.5 + d / 4` (rounded toward zero) in between.
pub open spec fn spec_current_by_levels(v: int, w: Seq<i32>, th: Seq<i32>, k: nat) -> int
    decreases k,
{
    if k == 0 {
        0
    } else {
        let d = v - th[k - 1];
        let step = if d < -131072 {
            0
        } else if d > 131072 {
            65536
        } else {
            32768 + if d >= 0 { d / 4 } else { -((-d) / 4) }
        };
        spec_current_by_levels(v, w, th, (k - 1) as nat) + (w[k - 1] * step) / 65536
    }
}

proof fn lemma_sifs_sum_by_levels(v: int, w: Seq<i32>, th: Seq<i32>, k: nat)
    ensures
        spec_sifs_sum(v, w, th, k) == spec_current_by_levels(v, w, th, k),
    decreases k,
{
    if k > 0 {
        lemma_sifs_sum_by_levels(v, w, th, (k - 1) as nat);
    }
}

/// Law: the SIFS current `current` of an input voltage `v` (what `calculate_sifs_current`
/// returns) is the level sum of `spec_current_by_levels` over the ten levels, capped at
/// `i32::MAX`, converted to `i32` and floored at zero. In particular a level whose
/// difference `V - V_th(n)` lies in `[-2.0, 2.0]` contributes with the smoothed step
/// `0.5 + (V - V_th(n)) / 4`, and only a difference beyond `2.0` contributes the full
/// level weight.
pub proof fn lemma_sifs_current_formula(v: int, w: Seq<i32>, th: Seq<i32>, current: i32)
    requires
        current == spec_sifs_current(v, w, th),
    ensures
        current == ({
            let s = spec_current_by_levels(v, w, th, SIFS_LEVELS as nat);
            let capped = if s > i32::MAX as int { i32::MAX as int } else { s };
            let t = capped as i32;
            if t < 0 { 0i32 } else { t }
        }),
{
    lemma_sifs_sum_by_levels(v, w, th, SIFS_LEVELS as nat);
}

/// Law: the inertial weight update, for a weight `w` whose magnitude lies in the band
/// `[r * 8192, (r + 1) * 8192)` (or at or above `15 * 8192` for `r = 15`): the change
/// `(eta * hebbian) / 65536` is scaled by the inertia `INERTIA_CURVE[r]`, added to `w`, and
/// the result clamped to `[0, 2.0]`. A weight of 1.0 is in band 8 (inertia 0.52).
pub proof fn lemma_inertial_update_by_band(w: int, hebbian: int, eta: int, result: int, r: int)
    requires
        result == spec_inertial_update(w, hebbian, eta),
        0 <= r < 16,
        r * 8192 <= (if w < 0 { -w } else { w }),
        r == 15 || (if w < 0 { -w } else { w }) < (r + 1) * 8192,
    ensures
        result == ({
            let x = w + (((eta * hebbian) / 65536) * INERTIA_CURVE[r]) / 65536;
            if x < 0 { 0 } else if x > 131072 { 131072 } else { x }
        }),
{
    let a = if w < 0 { -w } else { w };
    if r < 15 {
        assert(a / 8192 == r) by (nonlinear_arith)
            requires
                r * 8192 <= a,
                a < (r + 1) * 8192,
        ;
    } else {
        assert(a / 8192 >= 15) by (nonlinear_arith)
            requires
                15 * 8192 <= a,
        ;
    }
}

/// Law: the night phase updates each synapse `i -> j` (its `k`-th, with `j` a neuron)
/// with the Hebbian term that `hebbian` gives for the spike count of `i`, the spike count
/// of the target `j` as the phase reads it (zero when `j < i`, whose count the phase has
/// already reset; otherwise `j`'s count before the phase), and the history length; the
/// learning rate is what `learning_rate` gives for the new S-level of `i` and its level
/// weight there. A synapse whose target never spiked gets the term for a post count of 0.
pub proof fn lemma_night_synapse_reads_target_count<
    A: Fn(u16, usize) -> Fixed16,
    L: Fn(Fixed16) -> [Fixed16; SIFS_LEVELS],
    E: Fn(usize, Fixed16) -> Fixed16,
    H: Fn(u16, u16, usize) -> Fixed16,
>(
    before: NeuronArrays,
    after: NeuronArrays,
    i: int,
    k: int,
    history_len: usize,
    activity_delta: A,
    level_weights: L,
    learning_rate: E,
    hebbian: H,
)
    requires
        spec_night_neuron(before, after, i, history_len, activity_delta, level_weights, learning_rate, hebbian),
        0 <= k < before.synaptic_weights@[i]@.len(),
        k < before.dendrite_targets@[i]@.len(),
        before.dendrite_targets@[i]@[k] < before.n(),
    ensures
        exists|eta: Fixed16, h: Fixed16|
            {
                let j = before.dendrite_targets@[i]@[k] as int;
                let level = spec_s_level(after.s_coordinate@[i] as int);
                &&& learning_rate.ensures((level as usize, after.sifs_weights@[i][level]), eta)
                &&& hebbian.ensures(
                    (before.spike_count@[i], if j < i { 0u16 } else { before.spike_count@[j] }, history_len),
                    h,
                )
                &&& after.synaptic_weights@[i]@[k] == #[trigger] spec_inertial_update(
                    before.synaptic_weights@[i]@[k] as int,
                    h as int,
                    eta as int,
                )
            },
{
    let level = spec_s_level(after.s_coordinate@[i] as int);
    let row = after.sifs_weights@[i];
    let eta = choose|eta: Fixed16|
        #[trigger] learning_rate.ensures((level as usize, row[level]), eta) && {
            &&& after.synaptic_weights@[i]@.len() == before.synaptic_weights@[i]@.len()
            &&& forall|q: int|
                0 <= q < before.synaptic_weights@[i]@.len() ==> #[trigger] spec_synapse_after(
                    before,
                    after,
                    i,
                    q,
                    eta as int,
                    history_len,
                    hebbian,
                )
        };
    assert(spec_synapse_after(before, after, i, k, eta as int, history_len, hebbian));
    let j = before.dendrite_targets@[i]@[k] as int;
    let h = choose|h: Fixed16|
        hebbian.ensures(
            (before.spike_count@[i], if j < i { 0u16 } else { before.spike_count@[j] }, history_len),
            h,
        ) && after.synaptic_weights@[i]@[k] == spec_inertial_update(
            before.synaptic_weights@[i]@[k] as int,
            h as int,
            eta as int,
        );
    assert(learning_rate.ensures((level as usize, after.sifs_weights@[i][level]), eta));
}

/// Law: the ghost targets of a spike list, as `ghost_spike_targets` returns them, are the
/// neurons of the shards whose index is one below or one above the S-level of some spiking
/// neuron: every target is in such a shard, and every neuron of such a shard is a target.
/// A spike at S-level 0 reaches only shard 1, one at level 9 only shard 8.
pub proof fn lemma_ghost_targets_neighbour_levels(
    neurons: NeuronArrays,
    shards: Seq<SifsShard>,
    spikes: Seq<usize>,
    targets: Seq<usize>,
)
    requires
        strictly_increasing(targets),
        forall|x: usize|
            #[trigger] targets.contains(x) <==> spec_ghost_target_of_any(neurons, shards, spikes, spikes.len() as int, x),
    ensures
        forall|x: usize|
            #[trigger] targets.contains(x) ==> exists|q: int, k: int|
                #![trigger spikes[q], shards[k]]
                {
                    let level = spec_s_level(neurons.s_coordinate@[spikes[q] as int] as int);
                    &&& 0 <= q < spikes.len()
                    &&& spikes[q] < neurons.n()
                    &&& 0 <= k < shards.len()
                    &&& shards[k].neurons@.contains(x)
                    &&& (k + 1 == level || k == level + 1)
                },
        forall|q: int, k: int, x: usize|
            0 <= q < spikes.len() && spikes[q] < neurons.n() && 0 <= k < shards.len() && (k + 1 == spec_s_level(
                neurons.s_coordinate@[spikes[q] as int] as int,
            ) || k == spec_s_level(neurons.s_coordinate@[spikes[q] as int] as int) + 1)
                && #[trigger] shards[k].neurons@.contains(x) && #[trigger] spikes[q] == spikes[q] ==> targets.contains(x),
{
    assert forall|x: usize| #[trigger] targets.contains(x) implies exists|q: int, k: int|
        #![trigger spikes[q], shards[k]]
        {
            let level = spec_s_level(neurons.s_coordinate@[spikes[q] as int] as int);
            &&& 0 <= q < spikes.len()
            &&& spikes[q] < neurons.n()
            &&& 0 <= k < shards.len()
            &&& shards[k].neurons@.contains(x)
            &&& (k + 1 == level || k == level + 1)
        } by {
        let q = choose|q: int| 0 <= q < spikes.len() && #[trigger] spec_ghost_target(neurons, shards, spikes[q] as int, x);
        let level = spec_s_level(neurons.s_coordinate@[spikes[q] as int] as int);
        if level > 0 && level - 1 < shards.len() && shards[level - 1].neurons@.contains(x) {
            let k = level - 1;
            assert(shards[k].neurons@.contains(x));
            let _ = spikes[q];
        } else {
            let k = level + 1;
            assert(shards[k].neurons@.contains(x));
            let _ = spikes[q];
        }
    }
    assert forall|q: int, k: int, x: usize|
        0 <= q < spikes.len() && spikes[q] < neurons.n() && 0 <= k < shards.len() && (k + 1 == spec_s_level(
            neurons.s_coordinate@[spikes[q] as int] as int,
        ) || k == spec_s_level(neurons.s_coordinate@[spikes[q] as int] as int) + 1)
            && #[trigger] shards[k].neurons@.contains(x) && #[trigger] spikes[q] == spikes[q] implies targets.contains(x) by {
        assert(spec_ghost_target(neurons, shards, spikes[q] as int, x));
        assert(spec_ghost_target_of_any(neurons, shards, spikes, spikes.len() as int, x));
    }
}

/// The recurrent weight of neuron `i` written out: over its first `k` synapses, the weight
/// stored at the synapse's own position `q` in `synaptic_weights[i]` (zero past its end)
/// whenever the target `dendrite_targets[i][q]` lies in `[lo, hi)` and is among `spikes`.
pub open spec fn spec_pool_synapses(neurons: NeuronArrays, spikes: Seq<usize>, lo: int, hi: int, i: int, k: nat) -> int
    decreases k,
{
    if k == 0 {
        0
    } else {
        let q = k - 1;
        let j = neurons.dendrite_targets@[i]@[q] as int;
        let weights = neurons.synaptic_weights@[i]@;
        spec_pool_synapses(neurons, spikes, lo, hi, i, q as nat) + if lo <= j < hi && spikes.contains(j as usize) {
            if q < weights.len() { weights[q] as int } else { 0 }
        } else {
            0
        }
    }
}

/// The recurrent sum of a pool written out: over the first `p` entries `i` of `spikes`
/// that lie in `[lo, hi)` (repeats counted), the recurrent weight of `i`.
pub open spec fn spec_pool_total(neurons: NeuronArrays, spikes: Seq<usize>, lo: int, hi: int, p: nat) -> int
    decreases p,
{
    if p == 0 {
        0
    } else {
        let i = spikes[p - 1] as int;
        spec_pool_total(neurons, spikes, lo, hi, (p - 1) as nat) + if lo <= i < hi {
            spec_pool_synapses(neurons, spikes, lo, hi, i, neurons.dendrite_targets@[i]@.len())
        } else {
            0
        }
    }
}

proof fn lemma_pool_synapses(neurons: NeuronArrays, spikes: Seq<usize>, lo: int, hi: int, i: int, k: nat)
    ensures
        neurons.spec_neuron_recurrent(i, spikes, lo, hi, k) == spec_pool_synapses(neurons, spikes, lo, hi, i, k),
    decreases k,
{
    if k > 0 {
        lemma_pool_synapses(neurons, spikes, lo, hi, i, (k - 1) as nat);
    }
}

proof fn lemma_pool_total(neurons: NeuronArrays, spikes: Seq<usize>, lo: int, hi: int, p: nat)
    ensures
        neurons.spec_recurrent_total(spikes, lo, hi, p) == spec_pool_total(neurons, spikes, lo, hi, p),
    decreases p,
{
    if p > 0 {
        lemma_pool_total(neurons, spikes, lo, hi, (p - 1) as nat);
        let i = spikes[p - 1] as int;
        lemma_pool_synapses(neurons, spikes, lo, hi, i, neurons.dendrite_targets@[i]@.len());
    }
}

/// Law: the weighted recurrent sum `sum` of a pool `[lo, hi)` (what
/// `weighted_recurrent_sum_in_range` returns; `weighted_recurrent_sum` is the pool of all
/// indices) is `spec_pool_total`, clamped to the range of `i32`: each synapse `i -> j`
/// with both ends spiking in the pool adds the weight at its own position in
/// `synaptic_weights[i]`. On a fresh ring every co-active pair `i -> i + 1` adds 1.0.
pub proof fn lemma_recurrent_sum_formula(neurons: NeuronArrays, spikes: Seq<usize>, lo: int, hi: int, sum: int)
    requires
        sum == crate::neuron::spec_clamp_i32(neurons.spec_recurrent_total(spikes, lo, hi, spikes.len())),
    ensures
        sum == ({
            let t = spec_pool_total(neurons, spikes, lo, hi, spikes.len());
            if t > i32::MAX as int {
                i32::MAX as int
            } else if t < i32::MIN as int {
                i32::MIN as int
            } else {
                t
            }
        }),
{
    lemma_pool_total(neurons, spikes, lo, hi, spikes.len());
}

/// Law: the S-level of a scale coordinate `s` (what `s_level_of` returns) is its integer
/// part in Q16.16, between 0 and 9: below 1.0 (negative included) it is 0, from 9.0 on it
/// is 9, and in between `level * 65536 <= s < (level + 1) * 65536`.
pub proof fn lemma_s_level_bands(s: int, level: int)
    requires
        level == spec_s_level(s),
    ensures
        0 <= level <= 9,
        s < 65536 ==> level == 0,
        s >= 589824 ==> level == 9,
        65536 <= s < 589824 ==> level * 65536 <= s < level * 65536 + 65536,
{
    if s > 0 {
        assert(0 <= s / 65536) by (nonlinear_arith)
            requires
                s > 0,
        ;
        assert((s / 65536) * 65536 <= s < (s / 65536) * 65536 + 65536) by (nonlinear_arith)
            requires
                s > 0,
        ;
        if s < 65536 {
            assert(s / 65536 == 0) by (nonlinear_arith)
                requires
                    0 < s < 65536,
            ;
        }
        if s >= 589824 {
            assert(s / 65536 >= 9) by (nonlinear_arith)
                requires
                    s >= 589824,
            ;
        }
        if s < 589824 {
            assert(s / 65536 <= 8) by (nonlinear_arith)
                requires
                    0 < s < 589824,
            ;
        }
    }
}

/// Law: the voltage of neuron `i` after one day step, before spike detection (what
/// `next_voltage` returns): a refractory neuron's voltage halves, rounded toward zero;
/// otherwise `V * 0.95` (62259 / 65536) plus `I_SIFS(input + V) * 0.001` (65 / 65536), each
/// rounded down, floored at zero, with the current zero when the SIFS current is off.
pub proof fn lemma_next_voltage_formula(neurons: NeuronArrays, i: int, input: int, sifs_enabled: bool, v_new: int)
    requires
        v_new == crate::phase::spec_next_voltage(neurons, i, input, sifs_enabled),
    ensures
        v_new == ({
            let v = neurons.voltage@[i] as int;
            if neurons.refractory_timer@[i] > 0 {
                if v >= 0 { v / 2 } else { -((-v) / 2) }
            } else {
                let current = if sifs_enabled {
                    spec_sifs_current(input + v, neurons.sifs_weights@[i]@, neurons.sifs_thresholds@[i]@) as int
                } else {
                    0
                };
                let x = (v * 62259) / 65536 + (65 * current) / 65536;
                if x < 0 { 0 } else { x }
            }
        }),
{
}

/// Law: the firing rule of a day step. Neuron `i` spikes exactly when its new voltage is
/// strictly above its threshold and its refractory timer, counted down by one when it was
/// running, is zero. A spiking neuron is reset to 0, refractory for 5 steps, counts the
/// spike and records the step; any other neuron keeps its new voltage and the counted-down
/// timer, and its count and spike time are unchanged.
pub proof fn lemma_day_step_fire_rule(
    before: NeuronArrays,
    after: NeuronArrays,
    input: Seq<i32>,
    sifs_enabled: bool,
    time_step: u32,
    spikes: Seq<usize>,
    i: int,
)
    requires
        crate::phase::spec_day_step(before, after, input, sifs_enabled, time_step, spikes),
        0 <= i < before.n(),
    ensures
        ({
            let v_new = crate::phase::spec_next_voltage(before, i, crate::phase::spec_input_at(input, i), sifs_enabled);
            let r = before.refractory_timer@[i] as int;
            let r_after = if r > 0 { r - 1 } else { r };
            &&& spikes.contains(i as usize) <==> (v_new > before.threshold@[i] as int && r_after == 0)
            &&& spikes.contains(i as usize) ==> {
                &&& after.voltage@[i] == 0
                &&& after.refractory_timer@[i] == 5
                &&& after.spike_count@[i] == before.spike_count@[i] + 1
                &&& after.last_spike_time@[i] == time_step
            }
            &&& !spikes.contains(i as usize) ==> {
                &&& after.voltage@[i] == v_new
                &&& after.refractory_timer@[i] == r_after
                &&& after.spike_count@[i] == before.spike_count@[i]
                &&& after.last_spike_time@[i] == before.last_spike_time@[i]
            }
        }),
{
    assert(crate::phase::spec_day_neuron(before, after, i, crate::phase::spec_input_at(input, i), sifs_enabled, time_step));
}

} // verus!
