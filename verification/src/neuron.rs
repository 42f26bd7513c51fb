//! Neuron state in structure-of-arrays layout, S-level shards and the SIFS current.

use std::collections::HashSet;

use vstd::prelude::*;
use vstd::arithmetic::power2::{lemma2_to64, pow2};

use crate::constants::SIFS_LEVELS;
use crate::fixed::{
    lemma_shr16, sifs_w, spec_sifs_w, trunc_div, Fixed16, DEFAULT_LEVEL_THRESHOLDS, DEFAULT_V0,
    FIXED_ONE,
};

verus! {

broadcast use vstd::std_specs::hash::group_hash_axioms;

/// The smoothed step sigma(x) ~ max(0, min(1, 0.5 + x/4)) in Q16.16, as the current
/// computes it: 0 below -2.0, 1.0 above 2.0, `0.5 + x/4` (rounded toward zero) between.
pub open spec fn spec_sigma(v_diff: int) -> int {
    if v_diff < -2 * (FIXED_ONE as int) {
        0
    } else if v_diff > 2 * (FIXED_ONE as int) {
        FIXED_ONE as int
    } else {
        (FIXED_ONE as int) / 2 + trunc_div(v_diff, 4)
    }
}

/// The contribution `(W(n) * sigma(V - V_th(n))) >> 16` of one S-level.
pub open spec fn spec_level_contribution(v: int, w: int, th: int) -> int {
    (w * spec_sigma(v - th)) / 65536
}

/// The sum of the contributions of the first `k` levels.
pub open spec fn spec_sifs_sum(v: int, w: Seq<i32>, th: Seq<i32>, k: nat) -> int
    decreases k,
{
    if k == 0 {
        0
    } else {
        spec_sifs_sum(v, w, th, (k - 1) as nat) + spec_level_contribution(
            v,
            w[k - 1] as int,
            th[k - 1] as int,
        )
    }
}

/// The sum capped at `i32::MAX`, converted to `i32` (wrapping) and floored at zero.
pub open spec fn spec_clamp_current(sum: int) -> i32 {
    let capped = if sum > i32::MAX as int { i32::MAX as int } else { sum };
    let t = capped as i32;
    if t < 0 { 0 } else { t }
}

/// I_SIFS(V) = sum over n of W(n) * sigma(V - V_th(n)), in Q16.16.
pub open spec fn spec_sifs_current(v: int, w: Seq<i32>, th: Seq<i32>) -> i32 {
    spec_clamp_current(spec_sifs_sum(v, w, th, SIFS_LEVELS as nat))
}

/// `V - V_th(n)` fits in `i32` for every level.
pub open spec fn sifs_inputs_ok(v: int, th: Seq<i32>) -> bool {
    forall|n: int| 0 <= n < SIFS_LEVELS ==> i32::MIN <= v - #[trigger] th[n] <= i32::MAX
}

proof fn lemma_contribution_bounds(w: i32, sigma: int)
    requires
        0 <= sigma <= 65536,
    ensures
        i32::MIN <= (w * sigma) / 65536 <= i32::MAX,
        -0x8000_0000_0000 <= w * sigma <= 0x8000_0000_0000,
{
    assert(-0x8000_0000_0000 <= w * sigma <= 0x8000_0000_0000) by (nonlinear_arith)
        requires
            0 <= sigma <= 65536,
            i32::MIN <= w <= i32::MAX,
    ;
    assert(i32::MIN <= (w * sigma) / 65536 <= i32::MAX) by (nonlinear_arith)
        requires
            0 <= sigma <= 65536,
            i32::MIN <= w <= i32::MAX,
            -0x8000_0000_0000 <= w * sigma <= 0x8000_0000_0000,
    ;
}

/// The SIFS current of an input voltage: for each of the ten S-levels the level weight
/// times the smoothed step of the voltage above the level threshold, summed, capped at
/// `i32::MAX` and floored at zero. `_beta` (the sigmoid steepness) is not used.
pub fn calculate_sifs_current(
    input_voltage: Fixed16,
    sifs_weights: &[Fixed16; SIFS_LEVELS],
    sifs_thresholds: &[Fixed16; SIFS_LEVELS],
    _beta: Fixed16,
) -> (i_sifs: Fixed16)
    requires
        sifs_inputs_ok(input_voltage as int, sifs_thresholds@),
    ensures
        i_sifs == spec_sifs_current(input_voltage as int, sifs_weights@, sifs_thresholds@),
        i_sifs >= 0,
{
    let mut sum: i64 = 0;
    for n in 0..SIFS_LEVELS
        invariant
            sifs_inputs_ok(input_voltage as int, sifs_thresholds@),
            sum == spec_sifs_sum(input_voltage as int, sifs_weights@, sifs_thresholds@, n as nat),
            -(n as int) * 0x8000_0000 <= sum <= (n as int) * 0x8000_0000,
    {
        assert(i32::MIN <= input_voltage - sifs_thresholds@[n as int] <= i32::MAX);
        let v_diff = input_voltage - sifs_thresholds[n];
        let sigma: i32 = if v_diff < -2 * FIXED_ONE {
            0
        } else if v_diff > 2 * FIXED_ONE {
            FIXED_ONE
        } else {
            (FIXED_ONE / 2) + (v_diff / 4)
        };
        assert(sigma as int == spec_sigma(v_diff as int));
        proof {
            lemma_contribution_bounds(sifs_weights[n as int], sigma as int);
        }
        let product = sifs_weights[n] as i64 * sigma as i64;
        let level_current = product >> 16;
        proof {
            lemma_shr16(product);
        }
        sum = sum + level_current;
    }
    let capped: i64 = if sum > i32::MAX as i64 { i32::MAX as i64 } else { sum };
    let t = capped as i32;
    if t < 0 { 0 } else { t }
}


/// Number of outgoing synapses per neuron in the initial ring topology.
pub const OUT_DEGREE: usize = 5;

/// Neuron state in structure-of-arrays layout: entry `i` of every per-neuron vector
/// belongs to neuron `i`.
#[derive(Debug, Clone)]
pub struct NeuronArrays {
    /// Membrane voltage V(t).
    pub voltage: Vec<Fixed16>,
    /// Base spiking threshold V_th.
    pub threshold: Vec<Fixed16>,
    /// Spikes since the last night phase (population coding).
    pub spike_count: Vec<u16>,
    /// Level weights W(n) of each neuron.
    pub sifs_weights: Vec<[Fixed16; SIFS_LEVELS]>,
    /// Level thresholds V0 / phi^n of each neuron.
    pub sifs_thresholds: Vec<[Fixed16; SIFS_LEVELS]>,
    /// Scale coordinate S.
    pub s_coordinate: Vec<Fixed16>,
    /// Targets of the outgoing synapses of each neuron (i -> j).
    pub dendrite_targets: Vec<Vec<usize>>,
    /// Weights of the outgoing synapses, parallel to `dendrite_targets`.
    pub synaptic_weights: Vec<Vec<Fixed16>>,
    /// Day step of the last spike.
    pub last_spike_time: Vec<u32>,
    /// Remaining refractory day steps.
    pub refractory_timer: Vec<u16>,
}

/// The level weights W(0..=9) of a fresh neuron.
pub open spec fn spec_default_level_weights() -> Seq<i32> {
    Seq::new(SIFS_LEVELS as nat, |l: int| spec_sifs_w(l) as i32)
}

/// Targets of neuron `i` in the ring of `n` neurons: the next `OUT_DEGREE` neurons.
pub open spec fn spec_ring_targets(i: int, n: int) -> Seq<usize> {
    Seq::new(OUT_DEGREE as nat, |d: int| ((i + d + 1) % n) as usize)
}

/// `x` clamped to the range of `i32`.
pub open spec fn spec_clamp_i32(x: int) -> int {
    if x > i32::MAX as int {
        i32::MAX as int
    } else if x < i32::MIN as int {
        i32::MIN as int
    } else {
        x
    }
}

impl NeuronArrays {
    /// Number of neurons.
    pub open spec fn n(&self) -> nat {
        self.voltage@.len()
    }

    /// Every per-neuron vector has one entry per neuron.
    pub open spec fn wf(&self) -> bool {
        let n = self.voltage@.len();
        &&& self.threshold@.len() == n
        &&& self.spike_count@.len() == n
        &&& self.sifs_weights@.len() == n
        &&& self.sifs_thresholds@.len() == n
        &&& self.s_coordinate@.len() == n
        &&& self.dendrite_targets@.len() == n
        &&& self.synaptic_weights@.len() == n
        &&& self.last_spike_time@.len() == n
        &&& self.refractory_timer@.len() == n
    }

    /// A fresh network of `n_neurons` neurons at rest with the default base threshold,
    /// level weights W(n) and level thresholds; each neuron `i` has synapses of weight 1.0
    /// to the next five neurons `(i + 1) % n ..= (i + 5) % n`. `s_coordinate` holds the
    /// initial scale coordinates (the phi-spiral radius 5 * sqrt(i / n) in Q16.16).
    pub fn new(n_neurons: usize, s_coordinate: Vec<Fixed16>) -> (neurons: Self)
        requires
            s_coordinate@.len() == n_neurons,
            n_neurons <= usize::MAX - OUT_DEGREE,
        ensures
            neurons.wf(),
            neurons.n() == n_neurons,
            neurons.s_coordinate@ == s_coordinate@,
            forall|i: int|
                #![trigger neurons.voltage@[i]]
                0 <= i < n_neurons ==> {
                    &&& neurons.voltage@[i] == 0
                    &&& neurons.threshold@[i] == DEFAULT_V0
                    &&& neurons.spike_count@[i] == 0
                    &&& neurons.sifs_weights@[i]@ == spec_default_level_weights()
                    &&& neurons.sifs_thresholds@[i]@ == DEFAULT_LEVEL_THRESHOLDS@
                    &&& neurons.dendrite_targets@[i]@ == spec_ring_targets(i, n_neurons as int)
                    &&& neurons.synaptic_weights@[i]@ == Seq::new(
                        OUT_DEGREE as nat,
                        |d: int| FIXED_ONE,
                    )
                    &&& neurons.last_spike_time@[i] == 0
                    &&& neurons.refractory_timer@[i] == 0
                },
    {
        let level_weights: [Fixed16; SIFS_LEVELS] = [
            sifs_w(0),
            sifs_w(1),
            sifs_w(2),
            sifs_w(3),
            sifs_w(4),
            sifs_w(5),
            sifs_w(6),
            sifs_w(7),
            sifs_w(8),
            sifs_w(9),
        ];
        assert(level_weights@ == spec_default_level_weights());
        let mut voltage: Vec<Fixed16> = Vec::new();
        let mut threshold: Vec<Fixed16> = Vec::new();
        let mut spike_count: Vec<u16> = Vec::new();
        let mut sifs_weights: Vec<[Fixed16; SIFS_LEVELS]> = Vec::new();
        let mut sifs_thresholds: Vec<[Fixed16; SIFS_LEVELS]> = Vec::new();
        let mut dendrite_targets: Vec<Vec<usize>> = Vec::new();
        let mut synaptic_weights: Vec<Vec<Fixed16>> = Vec::new();
        let mut last_spike_time: Vec<u32> = Vec::new();
        let mut refractory_timer: Vec<u16> = Vec::new();
        for i in 0..n_neurons
            invariant
                n_neurons <= usize::MAX - OUT_DEGREE,
                level_weights@ == spec_default_level_weights(),
                voltage@.len() == i,
                threshold@.len() == i,
                spike_count@.len() == i,
                sifs_weights@.len() == i,
                sifs_thresholds@.len() == i,
                dendrite_targets@.len() == i,
                synaptic_weights@.len() == i,
                last_spike_time@.len() == i,
                refractory_timer@.len() == i,
                forall|k: int| 0 <= k < i ==> #[trigger] voltage@[k] == 0,
                forall|k: int| 0 <= k < i ==> #[trigger] threshold@[k] == DEFAULT_V0,
                forall|k: int| 0 <= k < i ==> #[trigger] spike_count@[k] == 0,
                forall|k: int|
                    0 <= k < i ==> #[trigger] sifs_weights@[k]@ == spec_default_level_weights(),
                forall|k: int|
                    0 <= k < i ==> #[trigger] sifs_thresholds@[k]@ == DEFAULT_LEVEL_THRESHOLDS@,
                forall|k: int|
                    0 <= k < i ==> #[trigger] dendrite_targets@[k]@ == spec_ring_targets(
                        k,
                        n_neurons as int,
                    ),
                forall|k: int|
                    0 <= k < i ==> #[trigger] synaptic_weights@[k]@ == Seq::new(
                        OUT_DEGREE as nat,
                        |d: int| FIXED_ONE,
                    ),
                forall|k: int| 0 <= k < i ==> #[trigger] last_spike_time@[k] == 0,
                forall|k: int| 0 <= k < i ==> #[trigger] refractory_timer@[k] == 0,
        {
            let mut targets: Vec<usize> = Vec::new();
            let mut weights: Vec<Fixed16> = Vec::new();
            for d in 1..OUT_DEGREE + 1
                invariant
                    i < n_neurons,
                    n_neurons <= usize::MAX - OUT_DEGREE,
                    targets@.len() == d - 1,
                    weights@.len() == d - 1,
                    forall|e: int|
                        0 <= e < d - 1 ==> #[trigger] targets@[e] == ((i + e + 1) % (
                        n_neurons as int)) as usize,
                    forall|e: int| 0 <= e < d - 1 ==> #[trigger] weights@[e] == FIXED_ONE,
            {
                targets.push((i + d) % n_neurons);
                weights.push(FIXED_ONE);
            }
            assert(targets@ == spec_ring_targets(i as int, n_neurons as int));
            assert(weights@ == Seq::new(OUT_DEGREE as nat, |d: int| FIXED_ONE));
            voltage.push(0);
            threshold.push(DEFAULT_V0);
            spike_count.push(0);
            sifs_weights.push(level_weights);
            sifs_thresholds.push(DEFAULT_LEVEL_THRESHOLDS);
            dendrite_targets.push(targets);
            synaptic_weights.push(weights);
            last_spike_time.push(0);
            refractory_timer.push(0);
            assert(dendrite_targets@[i as int]@ == spec_ring_targets(i as int, n_neurons as int));
            assert(synaptic_weights@[i as int]@ == Seq::new(OUT_DEGREE as nat, |d: int| FIXED_ONE));
            assert(sifs_weights@[i as int]@ == spec_default_level_weights());
        }
        NeuronArrays {
            voltage,
            threshold,
            spike_count,
            sifs_weights,
            sifs_thresholds,
            s_coordinate,
            dendrite_targets,
            synaptic_weights,
            last_spike_time,
            refractory_timer,
        }
    }

    /// A fresh network of `n_neurons` neurons at rest, as `new` builds it but without
    /// synapses: every neuron has no targets and no synaptic weights (the neurons of the
    /// S-sharded core, which exchange spikes only by ghost axons).
    pub fn new_unwired(n_neurons: usize, s_coordinate: Vec<Fixed16>) -> (neurons: Self)
        requires
            s_coordinate@.len() == n_neurons,
            n_neurons <= usize::MAX - OUT_DEGREE,
        ensures
            neurons.wf(),
            neurons.n() == n_neurons,
            neurons.s_coordinate@ == s_coordinate@,
            forall|i: int|
                #![trigger neurons.voltage@[i]]
                0 <= i < n_neurons ==> {
                    &&& neurons.voltage@[i] == 0
                    &&& neurons.threshold@[i] == DEFAULT_V0
                    &&& neurons.spike_count@[i] == 0
                    &&& neurons.sifs_weights@[i]@ == spec_default_level_weights()
                    &&& neurons.sifs_thresholds@[i]@ == DEFAULT_LEVEL_THRESHOLDS@
                    &&& neurons.dendrite_targets@[i]@.len() == 0
                    &&& neurons.synaptic_weights@[i]@.len() == 0
                    &&& neurons.last_spike_time@[i] == 0
                    &&& neurons.refractory_timer@[i] == 0
                },
    {
        let mut net = NeuronArrays::new(n_neurons, s_coordinate);
        let ghost wired = net;
        net.clear_synapses();
        assert forall|i: int|
            #![trigger net.voltage@[i]]
            0 <= i < n_neurons implies {
                &&& net.voltage@[i] == 0
                &&& net.threshold@[i] == DEFAULT_V0
                &&& net.spike_count@[i] == 0
                &&& net.sifs_weights@[i]@ == spec_default_level_weights()
                &&& net.sifs_thresholds@[i]@ == DEFAULT_LEVEL_THRESHOLDS@
                &&& net.dendrite_targets@[i]@.len() == 0
                &&& net.synaptic_weights@[i]@.len() == 0
                &&& net.last_spike_time@[i] == 0
                &&& net.refractory_timer@[i] == 0
            } by {
            assert(wired.voltage@[i] == 0);
        }
        net
    }

    /// Removes every synapse: each neuron is left with no targets and no weights; the rest
    /// of the state is unchanged.
    pub fn clear_synapses(&mut self)
        requires
            old(self).wf(),
        ensures
            final(self).wf(),
            final(self).voltage@ == old(self).voltage@,
            final(self).threshold@ == old(self).threshold@,
            final(self).spike_count@ == old(self).spike_count@,
            final(self).sifs_weights@ == old(self).sifs_weights@,
            final(self).sifs_thresholds@ == old(self).sifs_thresholds@,
            final(self).s_coordinate@ == old(self).s_coordinate@,
            final(self).last_spike_time@ == old(self).last_spike_time@,
            final(self).refractory_timer@ == old(self).refractory_timer@,
            forall|i: int| 0 <= i < old(self).n() ==> #[trigger] final(self).dendrite_targets@[i]@.len() == 0,
            forall|i: int| 0 <= i < old(self).n() ==> #[trigger] final(self).synaptic_weights@[i]@.len() == 0,
    {
        let n = self.voltage.len();
        for i in 0..n
            invariant
                self.wf(),
                self.n() == n,
                n == old(self).n(),
                self.voltage@ == old(self).voltage@,
                self.threshold@ == old(self).threshold@,
                self.spike_count@ == old(self).spike_count@,
                self.sifs_weights@ == old(self).sifs_weights@,
                self.sifs_thresholds@ == old(self).sifs_thresholds@,
                self.s_coordinate@ == old(self).s_coordinate@,
                self.last_spike_time@ == old(self).last_spike_time@,
                self.refractory_timer@ == old(self).refractory_timer@,
                forall|k: int| 0 <= k < i ==> #[trigger] self.dendrite_targets@[k]@.len() == 0,
                forall|k: int| 0 <= k < i ==> #[trigger] self.synaptic_weights@[k]@.len() == 0,
        {
            self.dendrite_targets.set(i, Vec::new());
            self.synaptic_weights.set(i, Vec::new());
        }
    }

    /// Number of neurons.
    pub fn len(&self) -> (n: usize)
        ensures
            n == self.n(),
    {
        self.voltage.len()
    }

    /// Sets the base threshold V0 of every neuron to `v0_fixed` and its level thresholds
    /// to `level_thresholds` (V0 / phi^n for n = 0..=9).
    pub fn set_v0(&mut self, v0_fixed: Fixed16, level_thresholds: [Fixed16; SIFS_LEVELS])
        requires
            old(self).wf(),
        ensures
            final(self).wf(),
            final(self).threshold@ == Seq::new(old(self).n(), |i: int| v0_fixed),
            final(self).sifs_thresholds@ == Seq::new(old(self).n(), |i: int| level_thresholds),
            final(self).voltage@ == old(self).voltage@,
            final(self).spike_count@ == old(self).spike_count@,
            final(self).sifs_weights@ == old(self).sifs_weights@,
            final(self).s_coordinate@ == old(self).s_coordinate@,
            final(self).dendrite_targets@ == old(self).dendrite_targets@,
            final(self).synaptic_weights@ == old(self).synaptic_weights@,
            final(self).last_spike_time@ == old(self).last_spike_time@,
            final(self).refractory_timer@ == old(self).refractory_timer@,
    {
        let n = self.voltage.len();
        for i in 0..n
            invariant
                self.wf(),
                self.n() == n,
                n == old(self).n(),
                forall|k: int| 0 <= k < i ==> #[trigger] self.threshold@[k] == v0_fixed,
                forall|k: int| 0 <= k < i ==> #[trigger] self.sifs_thresholds@[k] == level_thresholds,
                forall|k: int| i <= k < n ==> #[trigger] self.threshold@[k] == old(self).threshold@[k],
                forall|k: int|
                    i <= k < n ==> #[trigger] self.sifs_thresholds@[k] == old(self).sifs_thresholds@[k],
                self.voltage@ == old(self).voltage@,
                self.spike_count@ == old(self).spike_count@,
                self.sifs_weights@ == old(self).sifs_weights@,
                self.s_coordinate@ == old(self).s_coordinate@,
                self.dendrite_targets@ == old(self).dendrite_targets@,
                self.synaptic_weights@ == old(self).synaptic_weights@,
                self.last_spike_time@ == old(self).last_spike_time@,
                self.refractory_timer@ == old(self).refractory_timer@,
        {
            self.threshold[i] = v0_fixed;
            self.sifs_thresholds[i] = level_thresholds;
        }
    }

    /// Weight of the `k`-th outgoing synapse of neuron `i`, zero where it has none.
    pub open spec fn spec_synapse_weight(&self, i: int, k: int) -> int {
        if 0 <= k < self.synaptic_weights@[i]@.len() {
            self.synaptic_weights@[i]@[k] as int
        } else {
            0
        }
    }

    /// Sum of the weights of the first `k` outgoing synapses of neuron `i` whose target
    /// lies in `[lo, hi)` and is in `spikes`.
    pub open spec fn spec_neuron_recurrent(
        &self,
        i: int,
        spikes: Seq<usize>,
        lo: int,
        hi: int,
        k: nat,
    ) -> int
        decreases k,
    {
        if k == 0 {
            0
        } else {
            let j = self.dendrite_targets@[i]@[k - 1] as int;
            self.spec_neuron_recurrent(i, spikes, lo, hi, (k - 1) as nat) + if lo <= j < hi
                && spikes.contains(j as usize) {
                self.spec_synapse_weight(i, k - 1)
            } else {
                0
            }
        }
    }

    /// Sum, over the first `p` entries `i` of `spikes` that lie in `[lo, hi)` (repeats
    /// counted), of the recurrent weight of all outgoing synapses of `i`.
    pub open spec fn spec_recurrent_total(
        &self,
        spikes: Seq<usize>,
        lo: int,
        hi: int,
        p: nat,
    ) -> int
        decreases p,
    {
        if p == 0 {
            0
        } else {
            let i = spikes[p - 1] as int;
            self.spec_recurrent_total(spikes, lo, hi, (p - 1) as nat) + if lo <= i < hi {
                self.spec_neuron_recurrent(
                    i,
                    spikes,
                    lo,
                    hi,
                    self.dendrite_targets@[i]@.len(),
                )
            } else {
                0
            }
        }
    }

    /// Number of synapses that the recurrent sum over the first `p` spikes visits.
    pub open spec fn spec_recurrent_terms(
        &self,
        spikes: Seq<usize>,
        lo: int,
        hi: int,
        p: nat,
    ) -> int
        decreases p,
    {
        if p == 0 {
            0
        } else {
            let i = spikes[p - 1] as int;
            self.spec_recurrent_terms(spikes, lo, hi, (p - 1) as nat) + if lo <= i < hi {
                self.dendrite_targets@[i]@.len() as int
            } else {
                0
            }
        }
    }

    /// The recurrent sum of the spikes in `[lo, hi)`: every spike in range that is a
    /// neuron of the network, and the sum visits fewer than 2^32 synapses.
    pub open spec fn recurrent_sum_ok(&self, spikes: Seq<usize>, lo: int, hi: int) -> bool {
        &&& forall|p: int|
            0 <= p < spikes.len() && lo <= #[trigger] spikes[p] < hi ==> spikes[p] < self.n()
        &&& self.spec_recurrent_terms(spikes, lo, hi, spikes.len()) <= 0x1_0000_0000
    }

    proof fn lemma_terms_monotone(&self, spikes: Seq<usize>, lo: int, hi: int, p: nat, q: nat)
        requires
            p <= q <= spikes.len(),
            self.wf(),
            forall|r: int| 0 <= r < spikes.len() && lo <= #[trigger] spikes[r] < hi ==> spikes[r] < self.n(),
        ensures
            self.spec_recurrent_terms(spikes, lo, hi, p) <= self.spec_recurrent_terms(spikes, lo, hi, q),
        decreases q - p,
    {
        if p < q {
            self.lemma_terms_monotone(spikes, lo, hi, p, (q - 1) as nat);
        }
    }

    fn recurrent_sum(&self, spike_indices: &[usize], lo: usize, hi: usize, bounded: bool) -> (sum: i64)
        requires
            self.wf(),
            self.recurrent_sum_ok(spike_indices@, lo as int, if bounded { hi as int } else { usize::MAX as int + 1 }),
        ensures
            sum == self.spec_recurrent_total(spike_indices@, lo as int, if bounded { hi as int } else { usize::MAX as int + 1 }, spike_indices@.len()),
    {
        let ghost top: int = if bounded { hi as int } else { usize::MAX as int + 1 };
        let ghost spikes = spike_indices@;
        let mut set: HashSet<usize> = HashSet::new();
        for p in 0..spike_indices.len()
            invariant
                forall|x: usize| set@.contains(x) <==> spikes.take(p as int).contains(x),
                spikes == spike_indices@,
        {
            let ghost old_set = set@;
            set.insert(spike_indices[p]);
            assert(spikes.take(p + 1) == spikes.take(p as int).push(spikes[p as int]));
            assert forall|x: usize| set@.contains(x) <==> spikes.take(p + 1).contains(x) by {
                if x == spikes[p as int] {
                    assert(spikes.take(p + 1)[p as int] == x);
                }
                if spikes.take(p + 1).contains(x) && x != spikes[p as int] {
                    let q = choose|q: int| 0 <= q < p + 1 && #[trigger] spikes.take(p + 1)[q] == x;
                    assert(spikes.take(p as int)[q] == x);
                }
                if old_set.contains(x) {
                    let q = choose|q: int| 0 <= q < p && #[trigger] spikes.take(p as int)[q] == x;
                    assert(spikes.take(p + 1)[q] == x);
                }
            }
        }
        assert(spikes.take(spikes.len() as int) == spikes);
        let mut sum: i64 = 0;
        for p in 0..spike_indices.len()
            invariant
                self.wf(),
                spikes == spike_indices@,
                forall|x: usize| set@.contains(x) <==> spikes.contains(x),
                self.recurrent_sum_ok(spikes, lo as int, top),
                top == if bounded { hi as int } else { usize::MAX as int + 1 },
                sum == self.spec_recurrent_total(spikes, lo as int, top, p as nat),
                -(self.spec_recurrent_terms(spikes, lo as int, top, p as nat)) * 0x8000_0000 <= sum,
                sum <= self.spec_recurrent_terms(spikes, lo as int, top, p as nat) * 0x8000_0000,
        {
            let i = spike_indices[p];
            let in_range = lo <= i && (!bounded || i < hi);
            proof {
                self.lemma_terms_monotone(spikes, lo as int, top, (p + 1) as nat, spikes.len());
            }
            if in_range {
                let targets = &self.dendrite_targets[i];
                let weights = &self.synaptic_weights[i];
                let ghost base = sum;
                let ghost base_terms = self.spec_recurrent_terms(spikes, lo as int, top, p as nat);
                for k in 0..targets.len()
                    invariant
                        self.wf(),
                        i < self.n(),
                        *targets == self.dendrite_targets@[i as int],
                        *weights == self.synaptic_weights@[i as int],
                        spikes == spike_indices@,
                        forall|x: usize| set@.contains(x) <==> spikes.contains(x),
                        top == if bounded { hi as int } else { usize::MAX as int + 1 },
                        sum == base + self.spec_neuron_recurrent(i as int, spikes, lo as int, top, k as nat),
                        -(base_terms + k) * 0x8000_0000 <= sum <= (base_terms + k) * 0x8000_0000,
                        base_terms + targets@.len() <= 0x1_0000_0000,
                {
                    let j = targets[k];
                    if lo <= j && (!bounded || j < hi) && set.contains(&j) {
                        let w: i64 = if k < weights.len() { weights[k] as i64 } else { 0 };
                        sum = sum + w;
                    }
                }
            }
        }
        sum
    }

    /// The weighted recurrent activity: for every entry `i` of `spike_indices` (repeats
    /// counted), the weights of the synapses `i -> j` whose target `j` also spiked, summed
    /// and clamped to the range of `i32`.
    pub fn weighted_recurrent_sum(&self, spike_indices: &[usize]) -> (sum: Fixed16)
        requires
            self.wf(),
            self.recurrent_sum_ok(spike_indices@, 0, usize::MAX as int + 1),
        ensures
            sum as int == spec_clamp_i32(
                self.spec_recurrent_total(
                    spike_indices@,
                    0,
                    usize::MAX as int + 1,
                    spike_indices@.len(),
                ),
            ),
    {
        let total = self.recurrent_sum(spike_indices, 0, 0, false);
        clamp_to_i32(total)
    }

    /// The weighted recurrent activity of the pool `[start, end)`: as
    /// `weighted_recurrent_sum`, over the spikes in the pool and the synapses whose target
    /// lies in the pool.
    pub fn weighted_recurrent_sum_in_range(
        &self,
        spike_indices: &[usize],
        start: usize,
        end: usize,
    ) -> (sum: Fixed16)
        requires
            self.wf(),
            self.recurrent_sum_ok(spike_indices@, start as int, end as int),
        ensures
            sum as int == spec_clamp_i32(
                self.spec_recurrent_total(
                    spike_indices@,
                    start as int,
                    end as int,
                    spike_indices@.len(),
                ),
            ),
    {
        let total = self.recurrent_sum(spike_indices, start, end, true);
        clamp_to_i32(total)
    }
}


fn clamp_to_i32(x: i64) -> (r: Fixed16)
    ensures
        r as int == spec_clamp_i32(x as int),
{
    if x > i32::MAX as i64 {
        i32::MAX
    } else if x < i32::MIN as i64 {
        i32::MIN
    } else {
        x as i32
    }
}


/// A shard of neurons bound to one S-level of the scale coordinate (0 = global,
/// 9 = local).
#[derive(Debug)]
pub struct SIFSShard {
    /// The S-level of the shard, in `0..SIFS_LEVELS`.
    pub s_level: usize,
    /// Indices of the neurons in the shard.
    pub neurons: Vec<usize>,
    /// The level weight W(s_level).
    pub w_factor: Fixed16,
    /// The time multiplier 2^s_level (higher S = faster).
    pub time_scale: u32,
}

impl SIFSShard {
    /// An empty shard for the S-level `s_level`, with level weight W(s_level) and time
    /// multiplier 2^s_level.
    pub fn new(s_level: usize) -> (shard: Self)
        requires
            s_level < SIFS_LEVELS,
        ensures
            shard.s_level == s_level,
            shard.neurons@ == Seq::<usize>::empty(),
            shard.w_factor == spec_sifs_w(s_level as int),
            shard.time_scale == pow2(s_level as nat),
    {
        proof {
            lemma2_to64();
            vstd::bits::lemma_u32_shl_is_mul(1, s_level as u32);
        }
        SIFSShard {
            s_level,
            neurons: Vec::new(),
            w_factor: sifs_w(s_level),
            time_scale: 1u32 << (s_level as u32),
        }
    }

    /// Appends the neuron `neuron_id` to the shard.
    pub fn add_neuron(&mut self, neuron_id: usize)
        ensures
            final(self).neurons@ == old(self).neurons@.push(neuron_id),
            final(self).s_level == old(self).s_level,
            final(self).w_factor == old(self).w_factor,
            final(self).time_scale == old(self).time_scale,
    {
        self.neurons.push(neuron_id);
    }
}

} // verus!
