//! The S-sharded core: shards by S-level, ghost-axon handover between neighbouring
//! S-levels, the six-kernel day pipeline, its night phase and its runner.

use vstd::prelude::*;

use crate::constants::SIFS_LEVELS;
use crate::fixed::{
    s_level_of, sifs_w, spec_s_level, spec_sifs_w, Fixed16, GHOST_CURRENT, S_COORDINATE_MAX,
};
use crate::neuron::{NeuronArrays, OUT_DEGREE};
use crate::runner::spec_history_len_after;
use crate::phase::{
    day_phase_inputs_ok, day_phase_ok, day_update, lemma_night_ok_after_day, night_after_day_inputs_ok,
    night_after_day_ok, spec_day_step, spec_history_after, spec_clamp, spec_fires, spec_day_frame, spec_day_neuron, spec_input_at,
    spec_level_members, spec_spike_list,
};

verus! {

/// A shard of neurons bound to one S-level.
#[derive(Debug)]
pub struct SifsShard {
    /// The S-level of the shard.
    pub level: usize,
    /// Indices of the neurons in the shard.
    pub neurons: Vec<usize>,
    /// The level weight W(level).
    pub w_factor: Fixed16,
    /// The time multiplier 2^level.
    pub time_scale: u32,
}

impl SifsShard {
    /// An empty shard for the S-level `level`, with level weight W(level) and time
    /// multiplier 2^level.
    pub fn new(level: usize) -> (shard: Self)
        requires
            level < 32,
        ensures
            shard.level == level,
            shard.neurons@ == Seq::<usize>::empty(),
            shard.w_factor == spec_sifs_w(level as int),
            shard.time_scale == vstd::arithmetic::power2::pow2(level as nat),
    {
        proof {
            vstd::bits::lemma_u32_pow2_no_overflow(level as nat);
            vstd::bits::lemma_u32_shl_is_mul(1, level as u32);
        }
        SifsShard { level, neurons: Vec::new(), w_factor: sifs_w(level), time_scale: 1u32 << (level as u32) }
    }

    /// Appends the neuron `neuron_id` to the shard.
    pub fn add_neuron(&mut self, neuron_id: usize)
        ensures
            final(self).neurons@ == old(self).neurons@.push(neuron_id),
            final(self).level == old(self).level,
            final(self).w_factor == old(self).w_factor,
            final(self).time_scale == old(self).time_scale,
    {
        self.neurons.push(neuron_id);
    }
}

/// Shard `k` of `after` is shard `k` of `before` holding exactly the neurons whose
/// S-level (by the scale coordinates `s`) is `k`, in increasing order; neurons whose
/// S-level has no shard are in none.
pub open spec fn spec_sharded(before: Seq<SifsShard>, after: Seq<SifsShard>, s: Seq<i32>) -> bool {
    &&& after.len() == before.len()
    &&& forall|k: int|
        0 <= k < after.len() ==> {
            &&& #[trigger] after[k].level == before[k].level
            &&& after[k].w_factor == before[k].w_factor
            &&& after[k].time_scale == before[k].time_scale
            &&& after[k].neurons@ == spec_level_members(s, k, s.len())
        }
}

/// Builds the S-shards from the current scale coordinates: clears every shard, then puts
/// each neuron into the shard of its S-level `min(9, floor(S))` when there is one.
pub fn build_s_shards_from_neurons(neurons: &NeuronArrays, shards: &mut [SifsShard])
    requires
        neurons.wf(),
    ensures
        spec_sharded(old(shards)@, final(shards)@, neurons.s_coordinate@),
{
    let ghost before = shards@;
    let m = shards.len();
    for k in 0..m
        invariant
            m == before.len(),
            shards@.len() == m,
            forall|q: int| 0 <= q < m ==> #[trigger] shards@[q].level == before[q].level,
            forall|q: int| 0 <= q < m ==> #[trigger] shards@[q].w_factor == before[q].w_factor,
            forall|q: int| 0 <= q < m ==> #[trigger] shards@[q].time_scale == before[q].time_scale,
            forall|q: int| 0 <= q < k ==> #[trigger] shards@[q].neurons@ == Seq::<usize>::empty(),
    {
        shards[k].neurons.clear();
    }
    let n = neurons.len();
    for i in 0..n
        invariant
            neurons.wf(),
            n == neurons.n(),
            m == before.len(),
            shards@.len() == m,
            forall|q: int| 0 <= q < m ==> #[trigger] shards@[q].level == before[q].level,
            forall|q: int| 0 <= q < m ==> #[trigger] shards@[q].w_factor == before[q].w_factor,
            forall|q: int| 0 <= q < m ==> #[trigger] shards@[q].time_scale == before[q].time_scale,
            forall|q: int|
                0 <= q < m ==> #[trigger] shards@[q].neurons@ == spec_level_members(
                    neurons.s_coordinate@,
                    q,
                    i as nat,
                ),
    {
        let level = s_level_of(neurons.s_coordinate[i]);
        if level < m {
            shards[level].add_neuron(i);
        }
    }
}


/// The entries of `v` are strictly increasing.
pub open spec fn strictly_increasing(v: Seq<usize>) -> bool {
    forall|a: int, b: int| 0 <= a < b < v.len() ==> v[a] < v[b]
}

/// Inserts `x` into the strictly increasing vector `v` unless it is there already.
fn insert_sorted(v: &mut Vec<usize>, x: usize)
    requires
        strictly_increasing(old(v)@),
    ensures
        strictly_increasing(final(v)@),
        forall|y: usize| #[trigger] final(v)@.contains(y) <==> (old(v)@.contains(y) || y == x),
{
    let mut lo: usize = 0;
    let mut hi: usize = v.len();
    while lo < hi
        invariant
            0 <= lo <= hi <= v@.len(),
            strictly_increasing(v@),
            forall|k: int| 0 <= k < lo ==> #[trigger] v@[k] < x,
            forall|k: int| hi <= k < v@.len() ==> #[trigger] v@[k] > x,
        decreases hi - lo,
    {
        let mid = lo + (hi - lo) / 2;
        if v[mid] == x {
            return;
        } else if v[mid] < x {
            lo = mid + 1;
        } else {
            hi = mid;
        }
    }
    let ghost before = v@;
    v.insert(lo, x);
    assert forall|y: usize| #[trigger] v@.contains(y) <==> (before.contains(y) || y == x) by {
        if v@.contains(y) {
            let q = choose|q: int| 0 <= q < v@.len() && #[trigger] v@[q] == y;
            if q < lo {
                assert(before[q] == y);
            } else if q > lo {
                assert(before[q - 1] == y);
            }
        }
        if before.contains(y) {
            let q = choose|q: int| 0 <= q < before.len() && #[trigger] before[q] == y;
            if q < lo {
                assert(v@[q] == y);
            } else {
                assert(v@[q + 1] == y);
            }
        }
        if y == x {
            assert(v@[lo as int] == x);
        }
    }
}

/// `x` receives the ghost spike of neuron `idx`: `idx` is a neuron and `x` is in the
/// shard of the S-level just below or just above that of `idx`.
pub open spec fn spec_ghost_target(neurons: NeuronArrays, shards: Seq<SifsShard>, idx: int, x: usize) -> bool {
    let level = spec_s_level(neurons.s_coordinate@[idx] as int);
    &&& 0 <= idx < neurons.n()
    &&& {
        ||| (level > 0 && level - 1 < shards.len() && shards[level - 1].neurons@.contains(x))
        ||| (level + 1 < shards.len() && shards[level + 1].neurons@.contains(x))
    }
}

/// `x` receives the ghost spike of one of the first `p` spikes.
pub open spec fn spec_ghost_target_of_any(
    neurons: NeuronArrays,
    shards: Seq<SifsShard>,
    spikes: Seq<usize>,
    p: int,
    x: usize,
) -> bool {
    exists|q: int| 0 <= q < p && #[trigger] spec_ghost_target(neurons, shards, spikes[q] as int, x)
}

/// `targets` is the ghost-target list of `spikes`: strictly increasing, holding exactly the
/// neurons that one of the spikes reaches by a ghost axon (what `ghost_spike_targets`
/// returns).
pub open spec fn spec_ghost_targets(
    neurons: NeuronArrays,
    shards: Seq<SifsShard>,
    spikes: Seq<usize>,
    targets: Seq<usize>,
) -> bool {
    &&& strictly_increasing(targets)
    &&& forall|x: usize|
        #[trigger] targets.contains(x) <==> spec_ghost_target_of_any(neurons, shards, spikes, spikes.len() as int, x)
}

/// Inserts every neuron of `members` into the strictly increasing vector `targets`.
fn insert_all(targets: &mut Vec<usize>, members: &Vec<usize>)
    requires
        strictly_increasing(old(targets)@),
    ensures
        strictly_increasing(final(targets)@),
        forall|y: usize|
            #[trigger] final(targets)@.contains(y) <==> (old(targets)@.contains(y) || members@.contains(y)),
{
    let ghost before = targets@;
    for r in 0..members.len()
        invariant
            strictly_increasing(targets@),
            forall|y: usize|
                #[trigger] targets@.contains(y) <==> (before.contains(y) || members@.take(r as int).contains(y)),
    {
        let ghost prev = targets@;
        insert_sorted(targets, members[r]);
        assert forall|y: usize| #[trigger] targets@.contains(y) <==> (before.contains(y) || members@.take(r + 1).contains(y)) by {
            assert(members@.take(r + 1) == members@.take(r as int).push(members@[r as int]));
            if members@.take(r as int).contains(y) {
                let q = choose|q: int| 0 <= q < r && #[trigger] members@.take(r as int)[q] == y;
                assert(members@.take(r + 1)[q] == y);
            }
            if members@.take(r + 1).contains(y) && y != members@[r as int] {
                let q = choose|q: int| 0 <= q < r + 1 && #[trigger] members@.take(r + 1)[q] == y;
                assert(members@.take(r as int)[q] == y);
            }
            if y == members@[r as int] {
                assert(members@.take(r + 1)[r as int] == y);
            }
        }
    }
    assert(members@.take(members@.len() as int) == members@);
}

/// Ghost axons on S-boundaries: for every spike of a neuron in S-level L, all neurons of
/// the shards at levels L - 1 and L + 1 receive it. Returns the receiving neurons, each
/// once, in increasing order; spikes of indices that are not neurons are ignored.
pub fn ghost_spike_targets(neurons: &NeuronArrays, shards: &[SifsShard], spikes: &[usize]) -> (targets: Vec<usize>)
    requires
        neurons.wf(),
    ensures
        strictly_increasing(targets@),
        forall|x: usize|
            #[trigger] targets@.contains(x) <==> spec_ghost_target_of_any(
                *neurons,
                shards@,
                spikes@,
                spikes@.len() as int,
                x,
            ),
{
    let mut targets: Vec<usize> = Vec::new();
    let n = neurons.len();
    for p in 0..spikes.len()
        invariant
            neurons.wf(),
            n == neurons.n(),
            strictly_increasing(targets@),
            forall|x: usize|
                #[trigger] targets@.contains(x) <==> spec_ghost_target_of_any(
                    *neurons,
                    shards@,
                    spikes@,
                    p as int,
                    x,
                ),
    {
        let idx = spikes[p];
        let ghost prev = targets@;
        if idx < n {
            let level = s_level_of(neurons.s_coordinate[idx]);
            if level > 0 && level - 1 < shards.len() {
                insert_all(&mut targets, &shards[level - 1].neurons);
            }
            if level + 1 < shards.len() {
                insert_all(&mut targets, &shards[level + 1].neurons);
            }
        }
        assert forall|x: usize|
            #[trigger] targets@.contains(x) <==> spec_ghost_target_of_any(
                *neurons,
                shards@,
                spikes@,
                p + 1,
                x,
            ) by {
            assert(targets@.contains(x) <==> (prev.contains(x) || spec_ghost_target(
                *neurons,
                shards@,
                idx as int,
                x,
            )));
            if spec_ghost_target_of_any(*neurons, shards@, spikes@, p + 1, x) {
                let q = choose|q: int| 0 <= q < p + 1 && #[trigger] spec_ghost_target(
                    *neurons,
                    shards@,
                    spikes@[q] as int,
                    x,
                );
                if q < p {
                    assert(spec_ghost_target_of_any(*neurons, shards@, spikes@, p as int, x));
                }
            }
            if spec_ghost_target_of_any(*neurons, shards@, spikes@, p as int, x) {
                let q = choose|q: int| 0 <= q < p && #[trigger] spec_ghost_target(
                    *neurons,
                    shards@,
                    spikes@[q] as int,
                    x,
                );
                assert(spec_ghost_target(*neurons, shards@, spikes@[q] as int, x));
            }
            if spec_ghost_target(*neurons, shards@, idx as int, x) {
                assert(spec_ghost_target(*neurons, shards@, spikes@[p as int] as int, x));
            }
        }
    }
    targets
}


/// The input of every neuron after the ghost spikes: the external input (zero past its
/// end) where each of the first `m` ghost spikes aimed at a neuron adds `GHOST_CURRENT`
/// to it (saturating at the bounds of `i32`; repeated targets add repeatedly).
pub open spec fn spec_effective_input(external: Seq<i32>, ghosts: Seq<usize>, n: nat, m: nat) -> Seq<i32>
    decreases m,
{
    if m == 0 {
        Seq::new(n, |i: int| spec_input_at(external, i) as i32)
    } else {
        let prev = spec_effective_input(external, ghosts, n, (m - 1) as nat);
        let g = ghosts[m - 1] as int;
        if g < n {
            prev.update(g, spec_clamp(prev[g] + GHOST_CURRENT, i32::MIN as int, i32::MAX as int) as i32)
        } else {
            prev
        }
    }
}

proof fn lemma_effective_input_len(external: Seq<i32>, ghosts: Seq<usize>, n: nat, m: nat)
    ensures
        spec_effective_input(external, ghosts, n, m).len() == n,
    decreases m,
{
    if m > 0 {
        lemma_effective_input_len(external, ghosts, n, (m - 1) as nat);
    }
}

/// Kernels 1 and 2 of the day pipeline: the external input copied into the effective
/// input (zero past its end), then every ghost spike aimed at a neuron adds
/// `GHOST_CURRENT` to that neuron's input.
pub fn effective_input(n: usize, external_input: &[Fixed16], incoming_ghost_spikes: &[usize]) -> (input: Vec<Fixed16>)
    ensures
        input@ == spec_effective_input(external_input@, incoming_ghost_spikes@, n as nat, incoming_ghost_spikes@.len()),
{
    let mut input: Vec<Fixed16> = Vec::new();
    for i in 0..n
        invariant
            input@ == Seq::new(i as nat, |k: int| spec_input_at(external_input@, k) as i32),
    {
        let x = if i < external_input.len() { external_input[i] } else { 0 };
        input.push(x);
    }
    for g in 0..incoming_ghost_spikes.len()
        invariant
            input@ == spec_effective_input(external_input@, incoming_ghost_spikes@, n as nat, g as nat),
    {
        proof {
            lemma_effective_input_len(external_input@, incoming_ghost_spikes@, n as nat, g as nat);
        }
        let idx = incoming_ghost_spikes[g];
        if idx < n {
            let sum = input[idx] as i64 + GHOST_CURRENT as i64;
            let bumped: Fixed16 = if sum > i32::MAX as i64 { i32::MAX } else { sum as Fixed16 };
            input.set(idx, bumped);
        }
    }
    input
}

/// The six kernels of the day pipeline. 1 InjectInputs: the external input becomes the
/// effective input; 2 ApplySpikeBatch: each incoming ghost spike adds `GHOST_CURRENT` to
/// its target; 3 PropagateAxons: nothing in this model; 4 UpdateNeurons: the day step
/// with the SIFS current on; 5 ApplyGSOP: nothing in this model; 6 RecordReadout: the
/// spikes are returned in increasing order. `_shards` is not used.
pub fn day_phase_pipeline_6step(
    neurons: &mut NeuronArrays,
    _shards: &[SifsShard],
    time_step: u32,
    external_input: &[Fixed16],
    incoming_ghost_spikes: &[usize],
) -> (spikes: Vec<usize>)
    requires
        old(neurons).wf(),
        day_phase_ok(
            *old(neurons),
            spec_effective_input(external_input@, incoming_ghost_spikes@, old(neurons).n(), incoming_ghost_spikes@.len()),
            true,
        ),
    ensures
        final(neurons).wf(),
        final(neurons).n() == old(neurons).n(),
        spec_day_frame(*old(neurons), *final(neurons)),
        forall|i: int|
            0 <= i < old(neurons).n() ==> #[trigger] spec_day_neuron(
                *old(neurons),
                *final(neurons),
                i,
                spec_input_at(
                    spec_effective_input(external_input@, incoming_ghost_spikes@, old(neurons).n(), incoming_ghost_spikes@.len()),
                    i,
                ),
                true,
                time_step,
            ),
        spec_spike_list(
            *old(neurons),
            spec_effective_input(external_input@, incoming_ghost_spikes@, old(neurons).n(), incoming_ghost_spikes@.len()),
            true,
            spikes@,
        ),
{
    let n = neurons.len();
    let input = effective_input(n, external_input, incoming_ghost_spikes);
    day_update(neurons, time_step, &input, true)
}

/// The day step without ghost spikes: the six-kernel pipeline with no incoming ghost
/// spikes, which is the day step with the SIFS current on.
pub fn day_phase_step(
    neurons: &mut NeuronArrays,
    _shards: &[SifsShard],
    time_step: u32,
    external_input: &[Fixed16],
) -> (spikes: Vec<usize>)
    requires
        old(neurons).wf(),
        day_phase_ok(*old(neurons), external_input@, true),
    ensures
        final(neurons).wf(),
        final(neurons).n() == old(neurons).n(),
        spec_day_frame(*old(neurons), *final(neurons)),
        forall|i: int|
            0 <= i < old(neurons).n() ==> #[trigger] spec_day_neuron(
                *old(neurons),
                *final(neurons),
                i,
                spec_input_at(external_input@, i),
                true,
                time_step,
            ),
        spec_spike_list(*old(neurons), external_input@, true, spikes@),
{
    let no_ghosts: Vec<usize> = Vec::new();
    let ghost eff = spec_effective_input(external_input@, no_ghosts@, old(neurons).n(), 0);
    let ghost before = *neurons;
    assert forall|i: int| 0 <= i < before.n() implies spec_input_at(eff, i) == spec_input_at(
        external_input@,
        i,
    ) by {}
    let spikes = day_phase_pipeline_6step(neurons, _shards, time_step, external_input, no_ghosts.as_slice());
    assert forall|i: int| 0 <= i < before.n() implies #[trigger] spec_day_neuron(
        before,
        *neurons,
        i,
        spec_input_at(external_input@, i),
        true,
        time_step,
    ) by {
        assert(spec_day_neuron(before, *neurons, i, spec_input_at(eff, i), true, time_step));
    }
    assert forall|i: int| 0 <= i < before.n() implies (spikes@.contains(i as usize) <==> spec_fires(
        before,
        i,
        spec_input_at(external_input@, i),
        true,
    )) by {
        assert(spikes@.contains(i as usize) <==> spec_fires(before, i, spec_input_at(eff, i), true));
    }
    spikes
}


/// Neuron `i` after the core night phase: its scale coordinate moved by the activity
/// delta that `activity_delta` gives for its spike count and the history length, clamped
/// to `[0, 10.0]`; its level weights are what `level_weights` gives for the new
/// coordinate; its spike count is zero; its synapses are unchanged.
pub open spec fn spec_core_night_neuron<
    A: Fn(u16, usize) -> Fixed16,
    L: Fn(Fixed16) -> [Fixed16; SIFS_LEVELS],
>(
    before: NeuronArrays,
    after: NeuronArrays,
    i: int,
    history_len: usize,
    activity_delta: A,
    level_weights: L,
) -> bool {
    &&& exists|d: Fixed16|
        #[trigger] activity_delta.ensures((before.spike_count@[i], history_len), d)
            && after.s_coordinate@[i] == spec_clamp(
            before.s_coordinate@[i] + d,
            0,
            S_COORDINATE_MAX as int,
        )
    &&& level_weights.ensures((after.s_coordinate@[i],), after.sifs_weights@[i])
    &&& after.spike_count@[i] == 0
}

/// The new scale coordinate of every neuron fits in `i32`, whatever delta
/// `activity_delta` gives.
pub open spec fn core_night_ok<A: Fn(u16, usize) -> Fixed16>(
    neurons: NeuronArrays,
    history_len: usize,
    activity_delta: A,
) -> bool {
    forall|i: int, d: Fixed16|
        0 <= i < neurons.n() && #[trigger] activity_delta.ensures(
            (neurons.spike_count@[i], history_len),
            d,
        ) ==> i32::MIN <= neurons.s_coordinate@[i] + d <= i32::MAX
}

/// The core night phase: for each neuron the scale coordinate moves by
/// `activity_delta(spike_count, history length)` (the Hebbian delta S) and is clamped to
/// `[0, 10.0]`, the level weights become `level_weights(S)` and the spike count is reset;
/// then the shards are rebuilt from the new coordinates. The kernels carry the
/// floating-point part of the rule; this function is verified for whatever they return.
pub fn night_phase_plasticity<A, L>(
    neurons: &mut NeuronArrays,
    shards: &mut [SifsShard],
    spike_history: &[Vec<usize>],
    activity_delta: A,
    level_weights: L,
) where
    A: Fn(u16, usize) -> Fixed16,
    L: Fn(Fixed16) -> [Fixed16; SIFS_LEVELS],

    requires
        old(neurons).wf(),
        forall|c: u16, h: usize| activity_delta.requires((c, h)),
        forall|s: Fixed16| level_weights.requires((s,)),
        core_night_ok(*old(neurons), spike_history@.len() as usize, activity_delta),
    ensures
        final(neurons).wf(),
        final(neurons).n() == old(neurons).n(),
        final(neurons).voltage@ == old(neurons).voltage@,
        final(neurons).threshold@ == old(neurons).threshold@,
        final(neurons).sifs_thresholds@ == old(neurons).sifs_thresholds@,
        final(neurons).dendrite_targets@ == old(neurons).dendrite_targets@,
        final(neurons).synaptic_weights@ == old(neurons).synaptic_weights@,
        final(neurons).last_spike_time@ == old(neurons).last_spike_time@,
        final(neurons).refractory_timer@ == old(neurons).refractory_timer@,
        forall|i: int|
            0 <= i < old(neurons).n() ==> #[trigger] spec_core_night_neuron(
                *old(neurons),
                *final(neurons),
                i,
                spike_history@.len() as usize,
                activity_delta,
                level_weights,
            ),
        spec_sharded(old(shards)@, final(shards)@, final(neurons).s_coordinate@),
{
    let ghost before = *neurons;
    let history_len = spike_history.len();
    let n = neurons.len();
    for i in 0..n
        invariant
            n == before.n(),
            neurons.wf(),
            neurons.n() == n,
            history_len == spike_history@.len(),
            forall|c: u16, h: usize| activity_delta.requires((c, h)),
            forall|s: Fixed16| level_weights.requires((s,)),
            core_night_ok(before, history_len, activity_delta),
            neurons.voltage@ == before.voltage@,
            neurons.threshold@ == before.threshold@,
            neurons.sifs_thresholds@ == before.sifs_thresholds@,
            neurons.dendrite_targets@ == before.dendrite_targets@,
            neurons.synaptic_weights@ == before.synaptic_weights@,
            neurons.last_spike_time@ == before.last_spike_time@,
            neurons.refractory_timer@ == before.refractory_timer@,
            forall|k: int|
                0 <= k < i ==> #[trigger] spec_core_night_neuron(
                    before,
                    *neurons,
                    k,
                    history_len,
                    activity_delta,
                    level_weights,
                ),
            forall|k: int| i <= k < n ==> #[trigger] neurons.s_coordinate@[k] == before.s_coordinate@[k],
            forall|k: int| i <= k < n ==> #[trigger] neurons.spike_count@[k] == before.spike_count@[k],
    {
        let ghost mid = *neurons;
        let delta = activity_delta(neurons.spike_count[i], history_len);
        let s_sum = neurons.s_coordinate[i] + delta;
        let s_new = if s_sum < 0 { 0 } else if s_sum > S_COORDINATE_MAX { S_COORDINATE_MAX } else { s_sum };
        neurons.s_coordinate[i] = s_new;
        let row = level_weights(s_new);
        neurons.sifs_weights[i] = row;
        neurons.spike_count[i] = 0;
        assert(activity_delta.ensures((before.spike_count@[i as int], history_len), delta));
        assert(spec_core_night_neuron(before, *neurons, i as int, history_len, activity_delta, level_weights));
        assert forall|k: int| 0 <= k < i implies #[trigger] spec_core_night_neuron(
            before,
            *neurons,
            k,
            history_len,
            activity_delta,
            level_weights,
        ) by {
            assert(spec_core_night_neuron(before, mid, k, history_len, activity_delta, level_weights));
            assert(neurons.s_coordinate@[k] == mid.s_coordinate@[k]);
            assert(neurons.sifs_weights@[k] == mid.sifs_weights@[k]);
            assert(neurons.spike_count@[k] == mid.spike_count@[k]);
        }
    }
    build_s_shards_from_neurons(neurons, shards);
}


/// Law: with a strictly increasing ghost list (as `ghost_spike_targets` returns) every
/// neuron it names gets `GHOST_CURRENT` exactly once and every other neuron its external
/// input.
pub proof fn lemma_effective_input_unique(external: Seq<i32>, ghosts: Seq<usize>, n: nat, m: nat)
    requires
        n <= usize::MAX,
        strictly_increasing(ghosts),
        m <= ghosts.len(),
    ensures
        spec_effective_input(external, ghosts, n, m).len() == n,
        forall|i: int|
            0 <= i < n ==> #[trigger] spec_effective_input(external, ghosts, n, m)[i] == if ghosts.take(
                m as int,
            ).contains(i as usize) {
                spec_clamp(spec_input_at(external, i) + GHOST_CURRENT, i32::MIN as int, i32::MAX as int) as i32
            } else {
                spec_input_at(external, i) as i32
            },
    decreases m,
{
    lemma_effective_input_len(external, ghosts, n, m);
    if m > 0 {
        lemma_effective_input_unique(external, ghosts, n, (m - 1) as nat);
        let prev_take = ghosts.take(m - 1);
        let cur_take = ghosts.take(m as int);
        assert(cur_take == prev_take.push(ghosts[m - 1]));
        let g = ghosts[m - 1];
        assert(!prev_take.contains(g)) by {
            if prev_take.contains(g) {
                let q = choose|q: int| 0 <= q < prev_take.len() && #[trigger] prev_take[q] == g;
                assert(ghosts[q] < ghosts[m - 1]);
            }
        }
        assert forall|i: usize| #[trigger] cur_take.contains(i) <==> (prev_take.contains(i) || i == g) by {
            if cur_take.contains(i) && i != g {
                let q = choose|q: int| 0 <= q < cur_take.len() && #[trigger] cur_take[q] == i;
                assert(prev_take[q] == i);
            }
            if prev_take.contains(i) {
                let q = choose|q: int| 0 <= q < prev_take.len() && #[trigger] prev_take[q] == i;
                assert(cur_take[q] == i);
            }
            if i == g {
                assert(cur_take[m - 1] == g);
            }
        }
        let prev = spec_effective_input(external, ghosts, n, (m - 1) as nat);
        let cur = spec_effective_input(external, ghosts, n, m);
        assert forall|i: int| 0 <= i < n implies #[trigger] cur[i] == if cur_take.contains(i as usize) {
            spec_clamp(spec_input_at(external, i) + GHOST_CURRENT, i32::MIN as int, i32::MAX as int) as i32
        } else {
            spec_input_at(external, i) as i32
        } by {
            assert(prev[i] == if prev_take.contains(i as usize) {
                spec_clamp(spec_input_at(external, i) + GHOST_CURRENT, i32::MIN as int, i32::MAX as int) as i32
            } else {
                spec_input_at(external, i) as i32
            });
            assert(cur_take.contains(i as usize) <==> (prev_take.contains(i as usize) || i as usize == g));
            if i as usize == g {
                assert(prev[g as int] == spec_input_at(external, i) as i32);
            }
        }
    }
}

/// The integer part of the core configuration.
#[derive(Debug, Clone, Copy)]
pub struct BrainConfig {
    /// Number of neurons.
    pub n_neurons: usize,
    /// A night phase runs every `night_interval` steps; also the length of the history.
    pub night_interval: usize,
}

impl Default for BrainConfig {
    /// 1000 neurons, a night phase every 100 steps.
    fn default() -> (config: Self)
        ensures
            config.n_neurons == 1000,
            config.night_interval == 100,
    {
        BrainConfig { n_neurons: 1000, night_interval: 100 }
    }
}

/// The readout of one step (population coding).
#[derive(Debug, Clone)]
pub struct BrainReadout {
    /// Number of spikes.
    pub spike_count_total: usize,
    /// Number of spikes per S-level.
    pub spike_count_per_shard: Vec<usize>,
    /// The day step that produced the spikes.
    pub time_step: u32,
}

/// The core brain: configuration, network, S-shards, clock and recent spike trains.
pub struct BrainRunner {
    /// The configuration.
    pub config: BrainConfig,
    /// The neurons.
    pub neurons: NeuronArrays,
    /// One shard per S-level.
    pub shards: Vec<SifsShard>,
    /// Number of steps run.
    pub time_step: u32,
    /// Spike lists of the last steps, oldest first.
    pub spike_history: Vec<Vec<usize>>,
}

/// The input of every neuron in a step of the core runner: the external input (zero past
/// its end), plus `GHOST_CURRENT` (saturating) for each neuron that receives a ghost
/// spike from the spikes of the previous step.
pub open spec fn spec_ghost_input(
    neurons: NeuronArrays,
    shards: Seq<SifsShard>,
    history: Seq<Vec<usize>>,
    external: Seq<i32>,
) -> Seq<i32> {
    Seq::new(
        neurons.n(),
        |i: int|
            if history.len() > 0 && spec_ghost_target_of_any(
                neurons,
                shards,
                history.last()@,
                history.last()@.len() as int,
                i as usize,
            ) {
                spec_clamp(spec_input_at(external, i) + GHOST_CURRENT, i32::MIN as int, i32::MAX as int) as i32
            } else {
                spec_input_at(external, i) as i32
            },
    )
}

/// Number of the first `m` spikes whose neuron is in S-level `level` (by `s`).
pub open spec fn spec_level_count(s: Seq<i32>, spikes: Seq<usize>, level: int, m: nat) -> nat
    decreases m,
{
    if m == 0 {
        0
    } else {
        spec_level_count(s, spikes, level, (m - 1) as nat) + if spec_s_level(s[spikes[m - 1] as int] as int)
            == level {
            1nat
        } else {
            0nat
        }
    }
}

/// The state `after_neurons`, `after_shards` follows the day step `mid` of a core step: the
/// core night phase when it is due, nothing otherwise.
pub open spec fn spec_core_after_day<A: Fn(u16, usize) -> Fixed16, L: Fn(Fixed16) -> [Fixed16; SIFS_LEVELS]>(
    mid: NeuronArrays,
    shards: Seq<SifsShard>,
    after_neurons: NeuronArrays,
    after_shards: Seq<SifsShard>,
    night_due: bool,
    history_len: usize,
    activity_delta: A,
    level_weights: L,
) -> bool {
    if night_due {
        &&& after_neurons.wf()
        &&& after_neurons.n() == mid.n()
        &&& after_neurons.voltage@ == mid.voltage@
        &&& after_neurons.threshold@ == mid.threshold@
        &&& after_neurons.sifs_thresholds@ == mid.sifs_thresholds@
        &&& after_neurons.dendrite_targets@ == mid.dendrite_targets@
        &&& after_neurons.synaptic_weights@ == mid.synaptic_weights@
        &&& after_neurons.last_spike_time@ == mid.last_spike_time@
        &&& after_neurons.refractory_timer@ == mid.refractory_timer@
        &&& forall|i: int|
            0 <= i < mid.n() ==> #[trigger] spec_core_night_neuron(
                mid,
                after_neurons,
                i,
                history_len,
                activity_delta,
                level_weights,
            )
        &&& spec_sharded(shards, after_shards, after_neurons.s_coordinate@)
    } else {
        &&& after_neurons == mid
        &&& after_shards == shards
    }
}

/// A step of the core brain `r` for the Q16.16 input `input_fixed` stays in range: the day
/// step on the step input (`spec_ghost_input`) neither overflows nor overflows a spike
/// counter, the clock can advance, the night interval (cut to `u32`) is not zero, and when
/// the night is due the new scale coordinates fit in `i32` after the day step.
pub open spec fn core_step_ok<A: Fn(u16, usize) -> Fixed16>(r: BrainRunner, input_fixed: Seq<i32>, activity_delta: A) -> bool {
    let input = spec_ghost_input(r.neurons, r.shards@, r.spike_history@, input_fixed);
    &&& r.neurons.wf()
    &&& day_phase_ok(r.neurons, input, true)
    &&& r.time_step < u32::MAX
    &&& r.config.night_interval as u32 > 0
    &&& (r.time_step + 1) % (r.config.night_interval as u32 as int) == 0 ==> night_after_day_ok(
        r.neurons,
        input,
        true,
        SIFS_LEVELS as int,
        spec_history_len_after(r.spike_history@.len() as int, r.config.night_interval as int) as usize,
        activity_delta,
    )
}

impl BrainRunner {
    /// Whether a step for the Q16.16 input `input_fixed` stays in range (`core_step_ok`),
    /// for a kernel `activity_delta` that gives one delta per spike count and history
    /// length.
    pub fn step_inputs_ok<A: Fn(u16, usize) -> Fixed16>(&self, input_fixed: &[Fixed16], activity_delta: &A) -> (ok: bool)
        requires
            self.neurons.wf(),
            forall|c: u16, h: usize| activity_delta.requires((c, h)),
            forall|c: u16, h: usize, d1: Fixed16, d2: Fixed16|
                activity_delta.ensures((c, h), d1) && activity_delta.ensures((c, h), d2) ==> d1 == d2,
        ensures
            ok == core_step_ok(*self, input_fixed@, *activity_delta),
    {
        let input = self.step_input(input_fixed);
        if !day_phase_inputs_ok(&self.neurons, &input, true) {
            return false;
        }
        if self.time_step == u32::MAX || self.config.night_interval as u32 == 0 {
            return false;
        }
        let next = self.time_step + 1;
        if next % (self.config.night_interval as u32) != 0 {
            return true;
        }
        let len = self.spike_history.len();
        let history_len = if len >= self.config.night_interval { len } else { len + 1 };
        night_after_day_inputs_ok(&self.neurons, &input, true, SIFS_LEVELS, history_len, activity_delta)
    }

    /// A fresh core brain for `config`: a new network without synapses, with scale
    /// coordinates `s_coordinate`, base threshold `v0_fixed` and level thresholds
    /// `level_thresholds`;
    /// ten shards (levels 0..=9) built from the scale coordinates; clock at zero, empty
    /// history.
    pub fn new(
        config: BrainConfig,
        s_coordinate: Vec<Fixed16>,
        v0_fixed: Fixed16,
        level_thresholds: [Fixed16; SIFS_LEVELS],
    ) -> (runner: Self)
        requires
            s_coordinate@.len() == config.n_neurons,
            config.n_neurons <= usize::MAX - OUT_DEGREE,
        ensures
            runner.config == config,
            runner.neurons.wf(),
            runner.neurons.n() == config.n_neurons,
            runner.neurons.s_coordinate@ == s_coordinate@,
            runner.neurons.threshold@ == Seq::new(config.n_neurons as nat, |i: int| v0_fixed),
            runner.neurons.sifs_thresholds@ == Seq::new(config.n_neurons as nat, |i: int| level_thresholds),
            forall|i: int|
                0 <= i < config.n_neurons ==> {
                    &&& #[trigger] runner.neurons.voltage@[i] == 0
                    &&& runner.neurons.spike_count@[i] == 0
                    &&& runner.neurons.refractory_timer@[i] == 0
                    &&& runner.neurons.sifs_weights@[i]@ == crate::neuron::spec_default_level_weights()
                    &&& runner.neurons.dendrite_targets@[i]@.len() == 0
                    &&& runner.neurons.synaptic_weights@[i]@.len() == 0
                },
            runner.shards@.len() == SIFS_LEVELS,
            forall|k: int| 0 <= k < SIFS_LEVELS ==> #[trigger] runner.shards@[k].level == k,
            forall|k: int|
                0 <= k < SIFS_LEVELS ==> #[trigger] runner.shards@[k].neurons@ == spec_level_members(
                    s_coordinate@,
                    k,
                    s_coordinate@.len(),
                ),
            runner.time_step == 0,
            runner.spike_history@.len() == 0,
    {
        let n = config.n_neurons;
        let ghost s0 = s_coordinate@;
        let mut neurons = NeuronArrays::new_unwired(n, s_coordinate);
        let ghost fresh = neurons;
        neurons.set_v0(v0_fixed, level_thresholds);
        assert(neurons.s_coordinate@ == s0);
        assert forall|i: int| 0 <= i < n implies #[trigger] neurons.voltage@[i] == 0
            && neurons.spike_count@[i] == 0 && neurons.refractory_timer@[i] == 0
            && neurons.sifs_weights@[i]@ == crate::neuron::spec_default_level_weights()
            && neurons.dendrite_targets@[i]@.len() == 0 && neurons.synaptic_weights@[i]@.len() == 0 by {
            assert(fresh.voltage@[i] == 0);
        }
        let mut shards: Vec<SifsShard> = Vec::new();
        for k in 0..SIFS_LEVELS
            invariant
                shards@.len() == k,
                forall|q: int| 0 <= q < k ==> #[trigger] shards@[q].level == q,
        {
            shards.push(SifsShard::new(k));
        }
        let ghost fresh_shards = shards@;
        build_s_shards_from_neurons(&neurons, shards.as_mut_slice());
        assert(spec_sharded(fresh_shards, shards@, neurons.s_coordinate@));
        assert forall|k: int| 0 <= k < SIFS_LEVELS implies #[trigger] shards@[k].level == k
            && shards@[k].neurons@ == spec_level_members(neurons.s_coordinate@, k, neurons.s_coordinate@.len()) by {
            assert(fresh_shards[k].level == k);
            assert(shards@[k].level == fresh_shards[k].level);
        }
        assert forall|k: int| 0 <= k < SIFS_LEVELS implies #[trigger] shards@[k].neurons@ == spec_level_members(
            s0,
            k,
            s0.len(),
        ) by {
            assert(shards@[k].level == fresh_shards[k].level);
            assert(shards@[k].neurons@ == spec_level_members(neurons.s_coordinate@, k, neurons.s_coordinate@.len()));
        }
        BrainRunner { config, neurons, shards, time_step: 0, spike_history: Vec::new() }
    }

    /// The input every neuron gets in the next step for the Q16.16 external input
    /// `input_fixed`: the external input (zero past its end), plus `GHOST_CURRENT`
    /// (saturating) for each neuron that a spike of the previous step reaches by a ghost
    /// axon. `run_step` may run when the day step for this input is in range
    /// (`day_phase_inputs_ok`).
    pub fn step_input(&self, input_fixed: &[Fixed16]) -> (input: Vec<Fixed16>)
        requires
            self.neurons.wf(),
        ensures
            input@ == spec_ghost_input(self.neurons, self.shards@, self.spike_history@, input_fixed@),
    {
        let n = self.neurons.len();
        let ghosts: Vec<usize> = if self.spike_history.len() == 0 {
            Vec::new()
        } else {
            let last = self.spike_history.len() - 1;
            ghost_spike_targets(&self.neurons, self.shards.as_slice(), self.spike_history[last].as_slice())
        };
        let input = effective_input(n, input_fixed, ghosts.as_slice());
        proof {
            let target = spec_ghost_input(self.neurons, self.shards@, self.spike_history@, input_fixed@);
            lemma_effective_input_unique(input_fixed@, ghosts@, n as nat, ghosts@.len());
            assert(ghosts@.take(ghosts@.len() as int) == ghosts@);
            assert forall|i: int| 0 <= i < n implies #[trigger] input@[i] == target[i] by {
                if self.spike_history@.len() == 0 {
                    assert(!ghosts@.contains(i as usize));
                }
            }
            assert(input@ =~= target);
        }
        input
    }

    /// One step of the core brain for the Q16.16 input `input_fixed`: the neurons that the
    /// spikes of the previous step reach by ghost axons get `GHOST_CURRENT`; the six-kernel
    /// day pipeline runs at the current clock; the clock advances; the spikes join the
    /// history (the last `night_interval` entries); when the clock is a multiple of
    /// `night_interval` the core night phase runs with the kernels `activity_delta` and
    /// `level_weights`. The readout counts the spikes, in total and per S-level (by the
    /// scale coordinates after the step), and gives the step's clock value.
    pub fn run_step<A, L>(&mut self, input_fixed: &[Fixed16], activity_delta: A, level_weights: L) -> (readout: BrainReadout) where
        A: Fn(u16, usize) -> Fixed16,
        L: Fn(Fixed16) -> [Fixed16; SIFS_LEVELS],

        requires
            forall|c: u16, h: usize| activity_delta.requires((c, h)),
            forall|s: Fixed16| level_weights.requires((s,)),
            core_step_ok(*old(self), input_fixed@, activity_delta),
        ensures
            final(self).config == old(self).config,
            final(self).time_step == old(self).time_step + 1,
            readout.time_step == old(self).time_step,
            readout.spike_count_per_shard@.len() == SIFS_LEVELS,
            exists|mid: NeuronArrays, spikes: Seq<usize>| {
                &&& #[trigger] spec_day_step(
                    old(self).neurons,
                    mid,
                    spec_ghost_input(old(self).neurons, old(self).shards@, old(self).spike_history@, input_fixed@),
                    true,
                    old(self).time_step,
                    spikes,
                )
                &&& final(self).spike_history@.map_values(|v: Vec<usize>| v@) == spec_history_after(
                    old(self).spike_history@,
                    spikes,
                    old(self).config.night_interval as int,
                )
                &&& spec_core_after_day(
                    mid,
                    old(self).shards@,
                    final(self).neurons,
                    final(self).shards@,
                    final(self).time_step % (old(self).config.night_interval as u32) == 0,
                    final(self).spike_history@.len() as usize,
                    activity_delta,
                    level_weights,
                )
                &&& readout.spike_count_total == spikes.len()
                &&& forall|k: int|
                    0 <= k < SIFS_LEVELS ==> #[trigger] readout.spike_count_per_shard@[k] == spec_level_count(
                        final(self).neurons.s_coordinate@,
                        spikes,
                        k,
                        spikes.len(),
                    )
            },
    {
        let ghost before = self.neurons;
        let ghost old_shards = self.shards@;
        let ghost old_history = self.spike_history@;
        let ghost input = spec_ghost_input(before, old_shards, old_history, input_fixed@);
        let n = self.neurons.len();
        let ghosts: Vec<usize> = if self.spike_history.len() == 0 {
            Vec::new()
        } else {
            let last = self.spike_history.len() - 1;
            ghost_spike_targets(&self.neurons, self.shards.as_slice(), self.spike_history[last].as_slice())
        };
        proof {
            lemma_effective_input_unique(input_fixed@, ghosts@, n as nat, ghosts@.len());
            assert(ghosts@.take(ghosts@.len() as int) == ghosts@);
            let eff = spec_effective_input(input_fixed@, ghosts@, n as nat, ghosts@.len());
            assert forall|i: int| 0 <= i < n implies #[trigger] eff[i] == input[i] by {
                if old_history.len() == 0 {
                    assert(!ghosts@.contains(i as usize));
                }
            }
            assert(eff == input);
        }
        let spikes = day_phase_pipeline_6step(
            &mut self.neurons,
            self.shards.as_slice(),
            self.time_step,
            input_fixed,
            ghosts.as_slice(),
        );
        let ghost mid = self.neurons;
        assert(spec_day_step(before, mid, input, true, self.time_step, spikes@));
        self.time_step = self.time_step + 1;
        let record = spikes.clone();
        assert(record@ =~= spikes@);
        self.spike_history.push(record);
        assert(self.spike_history@.map_values(|v: Vec<usize>| v@) =~= old_history.map_values(
            |v: Vec<usize>| v@,
        ).push(spikes@));
        if self.spike_history.len() > self.config.night_interval {
            let ghost pushed = self.spike_history@;
            self.spike_history.remove(0);
            assert(self.spike_history@.map_values(|v: Vec<usize>| v@) =~= pushed.map_values(
                |v: Vec<usize>| v@,
            ).drop_first());
        }
        assert(self.spike_history@.len() == spec_history_after(old_history, spikes@, self.config.night_interval as int).len());
        let night_due = self.time_step % (self.config.night_interval as u32) == 0 && self.time_step > 0;
        if night_due {
            proof {
                lemma_night_ok_after_day(
                    before,
                    mid,
                    input,
                    true,
                    (self.time_step - 1) as u32,
                    spikes@,
                    SIFS_LEVELS as int,
                    self.spike_history@.len() as usize,
                    activity_delta,
                );
                assert forall|i: int, d: Fixed16|
                    0 <= i < mid.n() && #[trigger] activity_delta.ensures((mid.spike_count@[i], self.spike_history@.len() as usize), d)
                    implies i32::MIN <= mid.s_coordinate@[i] + d <= i32::MAX by {}
            }
            night_phase_plasticity(
                &mut self.neurons,
                self.shards.as_mut_slice(),
                self.spike_history.as_slice(),
                activity_delta,
                level_weights,
            );
        }
        let mut counts: Vec<usize> = Vec::new();
        for k in 0..SIFS_LEVELS
            invariant
                counts@.len() == k,
                forall|q: int| 0 <= q < k ==> #[trigger] counts@[q] == 0,
        {
            counts.push(0);
        }
        for p in 0..spikes.len()
            invariant
                counts@.len() == SIFS_LEVELS,
                self.neurons.wf(),
                self.neurons.n() == n,
                forall|a: int| 0 <= a < spikes@.len() ==> #[trigger] spikes@[a] < n,
                forall|q: int|
                    0 <= q < SIFS_LEVELS ==> #[trigger] counts@[q] == spec_level_count(
                        self.neurons.s_coordinate@,
                        spikes@,
                        q,
                        p as nat,
                    ),
                forall|q: int| 0 <= q < SIFS_LEVELS ==> #[trigger] counts@[q] <= p,
        {
            let idx = spikes[p];
            let level = s_level_of(self.neurons.s_coordinate[idx]);
            counts[level] = counts[level] + 1;
        }
        BrainReadout { spike_count_total: spikes.len(), spike_count_per_shard: counts, time_step: self.time_step - 1 }
    }
}

} // verus!
