//! The day phase (one leaky integrate-and-fire step of every neuron) and the night phase
//! (S-coordinate drift, level weights, Hebbian synapses with inertia, resharding).

use rayon::iter::{IndexedParallelIterator, IntoParallelRefIterator, ParallelIterator};
use vstd::prelude::*;

use crate::constants::SIFS_LEVELS;
use crate::fixed::{
    lemma_shr16, s_level_of, spec_s_level, trunc_div, Fixed16, FIXED_ONE, INERTIA_CURVE,
    INERTIA_LEVELS, MEMBRANE_RESISTANCE, REFRACTORY_STEPS, SIGMOID_BETA, S_COORDINATE_MAX, TAU_DECAY,
};
use crate::neuron::{calculate_sifs_current, sifs_inputs_ok, spec_sifs_current, NeuronArrays, SIFSShard};

verus! {

/// Entry `i` of an input vector, zero past its end.
pub open spec fn spec_input_at(input: Seq<i32>, i: int) -> int {
    if 0 <= i < input.len() { input[i] as int } else { 0 }
}

/// The voltage of neuron `i` after one day step, before spike detection, for the input
/// `input`: a refractory neuron's voltage halves (rounded toward zero); otherwise it
/// decays by 0.95 and gains 0.001 times the SIFS current of `input + V` (zero when the
/// SIFS current is off), and is floored at zero.
pub open spec fn spec_next_voltage(neurons: NeuronArrays, i: int, input: int, sifs_enabled: bool) -> int {
    let v = neurons.voltage@[i] as int;
    if neurons.refractory_timer@[i] > 0 {
        trunc_div(v, 2)
    } else {
        let current = if sifs_enabled {
            spec_sifs_current(input + v, neurons.sifs_weights@[i]@, neurons.sifs_thresholds@[i]@) as int
        } else {
            0
        };
        let v_new = (v * TAU_DECAY) / 65536 + (MEMBRANE_RESISTANCE * current) / 65536;
        if v_new < 0 { 0 } else { v_new }
    }
}

/// The voltage update of neuron `i` does not overflow `i32`.
pub open spec fn voltage_update_ok(neurons: NeuronArrays, i: int, input: int, sifs_enabled: bool) -> bool {
    let v = neurons.voltage@[i] as int;
    neurons.refractory_timer@[i] > 0 || {
        &&& i32::MIN <= input + v <= i32::MAX
        &&& sifs_enabled ==> sifs_inputs_ok(input + v, neurons.sifs_thresholds@[i]@)
    }
}

/// The refractory timer of neuron `i` after its countdown.
pub open spec fn spec_refractory_after(neurons: NeuronArrays, i: int) -> int {
    let r = neurons.refractory_timer@[i] as int;
    if r > 0 { r - 1 } else { r }
}

/// Neuron `i` spikes: its new voltage exceeds its threshold and it is not refractory.
pub open spec fn spec_fires(neurons: NeuronArrays, i: int, input: int, sifs_enabled: bool) -> bool {
    &&& spec_next_voltage(neurons, i, input, sifs_enabled) > neurons.threshold@[i] as int
    &&& spec_refractory_after(neurons, i) == 0
}

/// The state of neuron `i` in `after` is that of `before` after one day step at
/// `time_step`: a spiking neuron is reset to zero, becomes refractory for five steps,
/// counts the spike and records the time; any other neuron keeps its new voltage.
pub open spec fn spec_day_neuron(
    before: NeuronArrays,
    after: NeuronArrays,
    i: int,
    input: int,
    sifs_enabled: bool,
    time_step: u32,
) -> bool {
    let v_new = spec_next_voltage(before, i, input, sifs_enabled);
    if spec_fires(before, i, input, sifs_enabled) {
        &&& after.voltage@[i] == 0
        &&& after.refractory_timer@[i] == REFRACTORY_STEPS
        &&& after.spike_count@[i] == before.spike_count@[i] + 1
        &&& after.last_spike_time@[i] == time_step
    } else {
        &&& after.voltage@[i] == v_new
        &&& after.refractory_timer@[i] == spec_refractory_after(before, i)
        &&& after.spike_count@[i] == before.spike_count@[i]
        &&& after.last_spike_time@[i] == before.last_spike_time@[i]
    }
}

/// The day step of every neuron for the input vector `input` neither overflows nor
/// overflows a spike counter.
pub open spec fn day_phase_ok(neurons: NeuronArrays, input: Seq<i32>, sifs_enabled: bool) -> bool {
    forall|i: int|
        0 <= i < neurons.n() ==> {
            &&& voltage_update_ok(neurons, i, spec_input_at(input, i), sifs_enabled)
            &&& spec_fires(neurons, i, spec_input_at(input, i), sifs_enabled)
                ==> neurons.spike_count@[i] < u16::MAX
        }
}

/// `spikes` lists, in increasing order, exactly the neurons that fire.
pub open spec fn spec_spike_list(
    neurons: NeuronArrays,
    input: Seq<i32>,
    sifs_enabled: bool,
    spikes: Seq<usize>,
) -> bool {
    &&& forall|a: int, b: int| 0 <= a < b < spikes.len() ==> spikes[a] < spikes[b]
    &&& forall|a: int| 0 <= a < spikes.len() ==> #[trigger] spikes[a] < neurons.n()
    &&& forall|i: int|
        0 <= i < neurons.n() ==> (spikes.contains(i as usize) <==> spec_fires(
            neurons,
            i,
            spec_input_at(input, i),
            sifs_enabled,
        ))
}

/// Everything but the day-step state is unchanged.
pub open spec fn spec_day_frame(before: NeuronArrays, after: NeuronArrays) -> bool {
    &&& after.threshold@ == before.threshold@
    &&& after.sifs_weights@ == before.sifs_weights@
    &&& after.sifs_thresholds@ == before.sifs_thresholds@
    &&& after.s_coordinate@ == before.s_coordinate@
    &&& after.dendrite_targets@ == before.dendrite_targets@
    &&& after.synaptic_weights@ == before.synaptic_weights@
}

/// `after` and `spikes` are the result of one day step of `before` at `time_step` for the
/// input vector `input`.
pub open spec fn spec_day_step(
    before: NeuronArrays,
    after: NeuronArrays,
    input: Seq<i32>,
    sifs_enabled: bool,
    time_step: u32,
    spikes: Seq<usize>,
) -> bool {
    &&& after.wf()
    &&& after.n() == before.n()
    &&& spec_day_frame(before, after)
    &&& forall|i: int|
        0 <= i < before.n() ==> #[trigger] spec_day_neuron(
            before,
            after,
            i,
            spec_input_at(input, i),
            sifs_enabled,
            time_step,
        )
    &&& spec_spike_list(before, input, sifs_enabled, spikes)
}

/// The spike history after appending `spikes` to `history` and dropping the oldest
/// entry when it grows past `limit`.
pub open spec fn spec_history_after(history: Seq<Vec<usize>>, spikes: Seq<usize>, limit: int) -> Seq<Seq<usize>> {
    let pushed = history.map_values(|v: Vec<usize>| v@).push(spikes);
    if pushed.len() > limit {
        pushed.drop_first()
    } else {
        pushed
    }
}

proof fn lemma_decay_bounds(v: i32, current: int)
    requires
        0 <= current <= i32::MAX,
    ensures
        i32::MIN <= (v * TAU_DECAY) / 65536 + (MEMBRANE_RESISTANCE * current) / 65536 <= i32::MAX,
        i64::MIN <= v * TAU_DECAY <= i64::MAX,
        0 <= MEMBRANE_RESISTANCE * current <= i64::MAX,
{
    assert(-0x8000_0000 * 62259 <= v * 62259 <= 0x7fff_ffff * 62259) by (nonlinear_arith)
        requires
            i32::MIN <= v <= i32::MAX,
    ;
    assert(0 <= 65 * current <= 65 * 0x7fff_ffff) by (nonlinear_arith)
        requires
            0 <= current <= i32::MAX,
    ;
}

/// The voltage of neuron `i` after one day step, before spike detection.
pub fn next_voltage(
    neurons: &NeuronArrays,
    i: usize,
    external_input: &[Fixed16],
    sifs_enabled: bool,
) -> (v_new: Fixed16)
    requires
        neurons.wf(),
        i < neurons.n(),
        voltage_update_ok(*neurons, i as int, spec_input_at(external_input@, i as int), sifs_enabled),
    ensures
        v_new == spec_next_voltage(*neurons, i as int, spec_input_at(external_input@, i as int), sifs_enabled),
{
    let v = neurons.voltage[i];
    if neurons.refractory_timer[i] > 0 {
        return v / 2;
    }
    let input = if i < external_input.len() { external_input[i] } else { 0 };
    let input_v = input + v;
    let i_sifs = if sifs_enabled {
        calculate_sifs_current(
            input_v,
            &neurons.sifs_weights[i],
            &neurons.sifs_thresholds[i],
            SIGMOID_BETA,
        )
    } else {
        0
    };
    proof {
        lemma_decay_bounds(v, i_sifs as int);
    }
    let decayed = v as i64 * TAU_DECAY as i64;
    let driven = MEMBRANE_RESISTANCE as i64 * i_sifs as i64;
    proof {
        lemma_shr16(decayed);
        lemma_shr16(driven);
    }
    let v_new = (decayed >> 16) + (driven >> 16);
    let v_new = v_new as Fixed16;
    if v_new < 0 { 0 } else { v_new }
}

/// `rayon`: `neurons.voltage.par_iter().enumerate().map(..).collect()`, the new voltage of
/// every neuron computed in parallel. Claimed: the vector holds one entry per neuron, in
/// the order of the neurons, and entry `i` is what `next_voltage` returns for neuron `i`
/// (rayon's `collect` into a `Vec` from an indexed parallel iterator keeps the order).
#[verifier::external_body]
fn par_next_voltages(
    neurons: &NeuronArrays,
    external_input: &[Fixed16],
    sifs_enabled: bool,
) -> (new_voltages: Vec<Fixed16>)
    requires
        neurons.wf(),
        forall|i: int|
            0 <= i < neurons.n() ==> voltage_update_ok(
                *neurons,
                i,
                spec_input_at(external_input@, i),
                sifs_enabled,
            ),
    ensures
        new_voltages@.len() == neurons.n(),
        forall|i: int|
            0 <= i < neurons.n() ==> new_voltages@[i] == spec_next_voltage(
                *neurons,
                i,
                spec_input_at(external_input@, i),
                sifs_enabled,
            ),
{
    neurons.voltage.par_iter().enumerate().map(
        |(i, _)| next_voltage(neurons, i, external_input, sifs_enabled),
    ).collect()
}

/// One day step of every neuron for the input vector `external_input` (entries past its
/// end count as zero): the new voltages are computed in parallel, then refractory timers
/// count down, and each neuron whose voltage exceeds its threshold while not refractory
/// spikes. Returns the spiking neurons in increasing order. `_shards` is not used.
pub fn day_phase_step(
    neurons: &mut NeuronArrays,
    _shards: &[SIFSShard],
    time_step: u32,
    external_input: &[Fixed16],
    sifs_enabled: bool,
) -> (spikes: Vec<usize>)
    requires
        old(neurons).wf(),
        day_phase_ok(*old(neurons), external_input@, sifs_enabled),
    ensures
        final(neurons).wf(),
        final(neurons).n() == old(neurons).n(),
        spec_day_frame(*old(neurons), *final(neurons)),
        forall|i: int|
            0 <= i < old(neurons).n() ==> #[trigger] spec_day_neuron(
                *old(neurons),
                *final(neurons),
                i,
                spec_input_at(external_input@, i),
                sifs_enabled,
                time_step,
            ),
        spec_spike_list(*old(neurons), external_input@, sifs_enabled, spikes@),
{
    day_update(neurons, time_step, external_input, sifs_enabled)
}

/// Whether the day step of every neuron for the input vector `external_input` stays in
/// range: no voltage sum or level difference overflows `i32` and no spike counter that
/// would count a spike is full. Exactly the condition under which `day_phase_step` may
/// run.
pub fn day_phase_inputs_ok(neurons: &NeuronArrays, external_input: &[Fixed16], sifs_enabled: bool) -> (ok: bool)
    requires
        neurons.wf(),
    ensures
        ok == day_phase_ok(*neurons, external_input@, sifs_enabled),
{
    let n = neurons.len();
    for i in 0..n
        invariant
            neurons.wf(),
            n == neurons.n(),
            forall|k: int|
                0 <= k < i ==> {
                    &&& voltage_update_ok(*neurons, k, spec_input_at(external_input@, k), sifs_enabled)
                    &&& spec_fires(*neurons, k, spec_input_at(external_input@, k), sifs_enabled)
                        ==> neurons.spike_count@[k] < u16::MAX
                },
    {
        let ghost input_i = spec_input_at(external_input@, i as int);
        let v = neurons.voltage[i];
        let input: Fixed16 = if i < external_input.len() { external_input[i] } else { 0 };
        let sum = input as i64 + v as i64;
        let update_ok = if neurons.refractory_timer[i] > 0 {
            true
        } else if sum < i32::MIN as i64 || sum > i32::MAX as i64 {
            false
        } else if !sifs_enabled {
            true
        } else {
            let mut levels_ok = true;
            for lv in 0..SIFS_LEVELS
                invariant
                    neurons.wf(),
                    i < neurons.n(),
                    sum == input_i + neurons.voltage@[i as int],
                    i32::MIN <= sum <= i32::MAX,
                    levels_ok == forall|m: int|
                        0 <= m < lv ==> i32::MIN <= sum - #[trigger] neurons.sifs_thresholds@[i as int]@[m]
                            <= i32::MAX,
            {
                let d = sum - neurons.sifs_thresholds[i][lv] as i64;
                if d < i32::MIN as i64 || d > i32::MAX as i64 {
                    levels_ok = false;
                }
            }
            levels_ok
        };
        if !update_ok {
            assert(!voltage_update_ok(*neurons, i as int, input_i, sifs_enabled));
            return false;
        }
        let v_new = next_voltage(neurons, i, external_input, sifs_enabled);
        let timer = neurons.refractory_timer[i];
        let timer_after = if timer > 0 { timer - 1 } else { timer };
        let fires = v_new > neurons.threshold[i] && timer_after == 0;
        assert(fires == spec_fires(*neurons, i as int, input_i, sifs_enabled));
        if fires && neurons.spike_count[i] == u16::MAX {
            return false;
        }
    }
    true
}

/// The day step shared by the day phase and the six-kernel pipeline.
pub(crate) fn day_update(
    neurons: &mut NeuronArrays,
    time_step: u32,
    external_input: &[Fixed16],
    sifs_enabled: bool,
) -> (spikes: Vec<usize>)
    requires
        old(neurons).wf(),
        day_phase_ok(*old(neurons), external_input@, sifs_enabled),
    ensures
        final(neurons).wf(),
        final(neurons).n() == old(neurons).n(),
        spec_day_frame(*old(neurons), *final(neurons)),
        forall|i: int|
            0 <= i < old(neurons).n() ==> #[trigger] spec_day_neuron(
                *old(neurons),
                *final(neurons),
                i,
                spec_input_at(external_input@, i),
                sifs_enabled,
                time_step,
            ),
        spec_spike_list(*old(neurons), external_input@, sifs_enabled, spikes@),
{
    let new_voltages = par_next_voltages(neurons, external_input, sifs_enabled);
    let ghost before = *neurons;
    let n = neurons.len();
    let mut spikes: Vec<usize> = Vec::new();
    for i in 0..n
        invariant
            n == before.n(),
            neurons.wf(),
            neurons.n() == n,
            day_phase_ok(before, external_input@, sifs_enabled),
            spec_day_frame(before, *neurons),
            new_voltages@.len() == n,
            forall|k: int|
                0 <= k < n ==> new_voltages@[k] == spec_next_voltage(
                    before,
                    k,
                    spec_input_at(external_input@, k),
                    sifs_enabled,
                ),
            forall|k: int|
                0 <= k < i ==> #[trigger] spec_day_neuron(
                    before,
                    *neurons,
                    k,
                    spec_input_at(external_input@, k),
                    sifs_enabled,
                    time_step,
                ),
            forall|k: int| i <= k < n ==> #[trigger] neurons.voltage@[k] == before.voltage@[k],
            forall|k: int|
                i <= k < n ==> #[trigger] neurons.refractory_timer@[k] == before.refractory_timer@[k],
            forall|k: int| i <= k < n ==> #[trigger] neurons.spike_count@[k] == before.spike_count@[k],
            forall|k: int|
                i <= k < n ==> #[trigger] neurons.last_spike_time@[k] == before.last_spike_time@[k],
            forall|a: int, b: int| 0 <= a < b < spikes@.len() ==> spikes@[a] < spikes@[b],
            forall|a: int| 0 <= a < spikes@.len() ==> #[trigger] spikes@[a] < i,
            forall|k: int|
                0 <= k < i ==> (spikes@.contains(k as usize) <==> spec_fires(
                    before,
                    k,
                    spec_input_at(external_input@, k),
                    sifs_enabled,
                )),
    {
        let ghost mid = *neurons;
        neurons.voltage[i] = new_voltages[i];
        if neurons.refractory_timer[i] > 0 {
            neurons.refractory_timer[i] = neurons.refractory_timer[i] - 1;
        }
        let ghost old_spikes = spikes@;
        if neurons.voltage[i] > neurons.threshold[i] && neurons.refractory_timer[i] == 0 {
            spikes.push(i);
            neurons.voltage[i] = 0;
            neurons.refractory_timer[i] = REFRACTORY_STEPS;
            neurons.spike_count[i] = neurons.spike_count[i] + 1;
            neurons.last_spike_time[i] = time_step;
            assert(spikes@[spikes@.len() - 1] == i);
        }
        assert forall|k: int| 0 <= k < i implies #[trigger] spec_day_neuron(
            before,
            *neurons,
            k,
            spec_input_at(external_input@, k),
            sifs_enabled,
            time_step,
        ) by {
            assert(spec_day_neuron(
                before,
                mid,
                k,
                spec_input_at(external_input@, k),
                sifs_enabled,
                time_step,
            ));
            assert(neurons.voltage@[k] == mid.voltage@[k]);
            assert(neurons.refractory_timer@[k] == mid.refractory_timer@[k]);
            assert(neurons.spike_count@[k] == mid.spike_count@[k]);
            assert(neurons.last_spike_time@[k] == mid.last_spike_time@[k]);
        }
        assert(spec_day_neuron(
            before,
            *neurons,
            i as int,
            spec_input_at(external_input@, i as int),
            sifs_enabled,
            time_step,
        ));
        assert forall|k: int|
            0 <= k < i + 1 implies (spikes@.contains(k as usize) <==> spec_fires(
                before,
                k,
                spec_input_at(external_input@, k),
                sifs_enabled,
            )) by {
            if k < i {
                if old_spikes.contains(k as usize) {
                    let q = choose|q: int| 0 <= q < old_spikes.len() && #[trigger] old_spikes[q] == k as usize;
                    assert(spikes@[q] == k as usize);
                }
                if spikes@.contains(k as usize) {
                    let q = choose|q: int| 0 <= q < spikes@.len() && #[trigger] spikes@[q] == k as usize;
                    assert(q < old_spikes.len());
                    assert(old_spikes[q] == k as usize);
                }
            } else {
                if spikes@.contains(k as usize) {
                    let q = choose|q: int| 0 <= q < spikes@.len() && #[trigger] spikes@[q] == k as usize;
                    assert(q == old_spikes.len());
                }
            }
        }
    }
    spikes
}


/// Rank of a synaptic weight on the inertia curve: `|w| >> 13`, at most 15.
pub open spec fn spec_inertia_rank(w: int) -> int {
    let a = if w < 0 { -w } else { w };
    if a / 8192 >= INERTIA_LEVELS as int { INERTIA_LEVELS as int - 1 } else { a / 8192 }
}

/// `x` clamped to `[lo, hi]`.
pub open spec fn spec_clamp(x: int, lo: int, hi: int) -> int {
    if x < lo { lo } else if x > hi { hi } else { x }
}

/// The new weight of a synapse of weight `w` for the Hebbian term `hebbian` and the
/// learning rate `eta` (all Q16.16): the change `eta * hebbian`, scaled by the inertia of
/// the weight's rank, is added and the weight is clamped to `[0, 2.0]`.
pub open spec fn spec_inertial_update(w: int, hebbian: int, eta: int) -> int {
    let delta = (eta * hebbian) / 65536;
    let scaled = (delta * INERTIA_CURVE[spec_inertia_rank(w)]) / 65536;
    spec_clamp(w + scaled, 0, 2 * FIXED_ONE)
}

proof fn lemma_hebbian_bounds(eta: i32, hebbian: i32, inertia: i32)
    requires
        0 <= inertia <= 65536,
    ensures
        i64::MIN <= eta * hebbian <= i64::MAX,
        -0x4000_0000_0000 <= (eta * hebbian) / 65536 <= 0x4000_0000_0000,
        i64::MIN <= ((eta * hebbian) / 65536) * inertia <= i64::MAX,
        -0x4000_0000_0000 <= (((eta * hebbian) / 65536) * inertia) / 65536 <= 0x4000_0000_0000,
{
    assert(-0x4000_0000_0000_0000 <= eta * hebbian <= 0x4000_0000_0000_0000) by (nonlinear_arith)
        requires
            i32::MIN <= eta <= i32::MAX,
            i32::MIN <= hebbian <= i32::MAX,
    ;
    let d = (eta * hebbian) / 65536;
    assert(-0x4000_0000_0000 <= d <= 0x4000_0000_0000);
    assert(-0x4000_0000_0000 * 65536 <= d * inertia <= 0x4000_0000_0000 * 65536) by (nonlinear_arith)
        requires
            -0x4000_0000_0000 <= d <= 0x4000_0000_0000,
            0 <= inertia <= 65536,
    ;
}

/// One Hebbian update of a synaptic weight with inertia: the change
/// `(eta * hebbian) >> 16`, scaled by the inertia `INERTIA_CURVE[min(|w| >> 13, 15)]`, is
/// added to `w_current` and the result clamped to `[0, 2.0]`.
pub fn inertial_weight_update(w_current: Fixed16, hebbian: Fixed16, eta: Fixed16) -> (w: Fixed16)
    ensures
        w as int == spec_inertial_update(w_current as int, hebbian as int, eta as int),
        0 <= w <= 2 * FIXED_ONE,
{
    proof {
        lemma_hebbian_bounds(eta, hebbian, 65536);
    }
    let product = eta as i64 * hebbian as i64;
    proof {
        lemma_shr16(product);
    }
    let hebbian_delta = product >> 16;
    let w_wide = w_current as i64;
    let abs_w: u64 = if w_wide < 0 { (-w_wide) as u64 } else { w_wide as u64 };
    let shifted = abs_w >> 13;
    assert(shifted == abs_w / 8192) by (bit_vector)
        requires
            shifted == abs_w >> 13,
    ;
    let rank: usize = if shifted >= INERTIA_LEVELS as u64 { INERTIA_LEVELS - 1 } else { shifted as usize };
    assert(INERTIA_CURVE[rank as int] >= 0 && INERTIA_CURVE[rank as int] <= 65536);
    let inertia = INERTIA_CURVE[rank] as i64;
    proof {
        lemma_hebbian_bounds(eta, hebbian, INERTIA_CURVE[rank as int]);
    }
    let scaled_product = hebbian_delta * inertia;
    proof {
        lemma_shr16(scaled_product);
    }
    let delta_scaled = scaled_product >> 16;
    let w_new = w_wide + delta_scaled;
    let two = 2 * FIXED_ONE as i64;
    let clamped = if w_new < 0 { 0 } else if w_new > two { two } else { w_new };
    clamped as Fixed16
}


/// The indices among `0..m` whose group (by `group_of`) is `group`, in increasing order.
pub open spec fn spec_members(group_of: spec_fn(int) -> int, group: int, m: nat) -> Seq<usize>
    decreases m,
{
    if m == 0 {
        Seq::empty()
    } else {
        let prev = spec_members(group_of, group, (m - 1) as nat);
        if group_of(m - 1) == group {
            prev.push((m - 1) as usize)
        } else {
            prev
        }
    }
}

/// `spec_members` lists, in increasing order and once each, exactly the indices below `m`
/// of the group.
pub proof fn lemma_members(group_of: spec_fn(int) -> int, group: int, m: nat)
    requires
        m <= usize::MAX + 1,
    ensures
        forall|a: int, b: int|
            0 <= a < b < spec_members(group_of, group, m).len() ==> spec_members(group_of, group, m)[a]
                < spec_members(group_of, group, m)[b],
        forall|x: usize|
            #[trigger] spec_members(group_of, group, m).contains(x) <==> (x < m && group_of(x as int)
                == group),
        forall|a: int|
            0 <= a < spec_members(group_of, group, m).len() ==> #[trigger] spec_members(
                group_of,
                group,
                m,
            )[a] < m,
    decreases m,
{
    if m > 0 {
        let prev = spec_members(group_of, group, (m - 1) as nat);
        lemma_members(group_of, group, (m - 1) as nat);
        let cur = spec_members(group_of, group, m);
        assert forall|x: usize| #[trigger] cur.contains(x) <==> (x < m && group_of(x as int) == group) by {
            assert(prev.contains(x) <==> (x < m - 1 && group_of(x as int) == group));
            if group_of(m - 1) == group {
                if x == m - 1 {
                    assert(cur[prev.len() as int] == x);
                }
                if cur.contains(x) && x != m - 1 {
                    let q = choose|q: int| 0 <= q < cur.len() && #[trigger] cur[q] == x;
                    assert(prev[q] == x);
                }
                if prev.contains(x) {
                    let q = choose|q: int| 0 <= q < prev.len() && #[trigger] prev[q] == x;
                    assert(cur[q] == x);
                }
            }
        }
    }
}

/// The neurons among the first `m` whose S-level (by the scale coordinates `s`) is
/// `level`, in increasing order.
pub open spec fn spec_level_members(s: Seq<i32>, level: int, m: nat) -> Seq<usize> {
    spec_members(|i: int| spec_s_level(s[i] as int), level, m)
}

/// Shard `k` of `after` is shard `k` of `before` holding exactly the neurons whose
/// S-level (by the scale coordinates `s`) is `k`, in increasing order.
pub open spec fn spec_regrouped(before: Seq<SIFSShard>, after: Seq<SIFSShard>, s: Seq<i32>) -> bool {
    &&& after.len() == before.len()
    &&& forall|k: int|
        0 <= k < after.len() ==> {
            &&& #[trigger] after[k].s_level == before[k].s_level
            &&& after[k].w_factor == before[k].w_factor
            &&& after[k].time_scale == before[k].time_scale
            &&& after[k].neurons@ == spec_level_members(s, k, s.len())
        }
}

/// Clears every shard and refills it with the neurons of its S-level.
fn regroup_by_s_level(s_coordinate: &Vec<Fixed16>, shards: &mut Vec<SIFSShard>)
    requires
        forall|i: int| 0 <= i < s_coordinate@.len() ==> spec_s_level(#[trigger] s_coordinate@[i] as int) < old(shards)@.len(),
    ensures
        spec_regrouped(old(shards)@, final(shards)@, s_coordinate@),
{
    let ghost before = shards@;
    let m = shards.len();
    for k in 0..m
        invariant
            m == before.len(),
            shards@.len() == m,
            forall|q: int| 0 <= q < m ==> #[trigger] shards@[q].s_level == before[q].s_level,
            forall|q: int| 0 <= q < m ==> #[trigger] shards@[q].w_factor == before[q].w_factor,
            forall|q: int| 0 <= q < m ==> #[trigger] shards@[q].time_scale == before[q].time_scale,
            forall|q: int| 0 <= q < k ==> #[trigger] shards@[q].neurons@ == Seq::<usize>::empty(),
    {
        let ghost prev = shards@;
        shards[k].neurons.clear();
        assert forall|q: int| 0 <= q < k + 1 implies #[trigger] shards@[q].neurons@ == Seq::<usize>::empty() by {
            if q < k {
                assert(shards@[q] == prev[q]);
                assert(prev[q].neurons@ == Seq::<usize>::empty());
            }
        }
    }
    let n = s_coordinate.len();
    for i in 0..n
        invariant
            n == s_coordinate@.len(),
            m == before.len(),
            shards@.len() == m,
            forall|j: int| 0 <= j < s_coordinate@.len() ==> spec_s_level(#[trigger] s_coordinate@[j] as int) < before.len(),
            forall|q: int| 0 <= q < m ==> #[trigger] shards@[q].s_level == before[q].s_level,
            forall|q: int| 0 <= q < m ==> #[trigger] shards@[q].w_factor == before[q].w_factor,
            forall|q: int| 0 <= q < m ==> #[trigger] shards@[q].time_scale == before[q].time_scale,
            forall|q: int|
                0 <= q < m ==> #[trigger] shards@[q].neurons@ == spec_level_members(
                    s_coordinate@,
                    q,
                    i as nat,
                ),
    {
        let level = s_level_of(s_coordinate[i]);
        assert(level < m);
        let ghost prev = shards@;
        shards[level].add_neuron(i);
        assert forall|q: int|
            0 <= q < m implies #[trigger] shards@[q].neurons@ == spec_level_members(
                s_coordinate@,
                q,
                (i + 1) as nat,
            ) by {
            assert(prev[q].neurons@ == spec_level_members(s_coordinate@, q, i as nat));
            if q != level {
                assert(shards@[q] == prev[q]);
            }
        }
    }
}


/// The spike count of neuron `j` as the night phase reads it while it updates neuron `i`:
/// zero for `j < i` (already reset), the count before the night phase otherwise.
pub open spec fn spec_post_count(before: NeuronArrays, i: int, j: int) -> u16 {
    if j < i { 0 } else { before.spike_count@[j] }
}

/// Synapse `k` of neuron `i` after the night phase, for the learning rate `eta` of `i`:
/// a synapse whose target `j` is a neuron gets the inertial Hebbian update for the term
/// that `hebbian` gives for the spike counts of `i` and of `j` (the count of `j` is
/// already zero when `j < i`); any other synapse keeps its weight.
pub open spec fn spec_synapse_after<H: Fn(u16, u16, usize) -> Fixed16>(
    before: NeuronArrays,
    after: NeuronArrays,
    i: int,
    k: int,
    eta: int,
    history_len: usize,
    hebbian: H,
) -> bool {
    let targets = before.dendrite_targets@[i]@;
    let w_old = before.synaptic_weights@[i]@[k] as int;
    let w_new = after.synaptic_weights@[i]@[k] as int;
    if k < targets.len() && targets[k] < before.n() {
        let j = targets[k] as int;
        exists|h: Fixed16|
            #[trigger] hebbian.ensures((before.spike_count@[i], spec_post_count(before, i, j), history_len), h) && w_new
                == spec_inertial_update(w_old, h as int, eta)
    } else {
        w_new == w_old
    }
}

/// Neuron `i` after the night phase: its scale coordinate moved by the activity delta that
/// `activity_delta` gives for its spike count and was clamped to `[0, 10.0]`; its level
/// weights are what `level_weights` gives for the new coordinate; its synapses were
/// updated with the learning rate that `learning_rate` gives for its new S-level and the
/// level weight there; its spike count is zero.
pub open spec fn spec_night_neuron<
    A: Fn(u16, usize) -> Fixed16,
    L: Fn(Fixed16) -> [Fixed16; SIFS_LEVELS],
    E: Fn(usize, Fixed16) -> Fixed16,
    H: Fn(u16, u16, usize) -> Fixed16,
>(
    before: NeuronArrays,
    after: NeuronArrays,
    i: int,
    history_len: usize,
    activity_delta: A,
    level_weights: L,
    learning_rate: E,
    hebbian: H,
) -> bool {
    let s_new = after.s_coordinate@[i];
    let row = after.sifs_weights@[i];
    let level = spec_s_level(s_new as int);
    &&& exists|d: Fixed16|
        #[trigger] activity_delta.ensures((before.spike_count@[i], history_len), d) && s_new == spec_clamp(
            before.s_coordinate@[i] + d,
            0,
            S_COORDINATE_MAX as int,
        )
    &&& level_weights.ensures((s_new,), row)
    &&& exists|eta: Fixed16|
        #[trigger] learning_rate.ensures((level as usize, row[level]), eta) && {
            &&& after.synaptic_weights@[i]@.len() == before.synaptic_weights@[i]@.len()
            &&& forall|k: int|
                0 <= k < before.synaptic_weights@[i]@.len() ==> #[trigger] spec_synapse_after(
                    before,
                    after,
                    i,
                    k,
                    eta as int,
                    history_len,
                    hebbian,
                )
        }
    &&& after.spike_count@[i] == 0
}

proof fn lemma_night_neuron_frame<
    A: Fn(u16, usize) -> Fixed16,
    L: Fn(Fixed16) -> [Fixed16; SIFS_LEVELS],
    E: Fn(usize, Fixed16) -> Fixed16,
    H: Fn(u16, u16, usize) -> Fixed16,
>(
    before: NeuronArrays,
    a1: NeuronArrays,
    a2: NeuronArrays,
    k: int,
    history_len: usize,
    activity_delta: A,
    level_weights: L,
    learning_rate: E,
    hebbian: H,
)
    requires
        spec_night_neuron(before, a1, k, history_len, activity_delta, level_weights, learning_rate, hebbian),
        a2.s_coordinate@[k] == a1.s_coordinate@[k],
        a2.sifs_weights@[k] == a1.sifs_weights@[k],
        a2.synaptic_weights@[k] == a1.synaptic_weights@[k],
        a2.spike_count@[k] == a1.spike_count@[k],
    ensures
        spec_night_neuron(before, a2, k, history_len, activity_delta, level_weights, learning_rate, hebbian),
{
    let row = a1.sifs_weights@[k];
    let level = spec_s_level(a1.s_coordinate@[k] as int);
    let eta = choose|eta: Fixed16|
        #[trigger] learning_rate.ensures((level as usize, row[level]), eta) && {
            &&& a1.synaptic_weights@[k]@.len() == before.synaptic_weights@[k]@.len()
            &&& forall|q: int|
                0 <= q < before.synaptic_weights@[k]@.len() ==> #[trigger] spec_synapse_after(
                    before,
                    a1,
                    k,
                    q,
                    eta as int,
                    history_len,
                    hebbian,
                )
        };
    assert forall|q: int|
        0 <= q < before.synaptic_weights@[k]@.len() implies #[trigger] spec_synapse_after(
            before,
            a2,
            k,
            q,
            eta as int,
            history_len,
            hebbian,
        ) by {
        assert(spec_synapse_after(before, a1, k, q, eta as int, history_len, hebbian));
    }
}

/// `after` and `after_shards` are the result of the night phase on `before` and
/// `before_shards` with a spike history of length `history_len` and the four kernels: the
/// day-step state and the wiring are unchanged, every neuron is updated as
/// `spec_night_neuron` says, and the shards are regrouped by the new S-levels.
pub open spec fn spec_night_step<
    A: Fn(u16, usize) -> Fixed16,
    L: Fn(Fixed16) -> [Fixed16; SIFS_LEVELS],
    E: Fn(usize, Fixed16) -> Fixed16,
    H: Fn(u16, u16, usize) -> Fixed16,
>(
    before: NeuronArrays,
    before_shards: Seq<SIFSShard>,
    after: NeuronArrays,
    after_shards: Seq<SIFSShard>,
    history_len: usize,
    activity_delta: A,
    level_weights: L,
    learning_rate: E,
    hebbian: H,
) -> bool {
    &&& after.wf()
    &&& after.n() == before.n()
    &&& after.voltage@ == before.voltage@
    &&& after.threshold@ == before.threshold@
    &&& after.sifs_thresholds@ == before.sifs_thresholds@
    &&& after.dendrite_targets@ == before.dendrite_targets@
    &&& after.last_spike_time@ == before.last_spike_time@
    &&& after.refractory_timer@ == before.refractory_timer@
    &&& forall|i: int|
        0 <= i < before.n() ==> #[trigger] spec_night_neuron(
            before,
            after,
            i,
            history_len,
            activity_delta,
            level_weights,
            learning_rate,
            hebbian,
        )
    &&& spec_regrouped(before_shards, after_shards, after.s_coordinate@)
}

/// The new scale coordinate of neuron `i` fits in `i32` and its S-level names a shard,
/// whatever delta `activity_delta` gives.
pub open spec fn night_phase_ok<A: Fn(u16, usize) -> Fixed16>(
    neurons: NeuronArrays,
    n_shards: int,
    history_len: usize,
    activity_delta: A,
) -> bool {
    forall|i: int, d: Fixed16|
        0 <= i < neurons.n() && #[trigger] activity_delta.ensures((neurons.spike_count@[i], history_len), d) ==> {
            &&& i32::MIN <= neurons.s_coordinate@[i] + d <= i32::MAX
            &&& spec_s_level(spec_clamp(neurons.s_coordinate@[i] + d, 0, S_COORDINATE_MAX as int))
                < n_shards
        }
}

/// The spike count of neuron `i` after a day step for the input vector `input`.
pub open spec fn spec_count_after_day(neurons: NeuronArrays, i: int, input: Seq<i32>, sifs_enabled: bool) -> u16 {
    if spec_fires(neurons, i, spec_input_at(input, i), sifs_enabled) {
        (neurons.spike_count@[i] + 1) as u16
    } else {
        neurons.spike_count@[i]
    }
}

/// A night phase right after the day step of `neurons` for `input` stays in range: for
/// every neuron, whatever delta `activity_delta` gives for its spike count after the day
/// step and the history length `history_len`, the new scale coordinate fits in `i32` and
/// its S-level names one of `n_shards` shards.
pub open spec fn night_after_day_ok<A: Fn(u16, usize) -> Fixed16>(
    neurons: NeuronArrays,
    input: Seq<i32>,
    sifs_enabled: bool,
    n_shards: int,
    history_len: usize,
    activity_delta: A,
) -> bool {
    forall|i: int, d: Fixed16|
        0 <= i < neurons.n() && #[trigger] activity_delta.ensures(
            (spec_count_after_day(neurons, i, input, sifs_enabled), history_len),
            d,
        ) ==> {
            &&& i32::MIN <= neurons.s_coordinate@[i] + d <= i32::MAX
            &&& spec_s_level(spec_clamp(neurons.s_coordinate@[i] + d, 0, S_COORDINATE_MAX as int))
                < n_shards
        }
}

/// After a day step the night phase may run exactly when `night_after_day_ok` held before
/// it.
pub proof fn lemma_night_ok_after_day<A: Fn(u16, usize) -> Fixed16>(
    before: NeuronArrays,
    after: NeuronArrays,
    input: Seq<i32>,
    sifs_enabled: bool,
    time_step: u32,
    spikes: Seq<usize>,
    n_shards: int,
    history_len: usize,
    activity_delta: A,
)
    requires
        day_phase_ok(before, input, sifs_enabled),
        spec_day_step(before, after, input, sifs_enabled, time_step, spikes),
    ensures
        night_phase_ok(after, n_shards, history_len, activity_delta) == night_after_day_ok(
            before,
            input,
            sifs_enabled,
            n_shards,
            history_len,
            activity_delta,
        ),
{
    assert forall|i: int| 0 <= i < before.n() implies #[trigger] after.spike_count@[i] == spec_count_after_day(
        before,
        i,
        input,
        sifs_enabled,
    ) && after.s_coordinate@[i] == before.s_coordinate@[i] by {
        assert(spec_day_neuron(before, after, i, spec_input_at(input, i), sifs_enabled, time_step));
    }
    if night_after_day_ok(before, input, sifs_enabled, n_shards, history_len, activity_delta) {
        assert forall|i: int, d: Fixed16|
            0 <= i < after.n() && #[trigger] activity_delta.ensures((after.spike_count@[i], history_len), d) implies {
                &&& i32::MIN <= after.s_coordinate@[i] + d <= i32::MAX
                &&& spec_s_level(spec_clamp(after.s_coordinate@[i] + d, 0, S_COORDINATE_MAX as int)) < n_shards
            } by {
            assert(after.spike_count@[i] == spec_count_after_day(before, i, input, sifs_enabled));
            assert(activity_delta.ensures((spec_count_after_day(before, i, input, sifs_enabled), history_len), d));
        }
    }
    if night_phase_ok(after, n_shards, history_len, activity_delta) {
        assert forall|i: int, d: Fixed16|
            0 <= i < before.n() && #[trigger] activity_delta.ensures(
                (spec_count_after_day(before, i, input, sifs_enabled), history_len),
                d,
            ) implies {
                &&& i32::MIN <= before.s_coordinate@[i] + d <= i32::MAX
                &&& spec_s_level(spec_clamp(before.s_coordinate@[i] + d, 0, S_COORDINATE_MAX as int)) < n_shards
            } by {
            assert(after.spike_count@[i] == spec_count_after_day(before, i, input, sifs_enabled));
            assert(activity_delta.ensures((after.spike_count@[i], history_len), d));
        }
    }
}

/// Whether a night phase right after the day step of `neurons` for `input` stays in range
/// (`night_after_day_ok`), for a kernel `activity_delta` that gives one delta per spike
/// count and history length.
pub fn night_after_day_inputs_ok<A: Fn(u16, usize) -> Fixed16>(
    neurons: &NeuronArrays,
    input: &[Fixed16],
    sifs_enabled: bool,
    n_shards: usize,
    history_len: usize,
    activity_delta: &A,
) -> (ok: bool)
    requires
        neurons.wf(),
        day_phase_ok(*neurons, input@, sifs_enabled),
        forall|c: u16, h: usize| activity_delta.requires((c, h)),
        forall|c: u16, h: usize, d1: Fixed16, d2: Fixed16|
            activity_delta.ensures((c, h), d1) && activity_delta.ensures((c, h), d2) ==> d1 == d2,
    ensures
        ok == night_after_day_ok(*neurons, input@, sifs_enabled, n_shards as int, history_len, *activity_delta),
{
    let n = neurons.len();
    for i in 0..n
        invariant
            neurons.wf(),
            n == neurons.n(),
            day_phase_ok(*neurons, input@, sifs_enabled),
            forall|c: u16, h: usize| activity_delta.requires((c, h)),
            forall|c: u16, h: usize, d1: Fixed16, d2: Fixed16|
                activity_delta.ensures((c, h), d1) && activity_delta.ensures((c, h), d2) ==> d1 == d2,
            forall|k: int, d: Fixed16|
                0 <= k < i && #[trigger] activity_delta.ensures(
                    (spec_count_after_day(*neurons, k, input@, sifs_enabled), history_len),
                    d,
                ) ==> {
                    &&& i32::MIN <= neurons.s_coordinate@[k] + d <= i32::MAX
                    &&& spec_s_level(spec_clamp(neurons.s_coordinate@[k] + d, 0, S_COORDINATE_MAX as int))
                        < n_shards
                },
    {
        let ghost input_i = spec_input_at(input@, i as int);
        assert(voltage_update_ok(*neurons, i as int, input_i, sifs_enabled));
        let v_new = next_voltage(neurons, i, input, sifs_enabled);
        let timer = neurons.refractory_timer[i];
        let timer_after = if timer > 0 { timer - 1 } else { timer };
        let fires = v_new > neurons.threshold[i] && timer_after == 0;
        assert(fires == spec_fires(*neurons, i as int, input_i, sifs_enabled));
        let count = if fires { neurons.spike_count[i] + 1 } else { neurons.spike_count[i] };
        assert(count == spec_count_after_day(*neurons, i as int, input@, sifs_enabled));
        let d = activity_delta(count, history_len);
        let s_sum = neurons.s_coordinate[i] as i64 + d as i64;
        if s_sum < i32::MIN as i64 || s_sum > i32::MAX as i64 {
            return false;
        }
        let s_new: Fixed16 = if s_sum < 0 {
            0
        } else if s_sum > S_COORDINATE_MAX as i64 {
            S_COORDINATE_MAX
        } else {
            s_sum as Fixed16
        };
        if s_level_of(s_new) >= n_shards {
            return false;
        }
    }
    true
}

/// Whether the night phase on `neurons` with `n_shards` shards and a history of length
/// `history_len` stays in range (`night_phase_ok`), for a kernel `activity_delta` that
/// gives one delta per spike count and history length.
pub fn night_phase_inputs_ok<A: Fn(u16, usize) -> Fixed16>(
    neurons: &NeuronArrays,
    n_shards: usize,
    history_len: usize,
    activity_delta: &A,
) -> (ok: bool)
    requires
        neurons.wf(),
        forall|c: u16, h: usize| activity_delta.requires((c, h)),
        forall|c: u16, h: usize, d1: Fixed16, d2: Fixed16|
            activity_delta.ensures((c, h), d1) && activity_delta.ensures((c, h), d2) ==> d1 == d2,
    ensures
        ok == night_phase_ok(*neurons, n_shards as int, history_len, *activity_delta),
{
    let n = neurons.len();
    for i in 0..n
        invariant
            neurons.wf(),
            n == neurons.n(),
            forall|c: u16, h: usize| activity_delta.requires((c, h)),
            forall|c: u16, h: usize, d1: Fixed16, d2: Fixed16|
                activity_delta.ensures((c, h), d1) && activity_delta.ensures((c, h), d2) ==> d1 == d2,
            forall|k: int, d: Fixed16|
                0 <= k < i && #[trigger] activity_delta.ensures((neurons.spike_count@[k], history_len), d) ==> {
                    &&& i32::MIN <= neurons.s_coordinate@[k] + d <= i32::MAX
                    &&& spec_s_level(spec_clamp(neurons.s_coordinate@[k] + d, 0, S_COORDINATE_MAX as int))
                        < n_shards
                },
    {
        let d = activity_delta(neurons.spike_count[i], history_len);
        let s_sum = neurons.s_coordinate[i] as i64 + d as i64;
        if s_sum < i32::MIN as i64 || s_sum > i32::MAX as i64 {
            return false;
        }
        let s_new: Fixed16 = if s_sum < 0 {
            0
        } else if s_sum > S_COORDINATE_MAX as i64 {
            S_COORDINATE_MAX
        } else {
            s_sum as Fixed16
        };
        if s_level_of(s_new) >= n_shards {
            return false;
        }
    }
    true
}

/// The night phase (structural plasticity), with `h` the length of `spike_history`. For
/// each neuron `i` in turn: its scale coordinate moves by
/// `activity_delta(spike_count[i], h)` and is clamped to `[0, 10.0]`; its level weights
/// become `level_weights(s)`; with the learning rate `learning_rate(s_level, W(s_level))`
/// each synapse `i -> j` to a neuron `j` gets the Hebbian term
/// `hebbian(spike_count[i], spike_count[j], h)` times the learning rate, scaled by the
/// inertia of its weight, the weight clamped to `[0, 2.0]`; its spike count is reset. Then
/// every shard is refilled with the neurons of its S-level.
///
/// The four kernels carry the floating-point part of the rule (the activity, reward
/// modulation and exponentials); this function is verified for whatever they return.
pub fn night_phase_plasticity<A, L, E, H>(
    neurons: &mut NeuronArrays,
    shards: &mut Vec<SIFSShard>,
    spike_history: &[Vec<usize>],
    activity_delta: A,
    level_weights: L,
    learning_rate: E,
    hebbian: H,
) where
    A: Fn(u16, usize) -> Fixed16,
    L: Fn(Fixed16) -> [Fixed16; SIFS_LEVELS],
    E: Fn(usize, Fixed16) -> Fixed16,
    H: Fn(u16, u16, usize) -> Fixed16,

    requires
        old(neurons).wf(),
        forall|c: u16, h: usize| activity_delta.requires((c, h)),
        forall|s: Fixed16| level_weights.requires((s,)),
        forall|l: usize, w: Fixed16| learning_rate.requires((l, w)),
        forall|pre: u16, post: u16, h: usize| hebbian.requires((pre, post, h)),
        night_phase_ok(*old(neurons), old(shards)@.len() as int, spike_history@.len() as usize, activity_delta),
    ensures
        final(neurons).wf(),
        final(neurons).n() == old(neurons).n(),
        final(neurons).voltage@ == old(neurons).voltage@,
        final(neurons).threshold@ == old(neurons).threshold@,
        final(neurons).sifs_thresholds@ == old(neurons).sifs_thresholds@,
        final(neurons).dendrite_targets@ == old(neurons).dendrite_targets@,
        final(neurons).last_spike_time@ == old(neurons).last_spike_time@,
        final(neurons).refractory_timer@ == old(neurons).refractory_timer@,
        forall|i: int|
            0 <= i < old(neurons).n() ==> #[trigger] spec_night_neuron(
                *old(neurons),
                *final(neurons),
                i,
                spike_history@.len() as usize,
                activity_delta,
                level_weights,
                learning_rate,
                hebbian,
            ),
        spec_regrouped(old(shards)@, final(shards)@, final(neurons).s_coordinate@),
{
    let ghost before = *neurons;
    let history_len = spike_history.len();
    let n = neurons.len();
    for i in 0..n
        invariant
            n == before.n(),
            neurons.wf(),
            neurons.n() == n,
            before.wf(),
            forall|c: u16, h: usize| activity_delta.requires((c, h)),
            forall|s: Fixed16| level_weights.requires((s,)),
            forall|l: usize, w: Fixed16| learning_rate.requires((l, w)),
            forall|pre: u16, post: u16, h: usize| hebbian.requires((pre, post, h)),
            night_phase_ok(before, shards@.len() as int, history_len, activity_delta),
            history_len == spike_history@.len(),
            neurons.voltage@ == before.voltage@,
            neurons.threshold@ == before.threshold@,
            neurons.sifs_thresholds@ == before.sifs_thresholds@,
            neurons.dendrite_targets@ == before.dendrite_targets@,
            neurons.last_spike_time@ == before.last_spike_time@,
            neurons.refractory_timer@ == before.refractory_timer@,
            forall|k: int|
                0 <= k < i ==> #[trigger] spec_night_neuron(
                    before,
                    *neurons,
                    k,
                    history_len,
                    activity_delta,
                    level_weights,
                    learning_rate,
                    hebbian,
                ),
            forall|k: int| 0 <= k < i ==> spec_s_level(#[trigger] neurons.s_coordinate@[k] as int) < shards@.len(),
            forall|k: int| 0 <= k < i ==> #[trigger] neurons.spike_count@[k] == 0,
            forall|k: int| i <= k < n ==> #[trigger] neurons.s_coordinate@[k] == before.s_coordinate@[k],
            forall|k: int| i <= k < n ==> #[trigger] neurons.sifs_weights@[k] == before.sifs_weights@[k],
            forall|k: int|
                i <= k < n ==> #[trigger] neurons.synaptic_weights@[k] == before.synaptic_weights@[k],
            forall|k: int| i <= k < n ==> #[trigger] neurons.spike_count@[k] == before.spike_count@[k],
    {
        let ghost mid = *neurons;
        let pre = neurons.spike_count[i];
        let delta = activity_delta(pre, history_len);
        let s_sum = neurons.s_coordinate[i] + delta;
        let s_new = if s_sum < 0 { 0 } else if s_sum > S_COORDINATE_MAX { S_COORDINATE_MAX } else { s_sum };
        neurons.s_coordinate[i] = s_new;
        let row = level_weights(s_new);
        neurons.sifs_weights[i] = row;
        let level = s_level_of(s_new);
        let eta = learning_rate(level, row[level]);
        let ghost row_start = *neurons;
        let targets_len = neurons.dendrite_targets[i].len();
        for k in 0..targets_len
            invariant
                n == before.n(),
                i < n,
                neurons.wf(),
                neurons.n() == n,
                before.wf(),
                forall|pre2: u16, post2: u16, h2: usize| hebbian.requires((pre2, post2, h2)),
                targets_len == before.dendrite_targets@[i as int]@.len(),
                pre == before.spike_count@[i as int],
                neurons.voltage@ == row_start.voltage@,
                neurons.threshold@ == row_start.threshold@,
                neurons.sifs_thresholds@ == row_start.sifs_thresholds@,
                neurons.dendrite_targets@ == before.dendrite_targets@,
                neurons.last_spike_time@ == row_start.last_spike_time@,
                neurons.refractory_timer@ == row_start.refractory_timer@,
                neurons.s_coordinate@ == row_start.s_coordinate@,
                neurons.sifs_weights@ == row_start.sifs_weights@,
                neurons.spike_count@ == row_start.spike_count@,
                forall|q: int|
                    0 <= q < n && q != i ==> #[trigger] neurons.synaptic_weights@[q]
                        == row_start.synaptic_weights@[q],
                row_start.synaptic_weights@[i as int] == before.synaptic_weights@[i as int],
                neurons.synaptic_weights@[i as int]@.len() == before.synaptic_weights@[i as int]@.len(),
                forall|q: int|
                    0 <= q < n && q < i ==> #[trigger] row_start.spike_count@[q] == 0,
                forall|q: int|
                    i <= q < n ==> #[trigger] row_start.spike_count@[q] == before.spike_count@[q],
                forall|q: int|
                    0 <= q < k && q < before.synaptic_weights@[i as int]@.len() ==> #[trigger] spec_synapse_after(
                        before,
                        *neurons,
                        i as int,
                        q,
                        eta as int,
                        history_len,
                        hebbian,
                    ),
                forall|q: int|
                    k <= q < before.synaptic_weights@[i as int]@.len() ==> #[trigger] neurons.synaptic_weights@[i as int]@[q]
                        == before.synaptic_weights@[i as int]@[q],
        {
            let ghost inner = *neurons;
            let j = neurons.dendrite_targets[i][k];
            if j < n && k < neurons.synaptic_weights[i].len() {
                let post = neurons.spike_count[j];
                assert(post == spec_post_count(before, i as int, j as int));
                let h = hebbian(pre, post, history_len);
                let w = inertial_weight_update(neurons.synaptic_weights[i][k], h, eta);
                neurons.synaptic_weights[i][k] = w;
                assert(spec_synapse_after(before, *neurons, i as int, k as int, eta as int, history_len, hebbian));
            }
            assert forall|q: int|
                0 <= q < k + 1 && q < before.synaptic_weights@[i as int]@.len() implies #[trigger] spec_synapse_after(
                    before,
                    *neurons,
                    i as int,
                    q,
                    eta as int,
                    history_len,
                    hebbian,
                ) by {
                if q < k {
                    assert(spec_synapse_after(before, inner, i as int, q, eta as int, history_len, hebbian));
                    assert(neurons.synaptic_weights@[i as int]@[q] == inner.synaptic_weights@[i as int]@[q]);
                }
            }
        }
        let ghost inner_end = *neurons;
        neurons.spike_count[i] = 0;
        proof {
            let fin = *neurons;
            assert(activity_delta.ensures((before.spike_count@[i as int], history_len), delta));
            assert(fin.s_coordinate@[i as int] == spec_clamp(
                before.s_coordinate@[i as int] + delta,
                0,
                S_COORDINATE_MAX as int,
            ));
            assert(fin.sifs_weights@[i as int] == row);
            assert(level_weights.ensures((s_new,), row));
            assert(learning_rate.ensures((spec_s_level(s_new as int) as usize, row[spec_s_level(s_new as int)]), eta));
            assert(fin.synaptic_weights@[i as int] == inner_end.synaptic_weights@[i as int]);
            assert forall|q: int|
                0 <= q < before.synaptic_weights@[i as int]@.len() implies #[trigger] spec_synapse_after(
                    before,
                    fin,
                    i as int,
                    q,
                    eta as int,
                    history_len,
                    hebbian,
                ) by {
                assert(spec_synapse_after(before, inner_end, i as int, q, eta as int, history_len, hebbian));
            }
        }
        assert(spec_night_neuron(before, *neurons, i as int, history_len, activity_delta, level_weights, learning_rate, hebbian));
        assert forall|k: int| 0 <= k < i implies #[trigger] spec_night_neuron(
            before,
            *neurons,
            k,
            history_len,
            activity_delta,
            level_weights,
            learning_rate,
            hebbian,
        ) by {
            lemma_night_neuron_frame(before, mid, *neurons, k, history_len, activity_delta, level_weights, learning_rate, hebbian);
        }
    }
    regroup_by_s_level(&neurons.s_coordinate, shards);
}

} // verus!
