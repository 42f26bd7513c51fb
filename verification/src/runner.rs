//! The brain runner: the network, its S-level shards, the spike history and the day-step
//! clock, with the schedule of the night phase.

use vstd::prelude::*;

use crate::constants::SIFS_LEVELS;
use crate::fixed::{Fixed16, DEFAULT_LEVEL_THRESHOLDS};
use crate::neuron::{
    spec_default_level_weights, spec_ring_targets, NeuronArrays, SIFSShard, OUT_DEGREE,
};
use crate::phase::{
    day_phase_inputs_ok, day_phase_ok, day_phase_step, lemma_night_ok_after_day,
    night_after_day_inputs_ok, night_after_day_ok, night_phase_ok, night_phase_plasticity, spec_day_frame,
    spec_day_neuron, spec_day_step, spec_history_after, spec_input_at, spec_members,
    spec_night_step, spec_spike_list,
};

verus! {

/// The integer part of the brain configuration.
#[derive(Debug, Clone, Copy)]
pub struct BrainConfig {
    /// Number of neurons.
    pub n_neurons: usize,
    /// A night phase runs every `night_interval` day steps; also the length of the spike
    /// history.
    pub night_interval: usize,
    /// Day steps per observation.
    pub steps_per_observation: u32,
    /// Whether the SIFS current drives the neurons (off for the on/off experiment).
    pub sifs_enabled: bool,
    /// Whether the readout pool weights learn from the reward.
    pub trainable_readout: bool,
}

impl Default for BrainConfig {
    /// 1000 neurons, a night phase every 500 steps, one step per observation, SIFS on,
    /// fixed readout.
    fn default() -> (config: Self)
        ensures
            config.n_neurons == 1000,
            config.night_interval == 500,
            config.steps_per_observation == 1,
            config.sifs_enabled,
            !config.trainable_readout,
    {
        BrainConfig {
            n_neurons: 1000,
            night_interval: 500,
            steps_per_observation: 1,
            sifs_enabled: true,
            trainable_readout: false,
        }
    }
}

/// The initial shard of neuron `i` of `n`: `min(i * 10 / n, 9)`, ten equal blocks.
pub open spec fn spec_initial_block(n: int, i: int) -> int {
    if (i * SIFS_LEVELS as int) / n >= SIFS_LEVELS as int {
        SIFS_LEVELS as int - 1
    } else {
        (i * SIFS_LEVELS as int) / n
    }
}

/// The initial shard of neuron `i` of `n`: `min(i * 10 / n, 9)`.
pub fn initial_block(n: usize, i: usize) -> (level: usize)
    requires
        i < n,
        n <= usize::MAX / SIFS_LEVELS,
    ensures
        level == spec_initial_block(n as int, i as int),
        level < SIFS_LEVELS,
{
    let scaled = i * SIFS_LEVELS / n;
    if scaled >= SIFS_LEVELS { SIFS_LEVELS - 1 } else { scaled }
}

/// Length of the spike history after a day step appends to a history of length `len`
/// that keeps at most `limit` entries.
pub open spec fn spec_history_len_after(len: int, limit: int) -> int {
    if len + 1 > limit {
        len
    } else {
        len + 1
    }
}

/// The brain: network state, shards, the recent spike trains and the day-step clock.
pub struct BrainRunner {
    /// The neurons.
    pub neurons: NeuronArrays,
    /// One shard per S-level.
    pub shards: Vec<SIFSShard>,
    /// Spike lists of the last day steps, oldest first.
    pub spike_history: Vec<Vec<usize>>,
    /// Number of day steps run.
    pub time_step: u32,
    /// The configuration.
    pub config: BrainConfig,
    /// The action of the last observation (0 = left pool, 1 = right pool).
    pub last_action: u32,
}

impl BrainRunner {
    /// A fresh brain for `config`: a new network with scale coordinates `s_coordinate`,
    /// its base threshold set to `v0_fixed` and its level thresholds to
    /// `level_thresholds`; ten shards, neuron `i` in shard `min(i * 10 / n, 9)`; empty
    /// history, clock at zero, last action 0.
    pub fn new(
        config: BrainConfig,
        s_coordinate: Vec<Fixed16>,
        v0_fixed: Fixed16,
        level_thresholds: [Fixed16; SIFS_LEVELS],
    ) -> (runner: Self)
        requires
            s_coordinate@.len() == config.n_neurons,
            config.n_neurons <= usize::MAX / SIFS_LEVELS,
        ensures
            runner.config == config,
            runner.neurons.wf(),
            runner.neurons.n() == config.n_neurons,
            runner.neurons.s_coordinate@ == s_coordinate@,
            forall|i: int|
                #![trigger runner.neurons.voltage@[i]]
                0 <= i < config.n_neurons ==> {
                    &&& runner.neurons.voltage@[i] == 0
                    &&& runner.neurons.threshold@[i] == v0_fixed
                    &&& runner.neurons.spike_count@[i] == 0
                    &&& runner.neurons.sifs_weights@[i]@ == spec_default_level_weights()
                    &&& runner.neurons.sifs_thresholds@[i] == level_thresholds
                    &&& runner.neurons.dendrite_targets@[i]@ == spec_ring_targets(
                        i,
                        config.n_neurons as int,
                    )
                    &&& runner.neurons.synaptic_weights@[i]@ == Seq::new(
                        OUT_DEGREE as nat,
                        |d: int| crate::fixed::FIXED_ONE,
                    )
                    &&& runner.neurons.last_spike_time@[i] == 0
                    &&& runner.neurons.refractory_timer@[i] == 0
                },
            runner.shards@.len() == SIFS_LEVELS,
            forall|k: int|
                0 <= k < SIFS_LEVELS ==> {
                    &&& #[trigger] runner.shards@[k].s_level == k
                    &&& runner.shards@[k].neurons@ == spec_members(
                        |i: int| spec_initial_block(config.n_neurons as int, i),
                        k,
                        config.n_neurons as nat,
                    )
                },
            runner.spike_history@.len() == 0,
            runner.time_step == 0,
            runner.last_action == 0,
    {
        let n = config.n_neurons;
        let mut neurons = NeuronArrays::new(n, s_coordinate);
        let ghost fresh = neurons;
        neurons.set_v0(v0_fixed, level_thresholds);
        assert forall|i: int| 0 <= i < n implies #[trigger] neurons.voltage@[i] == 0
            && neurons.threshold@[i] == v0_fixed && neurons.sifs_thresholds@[i] == level_thresholds
            && neurons.spike_count@[i] == 0 && neurons.refractory_timer@[i] == 0
            && neurons.last_spike_time@[i] == 0
            && neurons.sifs_weights@[i]@ == spec_default_level_weights()
            && neurons.dendrite_targets@[i]@ == spec_ring_targets(i, n as int)
            && neurons.synaptic_weights@[i]@ == Seq::new(OUT_DEGREE as nat, |d: int| crate::fixed::FIXED_ONE) by {
            assert(fresh.voltage@[i] == 0);
        }
        let mut shards: Vec<SIFSShard> = Vec::new();
        for k in 0..SIFS_LEVELS
            invariant
                shards@.len() == k,
                forall|q: int| 0 <= q < k ==> #[trigger] shards@[q].s_level == q,
                forall|q: int| 0 <= q < k ==> #[trigger] shards@[q].neurons@ == Seq::<usize>::empty(),
        {
            shards.push(SIFSShard::new(k));
        }
        let ghost block = |i: int| spec_initial_block(n as int, i);
        assert forall|q: int| 0 <= q < SIFS_LEVELS implies #[trigger] shards@[q].neurons@ == spec_members(
            block,
            q,
            0,
        ) by {}
        for i in 0..n
            invariant
                n <= usize::MAX / SIFS_LEVELS,
                shards@.len() == SIFS_LEVELS,
                block == (|i: int| spec_initial_block(n as int, i)),
                forall|q: int| 0 <= q < SIFS_LEVELS ==> #[trigger] shards@[q].s_level == q,
                forall|q: int|
                    0 <= q < SIFS_LEVELS ==> #[trigger] shards@[q].neurons@ == spec_members(
                        block,
                        q,
                        i as nat,
                    ),
        {
            let level = initial_block(n, i);
            shards[level].add_neuron(i);
        }
        BrainRunner {
            neurons,
            shards,
            spike_history: Vec::new(),
            time_step: 0,
            config,
            last_action: 0,
        }
    }

    /// One day step of the brain for the Q16.16 input `input_fixed`: the day phase at the
    /// current clock, the clock advances, the spikes join the history (which keeps the last
    /// `night_interval` entries). Returns the spikes and whether a night phase is due (the
    /// clock is a multiple of `night_interval`).
    pub fn day_tick(&mut self, input_fixed: &[Fixed16]) -> (result: (Vec<usize>, bool))
        requires
            old(self).neurons.wf(),
            day_phase_ok(old(self).neurons, input_fixed@, old(self).config.sifs_enabled),
            old(self).time_step < u32::MAX,
            old(self).config.night_interval > 0,
        ensures
            final(self).neurons.wf(),
            final(self).neurons.n() == old(self).neurons.n(),
            spec_day_frame(old(self).neurons, final(self).neurons),
            forall|i: int|
                0 <= i < old(self).neurons.n() ==> #[trigger] spec_day_neuron(
                    old(self).neurons,
                    final(self).neurons,
                    i,
                    spec_input_at(input_fixed@, i),
                    old(self).config.sifs_enabled,
                    old(self).time_step,
                ),
            spec_spike_list(old(self).neurons, input_fixed@, old(self).config.sifs_enabled, result.0@),
            final(self).time_step == old(self).time_step + 1,
            final(self).spike_history@.map_values(|v: Vec<usize>| v@) == spec_history_after(
                old(self).spike_history@,
                result.0@,
                old(self).config.night_interval as int,
            ),
            result.1 == (final(self).time_step as int % old(self).config.night_interval as int == 0),
            final(self).shards@ == old(self).shards@,
            final(self).config == old(self).config,
            final(self).last_action == old(self).last_action,
    {
        let spikes = day_phase_step(
            &mut self.neurons,
            &self.shards,
            self.time_step,
            input_fixed,
            self.config.sifs_enabled,
        );
        self.time_step = self.time_step + 1;
        let record = spikes.clone();
        assert(record@ =~= spikes@);
        let ghost old_history = self.spike_history@;
        self.spike_history.push(record);
        assert(self.spike_history@.map_values(|v: Vec<usize>| v@) =~= old_history.map_values(
            |v: Vec<usize>| v@,
        ).push(spikes@));
        if self.spike_history.len() > self.config.night_interval {
            let ghost pushed = self.spike_history@;
            self.spike_history.remove(0);
            assert(self.spike_history@.map_values(|v: Vec<usize>| v@) =~= pushed.map_values(
                |v: Vec<usize>| v@,
            ).drop_first());
        }
        let night_due = self.time_step as usize % self.config.night_interval == 0 && self.time_step > 0;
        (spikes, night_due)
    }

    /// The night phase on the brain's neurons and shards with its spike history and the
    /// four kernels (see `night_phase_plasticity`).
    pub fn night_phase<A, L, E, H>(&mut self, activity_delta: A, level_weights: L, learning_rate: E, hebbian: H) where
        A: Fn(u16, usize) -> Fixed16,
        L: Fn(Fixed16) -> [Fixed16; SIFS_LEVELS],
        E: Fn(usize, Fixed16) -> Fixed16,
        H: Fn(u16, u16, usize) -> Fixed16,

        requires
            old(self).neurons.wf(),
            forall|c: u16, h: usize| activity_delta.requires((c, h)),
            forall|s: Fixed16| level_weights.requires((s,)),
            forall|l: usize, w: Fixed16| learning_rate.requires((l, w)),
            forall|pre: u16, post: u16, h: usize| hebbian.requires((pre, post, h)),
            night_phase_ok(
                old(self).neurons,
                old(self).shards@.len() as int,
                old(self).spike_history@.len() as usize,
                activity_delta,
            ),
        ensures
            spec_night_step(
                old(self).neurons,
                old(self).shards@,
                final(self).neurons,
                final(self).shards@,
                old(self).spike_history@.len() as usize,
                activity_delta,
                level_weights,
                learning_rate,
                hebbian,
            ),
            final(self).spike_history@ == old(self).spike_history@,
            final(self).time_step == old(self).time_step,
            final(self).config == old(self).config,
            final(self).last_action == old(self).last_action,
    {
        night_phase_plasticity(
            &mut self.neurons,
            &mut self.shards,
            self.spike_history.as_slice(),
            activity_delta,
            level_weights,
            learning_rate,
            hebbian,
        );
    }

    /// The night phase on demand (the end of an episode): runs only when there is a spike
    /// history; an empty history leaves the brain unchanged.
    pub fn trigger_night_phase<A, L, E, H>(
        &mut self,
        activity_delta: A,
        level_weights: L,
        learning_rate: E,
        hebbian: H,
    ) where
        A: Fn(u16, usize) -> Fixed16,
        L: Fn(Fixed16) -> [Fixed16; SIFS_LEVELS],
        E: Fn(usize, Fixed16) -> Fixed16,
        H: Fn(u16, u16, usize) -> Fixed16,

        requires
            old(self).neurons.wf(),
            forall|c: u16, h: usize| activity_delta.requires((c, h)),
            forall|s: Fixed16| level_weights.requires((s,)),
            forall|l: usize, w: Fixed16| learning_rate.requires((l, w)),
            forall|pre: u16, post: u16, h: usize| hebbian.requires((pre, post, h)),
            old(self).spike_history@.len() > 0 ==> night_phase_ok(
                old(self).neurons,
                old(self).shards@.len() as int,
                old(self).spike_history@.len() as usize,
                activity_delta,
            ),
        ensures
            old(self).spike_history@.len() == 0 ==> *final(self) == *old(self),
            old(self).spike_history@.len() > 0 ==> spec_night_step(
                old(self).neurons,
                old(self).shards@,
                final(self).neurons,
                final(self).shards@,
                old(self).spike_history@.len() as usize,
                activity_delta,
                level_weights,
                learning_rate,
                hebbian,
            ),
            final(self).spike_history@ == old(self).spike_history@,
            final(self).time_step == old(self).time_step,
            final(self).config == old(self).config,
            final(self).last_action == old(self).last_action,
    {
        if self.spike_history.len() > 0 {
            self.night_phase(activity_delta, level_weights, learning_rate, hebbian);
        }
    }

    /// Whether a tick of the brain for the Q16.16 input `input_fixed` stays in range
    /// (`tick_ok`), for a kernel `activity_delta` that gives one delta per spike count and
    /// history length.
    pub fn tick_inputs_ok<A: Fn(u16, usize) -> Fixed16>(&self, input_fixed: &[Fixed16], activity_delta: &A) -> (ok: bool)
        requires
            self.neurons.wf(),
            forall|c: u16, h: usize| activity_delta.requires((c, h)),
            forall|c: u16, h: usize, d1: Fixed16, d2: Fixed16|
                activity_delta.ensures((c, h), d1) && activity_delta.ensures((c, h), d2) ==> d1 == d2,
        ensures
            ok == tick_ok(*self, input_fixed@, *activity_delta),
    {
        if !day_phase_inputs_ok(&self.neurons, input_fixed, self.config.sifs_enabled) {
            return false;
        }
        if self.time_step == u32::MAX || self.config.night_interval == 0 {
            return false;
        }
        let next = self.time_step + 1;
        if next as usize % self.config.night_interval != 0 {
            return true;
        }
        let len = self.spike_history.len();
        let history_len = if len >= self.config.night_interval { len } else { len + 1 };
        night_after_day_inputs_ok(
            &self.neurons,
            input_fixed,
            self.config.sifs_enabled,
            self.shards.len(),
            history_len,
            activity_delta,
        )
    }

    /// One tick of the brain's clock for the Q16.16 input `input_fixed`: the day step (see
    /// `day_tick`), then, when the clock reaches a multiple of `night_interval`, the night
    /// phase with the four kernels. Returns the spikes of the day step.
    pub fn tick<A, L, E, H>(
        &mut self,
        input_fixed: &[Fixed16],
        activity_delta: A,
        level_weights: L,
        learning_rate: E,
        hebbian: H,
    ) -> (spikes: Vec<usize>) where
        A: Fn(u16, usize) -> Fixed16,
        L: Fn(Fixed16) -> [Fixed16; SIFS_LEVELS],
        E: Fn(usize, Fixed16) -> Fixed16,
        H: Fn(u16, u16, usize) -> Fixed16,

        requires
            forall|c: u16, h: usize| activity_delta.requires((c, h)),
            forall|s: Fixed16| level_weights.requires((s,)),
            forall|l: usize, w: Fixed16| learning_rate.requires((l, w)),
            forall|pre: u16, post: u16, h: usize| hebbian.requires((pre, post, h)),
            tick_ok(*old(self), input_fixed@, activity_delta),
        ensures
            spec_tick(
                *old(self),
                *final(self),
                input_fixed@,
                spikes@,
                activity_delta,
                level_weights,
                learning_rate,
                hebbian,
            ),
    {
        let ghost start = *self;
        let (spikes, night_due) = self.day_tick(input_fixed);
        let ghost mid = self.neurons;
        assert(spec_day_step(start.neurons, mid, input_fixed@, start.config.sifs_enabled, start.time_step, spikes@));
        proof {
            let h = self.spike_history@;
            assert(h.len() == h.map_values(|v: Vec<usize>| v@).len());
            assert(h.len() == spec_history_len_after(start.spike_history@.len() as int, start.config.night_interval as int));
        }
        if night_due {
            proof {
                lemma_night_ok_after_day(
                    start.neurons,
                    mid,
                    input_fixed@,
                    start.config.sifs_enabled,
                    start.time_step,
                    spikes@,
                    start.shards@.len() as int,
                    self.spike_history@.len() as usize,
                    activity_delta,
                );
            }
            self.night_phase(activity_delta, level_weights, learning_rate, hebbian);
        }
        spikes
    }

    /// One observation: `max(1, steps_per_observation)` ticks for the Q16.16 input
    /// `input_fixed`, each tested first with `tick_inputs_ok`. Returns the spikes of the
    /// last tick; when a tick would leave the range (`tick_ok` fails) the observation stops
    /// before it and returns `None`.
    pub fn observe<A, L, E, H>(
        &mut self,
        input_fixed: &[Fixed16],
        activity_delta: A,
        level_weights: L,
        learning_rate: E,
        hebbian: H,
    ) -> (result: Option<Vec<usize>>) where
        A: Fn(u16, usize) -> Fixed16 + Copy,
        L: Fn(Fixed16) -> [Fixed16; SIFS_LEVELS] + Copy,
        E: Fn(usize, Fixed16) -> Fixed16 + Copy,
        H: Fn(u16, u16, usize) -> Fixed16 + Copy,

        requires
            old(self).neurons.wf(),
            forall|c: u16, h: usize| activity_delta.requires((c, h)),
            forall|c: u16, h: usize, d1: Fixed16, d2: Fixed16|
                activity_delta.ensures((c, h), d1) && activity_delta.ensures((c, h), d2) ==> d1 == d2,
            forall|s: Fixed16| level_weights.requires((s,)),
            forall|l: usize, w: Fixed16| learning_rate.requires((l, w)),
            forall|pre: u16, post: u16, h: usize| hebbian.requires((pre, post, h)),
        ensures
            spec_observed(
                *old(self),
                *final(self),
                input_fixed@,
                match result {
                    Some(spikes) => Some(spikes@),
                    None => None,
                },
                activity_delta,
                level_weights,
                learning_rate,
                hebbian,
            ),
    {
        let ghost start = *self;
        let steps: u32 = if self.config.steps_per_observation > 1 { self.config.steps_per_observation } else { 1 };
        let mut last: Vec<usize> = Vec::new();
        let mut t: u32 = 0;
        proof {
            lemma_ticks_none(start, input_fixed@, activity_delta, level_weights, learning_rate, hebbian);
            assert(last@ =~= Seq::<usize>::empty());
        }
        while t < steps
            invariant
                start == *old(self),
                t <= steps,
                steps == spec_ticks_per_observation(start.config),
                self.config == start.config,
                self.neurons.wf(),
                self.time_step == start.time_step + t,
                spec_ticks(start, *self, input_fixed@, last@, t as nat, activity_delta, level_weights, learning_rate, hebbian),
                forall|c: u16, h: usize| activity_delta.requires((c, h)),
                forall|c: u16, h: usize, d1: Fixed16, d2: Fixed16|
                    activity_delta.ensures((c, h), d1) && activity_delta.ensures((c, h), d2) ==> d1 == d2,
                forall|s: Fixed16| level_weights.requires((s,)),
                forall|l: usize, w: Fixed16| learning_rate.requires((l, w)),
                forall|pre: u16, post: u16, h: usize| hebbian.requires((pre, post, h)),
            decreases steps - t,
        {
            if !self.tick_inputs_ok(input_fixed, &activity_delta) {
                assert(spec_ticks(start, *self, input_fixed@, last@, t as nat, activity_delta, level_weights, learning_rate, hebbian));
                assert((t as nat) < spec_ticks_per_observation(start.config));
                return None;
            }
            let ghost prev = *self;
            let ghost prev_spikes = last@;
            last = self.tick(input_fixed, activity_delta, level_weights, learning_rate, hebbian);
            proof {
                lemma_ticks_extend(start, prev, *self, input_fixed@, prev_spikes, last@, t as nat, activity_delta, level_weights, learning_rate, hebbian);
            }
            t = t + 1;
        }
        Some(last)
    }
}

/// A tick of `r` for the input `input` stays in range: the day step neither overflows
/// nor overflows a spike counter, the clock can advance, the night interval is not zero,
/// and when the night is due it stays in range after the day step
/// (`night_after_day_ok`).
pub open spec fn tick_ok<A: Fn(u16, usize) -> Fixed16>(r: BrainRunner, input: Seq<i32>, activity_delta: A) -> bool {
    &&& r.neurons.wf()
    &&& day_phase_ok(r.neurons, input, r.config.sifs_enabled)
    &&& r.time_step < u32::MAX
    &&& r.config.night_interval > 0
    &&& (r.time_step + 1) % (r.config.night_interval as int) == 0 ==> night_after_day_ok(
        r.neurons,
        input,
        r.config.sifs_enabled,
        r.shards@.len() as int,
        spec_history_len_after(r.spike_history@.len() as int, r.config.night_interval as int) as usize,
        activity_delta,
    )
}

/// `after` and `spikes` are the result of one tick of `before` for the input `input`:
/// the day step at the current clock (some `mid` state), the clock one further, the
/// spikes appended to the history (which keeps the last `night_interval` entries), and,
/// when the new clock is a multiple of `night_interval`, the night phase on `mid` with the
/// four kernels; otherwise the neurons are `mid` and the shards unchanged.
pub open spec fn spec_tick<
    A: Fn(u16, usize) -> Fixed16,
    L: Fn(Fixed16) -> [Fixed16; SIFS_LEVELS],
    E: Fn(usize, Fixed16) -> Fixed16,
    H: Fn(u16, u16, usize) -> Fixed16,
>(
    before: BrainRunner,
    after: BrainRunner,
    input: Seq<i32>,
    spikes: Seq<usize>,
    activity_delta: A,
    level_weights: L,
    learning_rate: E,
    hebbian: H,
) -> bool {
    &&& after.neurons.wf()
    &&& after.neurons.n() == before.neurons.n()
    &&& after.shards@.len() == before.shards@.len()
    &&& after.time_step == before.time_step + 1
    &&& after.config == before.config
    &&& after.last_action == before.last_action
    &&& after.spike_history@.map_values(|v: Vec<usize>| v@) == spec_history_after(
        before.spike_history@,
        spikes,
        before.config.night_interval as int,
    )
    &&& exists|mid: NeuronArrays| {
        &&& #[trigger] spec_day_step(
            before.neurons,
            mid,
            input,
            before.config.sifs_enabled,
            before.time_step,
            spikes,
        )
        &&& if after.time_step as int % before.config.night_interval as int == 0 {
            spec_night_step(
                mid,
                before.shards@,
                after.neurons,
                after.shards@,
                after.spike_history@.len() as usize,
                activity_delta,
                level_weights,
                learning_rate,
                hebbian,
            )
        } else {
            &&& after.neurons == mid
            &&& after.shards@ == before.shards@
        }
    }
}

/// Number of ticks of one observation: `steps_per_observation`, at least one.
pub open spec fn spec_ticks_per_observation(config: BrainConfig) -> nat {
    if config.steps_per_observation > 1 {
        config.steps_per_observation as nat
    } else {
        1
    }
}

/// Tick `j` of a run: `states[j]` is in range (`tick_ok`) and one tick for `input` takes
/// it to `states[j + 1]` with the spikes `trains[j + 1]`.
pub open spec fn spec_run_tick<
    A: Fn(u16, usize) -> Fixed16,
    L: Fn(Fixed16) -> [Fixed16; SIFS_LEVELS],
    E: Fn(usize, Fixed16) -> Fixed16,
    H: Fn(u16, u16, usize) -> Fixed16,
>(
    states: Seq<BrainRunner>,
    trains: Seq<Seq<usize>>,
    j: int,
    input: Seq<i32>,
    activity_delta: A,
    level_weights: L,
    learning_rate: E,
    hebbian: H,
) -> bool {
    &&& tick_ok(states[j], input, activity_delta)
    &&& spec_tick(
        states[j],
        states[j + 1],
        input,
        trains[j + 1],
        activity_delta,
        level_weights,
        learning_rate,
        hebbian,
    )
}

/// `states` and `trains` are a run of `k` ticks from `before` to `after` for `input`: the
/// states after 0, 1, ..., k ticks and the spikes of each tick (none before the first),
/// the last tick giving `spikes`.
pub open spec fn spec_run<
    A: Fn(u16, usize) -> Fixed16,
    L: Fn(Fixed16) -> [Fixed16; SIFS_LEVELS],
    E: Fn(usize, Fixed16) -> Fixed16,
    H: Fn(u16, u16, usize) -> Fixed16,
>(
    states: Seq<BrainRunner>,
    trains: Seq<Seq<usize>>,
    before: BrainRunner,
    after: BrainRunner,
    input: Seq<i32>,
    spikes: Seq<usize>,
    k: nat,
    activity_delta: A,
    level_weights: L,
    learning_rate: E,
    hebbian: H,
) -> bool {
    &&& states.len() == k + 1
    &&& trains.len() == k + 1
    &&& states[0] == before
    &&& states[k as int] == after
    &&& trains[0] == Seq::<usize>::empty()
    &&& trains[k as int] == spikes
    &&& forall|j: int|
        0 <= j < k ==> #[trigger] spec_run_tick(
            states,
            trains,
            j,
            input,
            activity_delta,
            level_weights,
            learning_rate,
            hebbian,
        )
}

/// `after` is `before` after `k` ticks for the input `input`, each of them in range
/// (`tick_ok`) and the last one giving the spikes `spikes` (none when `k` is zero).
pub open spec fn spec_ticks<
    A: Fn(u16, usize) -> Fixed16,
    L: Fn(Fixed16) -> [Fixed16; SIFS_LEVELS],
    E: Fn(usize, Fixed16) -> Fixed16,
    H: Fn(u16, u16, usize) -> Fixed16,
>(
    before: BrainRunner,
    after: BrainRunner,
    input: Seq<i32>,
    spikes: Seq<usize>,
    k: nat,
    activity_delta: A,
    level_weights: L,
    learning_rate: E,
    hebbian: H,
) -> bool {
    exists|states: Seq<BrainRunner>, trains: Seq<Seq<usize>>|
        #[trigger] spec_run(
            states,
            trains,
            before,
            after,
            input,
            spikes,
            k,
            activity_delta,
            level_weights,
            learning_rate,
            hebbian,
        )
}

/// No ticks leave a brain as it is.
pub proof fn lemma_ticks_none<
    A: Fn(u16, usize) -> Fixed16,
    L: Fn(Fixed16) -> [Fixed16; SIFS_LEVELS],
    E: Fn(usize, Fixed16) -> Fixed16,
    H: Fn(u16, u16, usize) -> Fixed16,
>(
    before: BrainRunner,
    input: Seq<i32>,
    activity_delta: A,
    level_weights: L,
    learning_rate: E,
    hebbian: H,
)
    ensures
        spec_ticks(before, before, input, Seq::<usize>::empty(), 0, activity_delta, level_weights, learning_rate, hebbian),
{
    let states = seq![before];
    let trains = seq![Seq::<usize>::empty()];
    assert(spec_run(states, trains, before, before, input, Seq::<usize>::empty(), 0, activity_delta, level_weights, learning_rate, hebbian));
}

/// One more tick in range extends a run of ticks.
pub proof fn lemma_ticks_extend<
    A: Fn(u16, usize) -> Fixed16,
    L: Fn(Fixed16) -> [Fixed16; SIFS_LEVELS],
    E: Fn(usize, Fixed16) -> Fixed16,
    H: Fn(u16, u16, usize) -> Fixed16,
>(
    before: BrainRunner,
    mid: BrainRunner,
    after: BrainRunner,
    input: Seq<i32>,
    mid_spikes: Seq<usize>,
    spikes: Seq<usize>,
    k: nat,
    activity_delta: A,
    level_weights: L,
    learning_rate: E,
    hebbian: H,
)
    requires
        spec_ticks(before, mid, input, mid_spikes, k, activity_delta, level_weights, learning_rate, hebbian),
        tick_ok(mid, input, activity_delta),
        spec_tick(mid, after, input, spikes, activity_delta, level_weights, learning_rate, hebbian),
    ensures
        spec_ticks(before, after, input, spikes, k + 1, activity_delta, level_weights, learning_rate, hebbian),
{
    let (states, trains) = choose|states: Seq<BrainRunner>, trains: Seq<Seq<usize>>|
        #[trigger] spec_run(states, trains, before, mid, input, mid_spikes, k, activity_delta, level_weights, learning_rate, hebbian);
    let states2 = states.push(after);
    let trains2 = trains.push(spikes);
    assert forall|j: int| 0 <= j < k + 1 implies #[trigger] spec_run_tick(
        states2,
        trains2,
        j,
        input,
        activity_delta,
        level_weights,
        learning_rate,
        hebbian,
    ) by {
        if j < k {
            assert(spec_run_tick(states, trains, j, input, activity_delta, level_weights, learning_rate, hebbian));
            assert(states2[j] == states[j]);
            assert(states2[j + 1] == states[j + 1]);
            assert(trains2[j + 1] == trains[j + 1]);
        } else {
            assert(states2[j] == mid);
            assert(states2[j + 1] == after);
            assert(trains2[j + 1] == spikes);
        }
    }
    assert(spec_run(states2, trains2, before, after, input, spikes, k + 1, activity_delta, level_weights, learning_rate, hebbian));
}

/// `after` and `result` are the outcome of one observation of `before` for `input`: with
/// `Some(spikes)`, all `max(1, steps_per_observation)` ticks ran in range, the last giving
/// `spikes`, and the clock moved by that many ticks; with `None`, fewer ticks ran and the
/// next one is out of range (`tick_ok` fails), so the observation stopped before it.
pub open spec fn spec_observed<
    A: Fn(u16, usize) -> Fixed16,
    L: Fn(Fixed16) -> [Fixed16; SIFS_LEVELS],
    E: Fn(usize, Fixed16) -> Fixed16,
    H: Fn(u16, u16, usize) -> Fixed16,
>(
    before: BrainRunner,
    after: BrainRunner,
    input: Seq<i32>,
    result: Option<Seq<usize>>,
    activity_delta: A,
    level_weights: L,
    learning_rate: E,
    hebbian: H,
) -> bool {
    match result {
        Some(spikes) => {
            &&& spec_ticks(
                before,
                after,
                input,
                spikes,
                spec_ticks_per_observation(before.config),
                activity_delta,
                level_weights,
                learning_rate,
                hebbian,
            )
            &&& after.time_step == before.time_step + spec_ticks_per_observation(before.config)
        },
        None => exists|k: nat, spikes: Seq<usize>|
            {
                &&& k < spec_ticks_per_observation(before.config)
                &&& #[trigger] spec_ticks(
                    before,
                    after,
                    input,
                    spikes,
                    k,
                    activity_delta,
                    level_weights,
                    learning_rate,
                    hebbian,
                )
                &&& !tick_ok(after, input, activity_delta)
            },
    }
}

/// Two networks hold the same neuron state: every per-neuron vector has the same
/// entries.
pub open spec fn same_neurons(a: NeuronArrays, b: NeuronArrays) -> bool {
    &&& a.voltage@ == b.voltage@
    &&& a.threshold@ == b.threshold@
    &&& a.spike_count@ == b.spike_count@
    &&& a.sifs_weights@ == b.sifs_weights@
    &&& a.sifs_thresholds@ == b.sifs_thresholds@
    &&& a.s_coordinate@ == b.s_coordinate@
    &&& a.dendrite_targets@ == b.dendrite_targets@
    &&& a.synaptic_weights@ == b.synaptic_weights@
    &&& a.last_spike_time@ == b.last_spike_time@
    &&& a.refractory_timer@ == b.refractory_timer@
}

/// Two brains hold the same state: the same neurons, shards and spike history (by
/// contents), clock, configuration and last action.
pub open spec fn same_state(a: BrainRunner, b: BrainRunner) -> bool {
    &&& same_neurons(a.neurons, b.neurons)
    &&& a.shards@ == b.shards@
    &&& a.spike_history@.map_values(|v: Vec<usize>| v@) == b.spike_history@.map_values(|v: Vec<usize>| v@)
    &&& a.time_step == b.time_step
    &&& a.config == b.config
    &&& a.last_action == b.last_action
}

/// The two motor pools of the readout: the number of spikes of neurons below `half`
/// (left pool) and of the others (right pool).
pub open spec fn spec_pool_left(spikes: Seq<usize>, half: int, m: nat) -> int
    decreases m,
{
    if m == 0 {
        0
    } else {
        spec_pool_left(spikes, half, (m - 1) as nat) + if spikes[m - 1] < half { 1int } else { 0 }
    }
}

/// The spike counts of the left pool (neurons below `half`) and the right pool (the
/// others).
pub fn pool_spike_counts(spikes: &[usize], half: usize) -> (counts: (usize, usize))
    ensures
        counts.0 == spec_pool_left(spikes@, half as int, spikes@.len()),
        counts.0 + counts.1 == spikes@.len(),
{
    let mut left: usize = 0;
    for p in 0..spikes.len()
        invariant
            left == spec_pool_left(spikes@, half as int, p as nat),
            left <= p,
    {
        if spikes[p] < half {
            left = left + 1;
        }
    }
    (left, spikes.len() - left)
}

} // verus!
