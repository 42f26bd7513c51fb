use sifs_brain::constants::SIFS_LEVELS;
use sifs_brain::fixed::{sifs_w, Fixed16, FIXED_ONE, GHOST_CURRENT};
use sifs_brain::genesis_core::{
    build_s_shards_from_neurons, day_phase_pipeline_6step, day_phase_step, effective_input,
    ghost_spike_targets, night_phase_plasticity, BrainConfig, BrainRunner, SifsShard,
};
use sifs_brain::neuron::{calculate_sifs_current, NeuronArrays};
use sifs_brain::phase::day_phase_inputs_ok;

const K: f32 = 1.0 / (std::f32::consts::PI * std::f32::consts::PI);
const PHI: f32 = 1.618_034_0;

fn f32_to_fixed(x: f32) -> Fixed16 {
    (x * FIXED_ONE as f32) as Fixed16
}

fn fixed_to_f32(x: Fixed16) -> f32 {
    x as f32 / FIXED_ONE as f32
}

fn sifs_threshold(n: usize, v0: Fixed16) -> Fixed16 {
    let phi_n = PHI.powi(n as i32);
    (v0 as f64 / phi_n as f64) as Fixed16
}

fn level_thresholds(v0: Fixed16) -> [Fixed16; SIFS_LEVELS] {
    let mut t = [0; SIFS_LEVELS];
    for n in 0..SIFS_LEVELS {
        t[n] = sifs_threshold(n, v0);
    }
    t
}

fn spiral_s_coordinates(n: usize) -> Vec<Fixed16> {
    (0..n).map(|i| f32_to_fixed((i as f32 / n as f32).sqrt() * 5.0)).collect()
}

fn new_neurons(n: usize) -> NeuronArrays {
    NeuronArrays::new(n, spiral_s_coordinates(n))
}

fn level_weights_of(s: Fixed16) -> [Fixed16; SIFS_LEVELS] {
    let mut row = [0; SIFS_LEVELS];
    let s_shift = fixed_to_f32(s);
    for lv in 0..SIFS_LEVELS {
        let shifted = (lv as f32 - s_shift).max(0.0);
        row[lv] = f32_to_fixed((-2.0 * K * shifted).exp());
    }
    row
}

fn activity_delta(count: u16, history_len: usize) -> Fixed16 {
    let hist = history_len.max(1) as f32;
    f32_to_fixed(count as f32 / hist * 0.1 - 0.05)
}

fn new_shards() -> Vec<SifsShard> {
    (0..SIFS_LEVELS).map(SifsShard::new).collect()
}

#[test]
fn lib_test_sifs_math() {
    let w0 = fixed_to_f32(sifs_w(0));
    let w9 = fixed_to_f32(sifs_w(9));
    assert!((w0 - 1.0).abs() < 0.01);
    assert!((w9 - 0.161).abs() < 0.01);
}

#[test]
fn lib_test_neuron_arrays() {
    let neurons = new_neurons(100);
    assert_eq!(neurons.len(), 100);
    assert_eq!(neurons.sifs_weights[0].len(), SIFS_LEVELS);
}

#[test]
fn lib_test_sifs_current() {
    let mut weights = [0; SIFS_LEVELS];
    let mut thresholds = [0; SIFS_LEVELS];
    for n in 0..SIFS_LEVELS {
        weights[n] = sifs_w(n);
        thresholds[n] = sifs_threshold(n, f32_to_fixed(0.02));
    }
    let current = calculate_sifs_current(f32_to_fixed(0.03), &weights, &thresholds, f32_to_fixed(40.0));
    assert!(current > 0);
    assert!(fixed_to_f32(current) < 10.0);
}

#[test]
fn test_day_phase_pipeline_6step() {
    let mut neurons = new_neurons(64);
    let shards = new_shards();
    let input: Vec<Fixed16> = (0..64).map(|i| f32_to_fixed(0.01 * (1.0 + (i as f32 * 0.02).sin()))).collect();
    let spikes0 = day_phase_pipeline_6step(&mut neurons, &shards, 0, &input, &[]);
    let spikes1 = day_phase_pipeline_6step(&mut neurons, &shards, 1, &input, &[]);
    assert!(spikes0.len() <= 64);
    assert!(spikes1.len() <= 64);
    let with_ghost = day_phase_pipeline_6step(&mut neurons, &shards, 2, &input, &[0, 1]);
    assert!(with_ghost.len() <= 64);
}

#[test]
fn test_i_sifs_vs_python() {
    let v0 = f32_to_fixed(0.02);
    let test_cases: [(f32, i32); 5] = [
        (0.01, 155_200),
        (0.02, 155_977),
        (0.03, 156_752),
        (0.005, 154_811),
        (0.025, 156_363),
    ];
    for (v, expected_fixed) in test_cases {
        let mut weights = [0; SIFS_LEVELS];
        let mut thresholds = [0; SIFS_LEVELS];
        for n in 0..SIFS_LEVELS {
            weights[n] = sifs_w(n);
            thresholds[n] = sifs_threshold(n, v0);
        }
        let got = calculate_sifs_current(f32_to_fixed(v), &weights, &thresholds, f32_to_fixed(40.0));
        let diff = (got - expected_fixed).abs();
        assert!(diff <= 5, "v={} expected {} got {} (diff {})", v, expected_fixed, got, diff);
    }
}

#[test]
fn lib_test_brain_runner_readout() {
    let config = BrainConfig { n_neurons: 64, ..BrainConfig::default() };
    let v0 = f32_to_fixed(0.02);
    let mut runner = BrainRunner::new(config, spiral_s_coordinates(64), v0, level_thresholds(v0));
    let input: Vec<Fixed16> = vec![0.02f32; 64].iter().map(|&x| f32_to_fixed(x)).collect();
    let out = runner.run_step(&input, activity_delta, level_weights_of);
    let score = (out.spike_count_total as f32 / 64.0).min(1.0);
    assert_eq!(out.spike_count_per_shard.len(), SIFS_LEVELS);
    assert!(score >= 0.0 && score <= 1.0);
    assert_eq!(out.time_step, 0);
}

#[test]
fn test_s_sharding_and_ghost_axons() {
    let mut neurons = new_neurons(128);
    let mut shards = new_shards();
    build_s_shards_from_neurons(&neurons, &mut shards);
    let total: usize = shards.iter().map(|s| s.neurons.len()).sum();
    assert_eq!(total, 128);
    let input: Vec<Fixed16> = (0..128).map(|i| f32_to_fixed(0.02 * (1.0 + (i as f32 * 0.01).sin()))).collect();
    let spikes = day_phase_pipeline_6step(&mut neurons, &shards, 0, &input, &[]);
    let ghost_targets = ghost_spike_targets(&neurons, &shards, &spikes);
    let spikes2 = day_phase_pipeline_6step(&mut neurons, &shards, 1, &input, &ghost_targets);
    assert!(spikes2.len() <= 128);
}

#[test]
fn shards_by_s_level() {
    let mut neurons = new_neurons(6);
    neurons.s_coordinate = vec![0, 65536, 65535, 3 * 65536, -7, 20 * 65536];
    let mut shards = new_shards();
    shards[4].add_neuron(99);
    build_s_shards_from_neurons(&neurons, &mut shards);
    assert_eq!(shards[0].neurons, vec![0, 2, 4]);
    assert_eq!(shards[1].neurons, vec![1]);
    assert_eq!(shards[3].neurons, vec![3]);
    assert_eq!(shards[4].neurons, Vec::<usize>::new());
    assert_eq!(shards[9].neurons, vec![5]);
    // with fewer shards, neurons of the missing levels are in none
    let mut few: Vec<SifsShard> = (0..2).map(SifsShard::new).collect();
    build_s_shards_from_neurons(&neurons, &mut few);
    assert_eq!(few[0].neurons, vec![0, 2, 4]);
    assert_eq!(few[1].neurons, vec![1]);
}

#[test]
fn ghost_targets_are_neighbour_levels() {
    let mut neurons = new_neurons(6);
    neurons.s_coordinate = vec![0, 65536, 2 * 65536, 2 * 65536, 3 * 65536, 0];
    let mut shards = new_shards();
    build_s_shards_from_neurons(&neurons, &mut shards);
    // a spike of neuron 1 (level 1) reaches levels 0 and 2
    assert_eq!(ghost_spike_targets(&neurons, &shards, &[1]), vec![0, 2, 3, 5]);
    // neuron 4 (level 3) reaches level 2 (level 4 is empty); duplicates are merged
    assert_eq!(ghost_spike_targets(&neurons, &shards, &[4, 1, 4]), vec![0, 2, 3, 5]);
    // neuron 0 (level 0) reaches level 1 only; indices past the network are ignored
    assert_eq!(ghost_spike_targets(&neurons, &shards, &[0, 77]), vec![1]);
    assert_eq!(ghost_spike_targets(&neurons, &shards, &[]), Vec::<usize>::new());
}

#[test]
fn ghost_current_in_effective_input() {
    assert_eq!(effective_input(4, &[10, 20], &[1, 3, 1, 9]), vec![10, 20 + 2 * GHOST_CURRENT, 0, GHOST_CURRENT]);
    assert_eq!(effective_input(2, &[i32::MAX, 5, 6], &[0]), vec![i32::MAX, 5]);
    assert_eq!(effective_input(0, &[1], &[0]), Vec::<i32>::new());
}

#[test]
fn core_day_step_matches_pipeline_without_ghosts() {
    let input: Vec<Fixed16> = (0..20).map(|i| 200 * i).collect();
    let mut a = new_neurons(20);
    let mut b = new_neurons(20);
    let shards = new_shards();
    let sa = day_phase_step(&mut a, &shards, 3, &input);
    let sb = day_phase_pipeline_6step(&mut b, &shards, 3, &input, &[]);
    assert_eq!(sa, sb);
    assert_eq!(a.voltage, b.voltage);
}

#[test]
fn core_night_phase_regroups() {
    let mut neurons = new_neurons(10);
    neurons.spike_count[9] = 40;
    let mut shards = new_shards();
    let history = vec![Vec::new(); 4];
    let s_before = neurons.s_coordinate.clone();
    night_phase_plasticity(&mut neurons, &mut shards, &history, activity_delta, level_weights_of);
    // 40 spikes over 4 steps: delta S = 10 * 0.1 - 0.05 = 0.95
    assert_eq!(neurons.s_coordinate[9], s_before[9] + f32_to_fixed(0.95));
    assert_eq!(neurons.s_coordinate[0], 0);
    assert!(neurons.spike_count.iter().all(|&c| c == 0));
    assert_eq!(neurons.sifs_weights[0], level_weights_of(0));
    let total: usize = shards.iter().map(|s| s.neurons.len()).sum();
    assert_eq!(total, 10);
}

#[test]
fn core_runner_steps_and_readout() {
    let config = BrainConfig { n_neurons: 40, night_interval: 2 };
    let v0 = f32_to_fixed(0.02);
    let mut runner = BrainRunner::new(config, spiral_s_coordinates(40), v0, level_thresholds(v0));
    let input: Vec<Fixed16> = vec![f32_to_fixed(0.5); 40];
    for t in 0..5u32 {
        let out = runner.run_step(&input, activity_delta, level_weights_of);
        assert_eq!(out.time_step, t);
        assert_eq!(out.spike_count_per_shard.iter().sum::<usize>(), out.spike_count_total);
        assert!(out.spike_count_total <= 40);
        assert!(runner.spike_history.len() <= 2);
    }
    assert_eq!(runner.time_step, 5);
    let defaults = BrainConfig::default();
    assert_eq!((defaults.n_neurons, defaults.night_interval), (1000, 100));
}

#[test]
fn core_shard_new() {
    let shard = SifsShard::new(31);
    assert_eq!(shard.time_scale, 1u32 << 31);
    assert_eq!(shard.w_factor, 122);
    assert_eq!(SifsShard::new(2).w_factor, 43698);
}

#[test]
fn core_step_input_adds_ghost_current_from_last_spikes() {
    let config = BrainConfig { n_neurons: 40, night_interval: 100 };
    let v0 = f32_to_fixed(0.02);
    let mut runner = BrainRunner::new(config, spiral_s_coordinates(40), v0, level_thresholds(v0));
    let input: Vec<Fixed16> = vec![f32_to_fixed(0.01); 40];
    // No history yet: the step input is the external input, padded with zeros.
    assert_eq!(runner.step_input(&input[..30]), [&input[..30], &[0; 10][..]].concat());
    // Neuron 20 spiked in the last step: the neurons of the neighbouring S-levels get
    // the ghost current.
    runner.spike_history.push(vec![20]);
    let expected_targets = ghost_spike_targets(&runner.neurons, &runner.shards, &[20]);
    assert!(!expected_targets.is_empty());
    let got = runner.step_input(&input);
    for i in 0..40 {
        let bump = if expected_targets.contains(&i) { GHOST_CURRENT } else { 0 };
        assert_eq!(got[i], input[i] + bump);
    }
    assert!(day_phase_inputs_ok(&runner.neurons, &got, true));
}

#[test]
fn core_runner_neurons_have_no_synapses() {
    let config = BrainConfig { n_neurons: 12, night_interval: 100 };
    let v0 = f32_to_fixed(0.02);
    let runner = BrainRunner::new(config, spiral_s_coordinates(12), v0, level_thresholds(v0));
    assert!(runner.neurons.dendrite_targets.iter().all(|t| t.is_empty()));
    assert!(runner.neurons.synaptic_weights.iter().all(|w| w.is_empty()));
    let unwired = NeuronArrays::new_unwired(12, spiral_s_coordinates(12));
    assert_eq!(unwired.dendrite_targets.len(), 12);
    assert!(unwired.dendrite_targets.iter().all(|t| t.is_empty()));
    let wired = new_neurons(12);
    assert_eq!(unwired.voltage, wired.voltage);
    assert_eq!(unwired.sifs_thresholds, wired.sifs_thresholds);
    assert_eq!(wired.dendrite_targets[0], vec![1, 2, 3, 4, 5]);
}

#[test]
fn core_step_inputs_ok_matches_the_step() {
    let config = BrainConfig { n_neurons: 20, night_interval: 1 };
    let v0 = f32_to_fixed(0.02);
    let runner = BrainRunner::new(config, spiral_s_coordinates(20), v0, level_thresholds(v0));
    let input = vec![f32_to_fixed(0.01); 20];
    assert!(runner.step_inputs_ok(&input, &activity_delta));
    // The night is due after this step; a huge delta overflows S.
    let wild = |_c: u16, _h: usize| i32::MAX;
    assert!(!runner.step_inputs_ok(&input, &wild));
    let calm_config = BrainConfig { n_neurons: 20, night_interval: 7 };
    let calm = BrainRunner::new(calm_config, spiral_s_coordinates(20), v0, level_thresholds(v0));
    assert!(calm.step_inputs_ok(&input, &wild));
    let mut bad = vec![0; 20];
    bad[3] = i32::MIN;
    assert!(!calm.step_inputs_ok(&bad, &activity_delta));
}

fn sharded_neurons(n: usize) -> (NeuronArrays, Vec<SifsShard>) {
    let neurons = new_neurons(n);
    let mut shards = new_shards();
    build_s_shards_from_neurons(&neurons, &mut shards);
    (neurons, shards)
}

#[test]
fn ghost_targets_of_concatenated_spikes_are_the_union() {
    let (neurons, shards) = sharded_neurons(40);
    let a = vec![3usize, 30];
    let b = vec![20usize, 3];
    let ta = ghost_spike_targets(&neurons, &shards, &a);
    let tb = ghost_spike_targets(&neurons, &shards, &b);
    let tab = ghost_spike_targets(&neurons, &shards, &[a.clone(), b.clone()].concat());
    let mut union: Vec<usize> = ta.iter().chain(tb.iter()).copied().collect();
    union.sort_unstable();
    union.dedup();
    assert_eq!(tab, union);
    // Order and repeats of the spikes do not matter; no spikes give no targets.
    assert_eq!(ghost_spike_targets(&neurons, &shards, &[30, 3, 20, 20]), tab);
    assert!(ghost_spike_targets(&neurons, &shards, &[]).is_empty());
}

#[test]
fn ghost_spikes_only_add_input_current() {
    let (neurons, shards) = sharded_neurons(40);
    let input: Vec<Fixed16> = vec![f32_to_fixed(0.012); 40];
    let mut plain = neurons.clone();
    let mut ghosted = neurons.clone();
    for t in 0..12 {
        let ghosts: Vec<usize> = (0..40).filter(|i| i % 3 == 0).collect();
        let before_plain = plain.clone();
        let s1 = day_phase_pipeline_6step(&mut plain, &shards, t, &input, &[]);
        let mut from_same = before_plain.clone();
        let s2 = day_phase_pipeline_6step(&mut from_same, &shards, t, &input, &ghosts);
        assert!(s1.iter().all(|x| s2.contains(x)));
        for i in 0..40 {
            if !s1.contains(&i) && !s2.contains(&i) {
                assert!(plain.voltage[i] <= from_same.voltage[i]);
            }
        }
        day_phase_pipeline_6step(&mut ghosted, &shards, t, &input, &ghosts);
    }
}

#[test]
fn run_step_is_the_pipeline_on_the_last_ghost_targets() {
    let config = BrainConfig { n_neurons: 40, night_interval: 100 };
    let v0 = f32_to_fixed(0.02);
    let mut runner = BrainRunner::new(config, spiral_s_coordinates(40), v0, level_thresholds(v0));
    let input: Vec<Fixed16> = (0..40).map(|i| if i < 8 { i32::MAX / 2 } else { f32_to_fixed(0.01) }).collect();
    for _ in 0..8 {
        let mut copy = runner.neurons.clone();
        let ghosts = match runner.spike_history.last() {
            Some(last) => ghost_spike_targets(&runner.neurons, &runner.shards, last),
            None => Vec::new(),
        };
        let expected = day_phase_pipeline_6step(&mut copy, &runner.shards, runner.time_step, &input, &ghosts);
        let out = runner.run_step(&input, activity_delta, level_weights_of);
        assert_eq!(runner.spike_history.last().unwrap(), &expected);
        assert_eq!(out.spike_count_total, expected.len());
        assert_eq!(runner.neurons.voltage, copy.voltage);
    }
}
