use sifs_brain::constants::{FIB, SIFS_LEVELS};
use sifs_brain::fixed::{
    s_level_of, sifs_w, Fixed16, DEFAULT_LEVEL_THRESHOLDS, DEFAULT_V0, FIXED_ONE,
    SIFS_W_NONZERO_LEVELS,
};
use sifs_brain::neuron::{calculate_sifs_current, NeuronArrays, SIFSShard};
use sifs_brain::phase::{
    day_phase_inputs_ok, day_phase_step, inertial_weight_update, next_voltage, night_after_day_inputs_ok,
    night_phase_inputs_ok, night_phase_plasticity,
};
use sifs_brain::runner::{initial_block, pool_spike_counts, BrainConfig, BrainRunner};

const K: f32 = 1.0 / (std::f32::consts::PI * std::f32::consts::PI);
const PHI: f32 = 1.6180339887;

fn f32_to_fixed(x: f32) -> Fixed16 {
    (x * FIXED_ONE as f32) as Fixed16
}

fn fixed_to_f32(x: Fixed16) -> f32 {
    x as f32 / FIXED_ONE as f32
}

fn sifs_threshold(n: usize, v0: Fixed16) -> Fixed16 {
    let phi_n = PHI.powi(n as i32);
    (v0 as f64 / phi_n as f64) as Fixed16
}

fn level_thresholds(v0: Fixed16) -> [Fixed16; SIFS_LEVELS] {
    let mut t = [0; SIFS_LEVELS];
    for n in 0..SIFS_LEVELS {
        t[n] = sifs_threshold(n, v0);
    }
    t
}

fn spiral_s_coordinates(n: usize) -> Vec<Fixed16> {
    (0..n).map(|i| f32_to_fixed((i as f32 / n as f32).sqrt() * 5.0)).collect()
}

fn new_neurons(n: usize) -> NeuronArrays {
    NeuronArrays::new(n, spiral_s_coordinates(n))
}

fn level_weights_of(s: Fixed16) -> [Fixed16; SIFS_LEVELS] {
    let mut row = [0; SIFS_LEVELS];
    let s_shift = fixed_to_f32(s);
    for lv in 0..SIFS_LEVELS {
        let shifted = (lv as f32 - s_shift).max(0.0);
        row[lv] = f32_to_fixed((-2.0 * K * shifted).exp());
    }
    row
}

fn run_night(neurons: &mut NeuronArrays, shards: &mut Vec<SIFSShard>, history: &[Vec<usize>], reward: f32) {
    let reward_scale = 1.0 + reward * 0.5;
    night_phase_plasticity(
        neurons,
        shards,
        history,
        |count: u16, h: usize| f32_to_fixed((count as f32 / h as f32 * 0.1 - 0.05) * reward_scale),
        level_weights_of,
        |level: usize, w: Fixed16| {
            let plasticity = (SIFS_LEVELS - level) as f32 / SIFS_LEVELS as f32;
            f32_to_fixed(0.008 * plasticity.max(0.1) * fixed_to_f32(w).max(0.15))
        },
        |pre: u16, post: u16, h: usize| {
            f32_to_fixed((pre as f32 / h as f32) * (post as f32 / h as f32) * reward_scale)
        },
    );
}

fn default_tables() -> ([Fixed16; SIFS_LEVELS], [Fixed16; SIFS_LEVELS]) {
    let mut weights = [0; SIFS_LEVELS];
    let mut thresholds = [0; SIFS_LEVELS];
    for n in 0..SIFS_LEVELS {
        weights[n] = sifs_w(n);
        thresholds[n] = sifs_threshold(n, f32_to_fixed(0.02));
    }
    (weights, thresholds)
}

#[test]
fn main_test_fib_contract() {
    assert_eq!(FIB.len(), SIFS_LEVELS);
    assert_eq!(FIB[0], 1);
    assert_eq!(FIB[9], 89);
}

#[test]
fn sifs_genesis_hybrid_test_fib_contract() {
    assert_eq!(FIB.len(), SIFS_LEVELS);
    assert_eq!(FIB[0], 1);
    assert_eq!(FIB[9], 89);
}

#[test]
fn main_test_sifs_math() {
    let w0 = fixed_to_f32(sifs_w(0));
    let w9 = fixed_to_f32(sifs_w(9));
    assert!((w0 - 1.0).abs() < 0.01);
    assert!((w9 - 0.161).abs() < 0.01);
}

#[test]
fn sifs_genesis_hybrid_test_sifs_math() {
    let w0 = fixed_to_f32(sifs_w(0));
    let w9 = fixed_to_f32(sifs_w(9));
    assert!((w0 - 1.0).abs() < 0.01);
    assert!((w9 - 0.161).abs() < 0.01);
}

#[test]
fn main_test_neuron_arrays() {
    let neurons = new_neurons(100);
    assert_eq!(neurons.len(), 100);
    assert_eq!(neurons.sifs_weights.len(), 100);
    assert_eq!(neurons.sifs_weights[0].len(), SIFS_LEVELS);
}

#[test]
fn sifs_genesis_hybrid_test_neuron_arrays() {
    let neurons = new_neurons(100);
    assert_eq!(neurons.len(), 100);
    assert_eq!(neurons.sifs_weights.len(), 100);
    assert_eq!(neurons.sifs_weights[0].len(), SIFS_LEVELS);
}

#[test]
fn main_test_sifs_current() {
    let (weights, thresholds) = default_tables();
    let current = calculate_sifs_current(f32_to_fixed(0.03), &weights, &thresholds, f32_to_fixed(40.0));
    assert!(current > 0);
    assert!(fixed_to_f32(current) < 10.0);
}

#[test]
fn sifs_genesis_hybrid_test_sifs_current() {
    let (weights, thresholds) = default_tables();
    let current = calculate_sifs_current(f32_to_fixed(0.03), &weights, &thresholds, f32_to_fixed(40.0));
    assert!(current > 0);
    assert!(fixed_to_f32(current) < 10.0);
}

fn i_sifs_regression() {
    let (weights, thresholds) = default_tables();
    let v = f32_to_fixed(0.02);
    let rust_i = calculate_sifs_current(v, &weights, &thresholds, f32_to_fixed(40.0));
    let rust_f = fixed_to_f32(rust_i);
    assert!(rust_f >= 0.0 && rust_f < 20.0, "I_SIFS(0.02) within bounds");
    let v_high = f32_to_fixed(0.03);
    let rust_high = calculate_sifs_current(v_high, &weights, &thresholds, f32_to_fixed(40.0));
    assert!(fixed_to_f32(rust_high) > fixed_to_f32(rust_i));
}

#[test]
fn main_test_i_sifs_regression_vs_python() {
    i_sifs_regression();
}

#[test]
fn sifs_genesis_hybrid_test_i_sifs_regression_vs_python() {
    i_sifs_regression();
}

fn day_phase_smoke() {
    let mut neurons = new_neurons(50);
    let mut shards: Vec<SIFSShard> = (0..SIFS_LEVELS).map(SIFSShard::new).collect();
    for i in 0..50 {
        shards[i * SIFS_LEVELS / 50].add_neuron(i);
    }
    let input: Vec<Fixed16> = (0..50).map(|i| f32_to_fixed(0.02 * (1.0 + (i % 5) as f32 * 0.1))).collect();
    let _spikes = day_phase_step(&mut neurons, &shards, 0, &input, true);
    assert!(neurons.voltage.len() == 50);
}

#[test]
fn main_test_day_phase_smoke() {
    day_phase_smoke();
}

#[test]
fn sifs_genesis_hybrid_test_day_phase_smoke() {
    day_phase_smoke();
}

fn night_phase_smoke() {
    let mut neurons = new_neurons(30);
    let mut shards: Vec<SIFSShard> = (0..SIFS_LEVELS).map(SIFSShard::new).collect();
    for i in 0..30 {
        shards[i * SIFS_LEVELS / 30].add_neuron(i);
    }
    let history = vec![vec![0usize, 5, 10], vec![1, 6], vec![]];
    run_night(&mut neurons, &mut shards, &history, 0.0);
    assert_eq!(neurons.len(), 30);
}

#[test]
fn main_test_night_phase_smoke() {
    night_phase_smoke();
}

#[test]
fn sifs_genesis_hybrid_test_night_phase_smoke() {
    night_phase_smoke();
}

#[test]
fn level_weight_table_matches_exponential() {
    for n in 0..70usize {
        let w = f32_to_fixed((-2.0 * K * n as f32).exp());
        assert_eq!(sifs_w(n), w, "W({})", n);
    }
    assert_eq!(SIFS_W_NONZERO_LEVELS, 55);
    assert_eq!(sifs_w(54), 1);
    assert_eq!(sifs_w(55), 0);
    assert_eq!(sifs_w(usize::MAX), 0);
}

#[test]
fn default_tables_match_float_formulas() {
    assert_eq!(DEFAULT_V0, f32_to_fixed(0.02));
    assert_eq!(level_thresholds(DEFAULT_V0), DEFAULT_LEVEL_THRESHOLDS);
    assert_eq!(DEFAULT_LEVEL_THRESHOLDS, [1310, 809, 500, 309, 191, 118, 73, 45, 27, 17]);
}

#[test]
fn sifs_current_exact_values() {
    let weights: [Fixed16; SIFS_LEVELS] = [65536, 53514, 43698, 35682, 29137, 23792, 19428, 15864, 12954, 10578];
    let thresholds = DEFAULT_LEVEL_THRESHOLDS;
    assert_eq!(calculate_sifs_current(1310, &weights, &thresholds, 0), 155977);
    assert_eq!(calculate_sifs_current(1966, &weights, &thresholds, 0), 156752);
    // far below every threshold: sigma is 0 at every level
    assert_eq!(calculate_sifs_current(-300000, &weights, &thresholds, 0), 0);
    // far above: sigma is 1.0 at every level, the current is the sum of the weights
    let sum: i32 = weights.iter().sum();
    assert_eq!(calculate_sifs_current(300000, &weights, &thresholds, 0), sum);
    // negative weights floor the current at zero
    let negative = [-65536; SIFS_LEVELS];
    assert_eq!(calculate_sifs_current(300000, &negative, &thresholds, 0), 0);
}

#[test]
fn sifs_current_is_monotone_in_voltage() {
    let (weights, thresholds) = default_tables();
    let mut last = 0;
    for v in (-200000..200000).step_by(997) {
        let c = calculate_sifs_current(v, &weights, &thresholds, 0);
        assert!(c >= last);
        assert!(c >= 0);
        last = c;
    }
}

#[test]
fn s_levels() {
    assert_eq!(s_level_of(-5), 0);
    assert_eq!(s_level_of(0), 0);
    assert_eq!(s_level_of(65535), 0);
    assert_eq!(s_level_of(65536), 1);
    assert_eq!(s_level_of(5 * 65536 + 3), 5);
    assert_eq!(s_level_of(655360), 9);
    assert_eq!(s_level_of(i32::MAX), 9);
}

#[test]
fn ring_topology() {
    let neurons = new_neurons(8);
    assert_eq!(neurons.dendrite_targets[0], vec![1, 2, 3, 4, 5]);
    assert_eq!(neurons.dendrite_targets[6], vec![7, 0, 1, 2, 3]);
    assert_eq!(neurons.synaptic_weights[3], vec![FIXED_ONE; 5]);
    assert_eq!(neurons.threshold, vec![DEFAULT_V0; 8]);
    assert_eq!(neurons.sifs_thresholds[2], DEFAULT_LEVEL_THRESHOLDS);
    for i in 0..8 {
        for &j in &neurons.dendrite_targets[i] {
            assert!(j < 8 && j != i);
        }
    }
    let empty = NeuronArrays::new(0, Vec::new());
    assert_eq!(empty.len(), 0);
}

#[test]
fn shard_new_and_add() {
    let mut shard = SIFSShard::new(3);
    assert_eq!(shard.s_level, 3);
    assert_eq!(shard.w_factor, 35682);
    assert_eq!(shard.time_scale, 8);
    shard.add_neuron(7);
    shard.add_neuron(2);
    assert_eq!(shard.neurons, vec![7, 2]);
}

#[test]
fn set_v0_sets_every_threshold() {
    let mut neurons = new_neurons(4);
    let v0 = f32_to_fixed(0.05);
    neurons.set_v0(v0, level_thresholds(v0));
    assert_eq!(neurons.threshold, vec![3276; 4]);
    assert_eq!(neurons.sifs_thresholds[1][0], 3276);
    assert_eq!(neurons.sifs_thresholds[1][1], sifs_threshold(1, 3276));
}

#[test]
fn next_voltage_decays_and_halves() {
    let mut neurons = new_neurons(2);
    neurons.voltage[0] = 65536;
    neurons.voltage[1] = 1001;
    neurons.refractory_timer[1] = 3;
    // no input, SIFS current off: V * 0.95
    assert_eq!(next_voltage(&neurons, 0, &[], false), 62259);
    // refractory: V / 2 rounded toward zero
    assert_eq!(next_voltage(&neurons, 1, &[], false), 500);
}

#[test]
fn day_step_updates_voltages_in_parallel() {
    // the voltages computed in parallel come back to each neuron in order
    let mut neurons = new_neurons(6);
    for i in 0..6 {
        neurons.voltage[i] = 200 * (i as i32 + 1);
    }
    let shards: Vec<SIFSShard> = Vec::new();
    let spikes = day_phase_step(&mut neurons, &shards, 4, &[], false);
    assert!(spikes.is_empty());
    let expected: Vec<i32> = (0..6).map(|i| ((200 * (i as i64 + 1) * 62259) >> 16) as i32).collect();
    assert_eq!(neurons.voltage, expected);
}

#[test]
fn day_step_spikes_reset_and_refractory() {
    let mut neurons = new_neurons(4);
    neurons.voltage = vec![0, 5000, 5000, 0];
    neurons.refractory_timer[2] = 3;
    let shards: Vec<SIFSShard> = Vec::new();
    let spikes = day_phase_step(&mut neurons, &shards, 7, &[], true);
    // neuron 1 exceeds its threshold 1310; neuron 2 is refractory
    assert_eq!(spikes, vec![1]);
    assert_eq!(neurons.voltage[1], 0);
    assert_eq!(neurons.refractory_timer[1], 5);
    assert_eq!(neurons.spike_count[1], 1);
    assert_eq!(neurons.last_spike_time[1], 7);
    assert_eq!(neurons.voltage[2], 2500);
    assert_eq!(neurons.refractory_timer[2], 2);
    assert_eq!(neurons.spike_count[2], 0);
    for &v in &neurons.voltage {
        assert!(v >= 0);
    }
}

#[test]
fn recurrent_sums() {
    let neurons = new_neurons(10);
    // 2 -> 3, 2 -> 4, 3 -> 4 among spikes {2, 3, 4}; 4 -> 5.. not spiking
    assert_eq!(neurons.weighted_recurrent_sum(&[2, 3, 4]), 3 * FIXED_ONE);
    // a repeated spike counts each time: 2 -> 3, 2 -> 4, and 3 -> 4 twice
    assert_eq!(neurons.weighted_recurrent_sum(&[2, 3, 3, 4]), 4 * FIXED_ONE);
    assert_eq!(neurons.weighted_recurrent_sum(&[]), 0);
    // the pool [0, 4) sees only 2 -> 3
    assert_eq!(neurons.weighted_recurrent_sum_in_range(&[2, 3, 4], 0, 4), FIXED_ONE);
    // spikes outside the pool may be past the network
    assert_eq!(neurons.weighted_recurrent_sum_in_range(&[2, 3, 400], 0, 4), FIXED_ONE);
    assert_eq!(neurons.weighted_recurrent_sum_in_range(&[2, 3, 4], 4, 10), 0);
}

#[test]
fn inertial_updates() {
    // a weak weight moves with inertia 1.0: 0.5 * 0.5 = 0.25
    assert_eq!(inertial_weight_update(0, 32768, 32768), 16384);
    // a strong weight (rank 15) moves with inertia 0.1
    let w = 15 * 8192;
    assert_eq!(inertial_weight_update(w, 65536, 65536), w + ((65536i64 * 6553) >> 16) as i32);
    // clamped to [0, 2.0]
    assert_eq!(inertial_weight_update(131072, 65536, 65536), 131072);
    assert_eq!(inertial_weight_update(100, -65536, 65536), 0);
    assert_eq!(inertial_weight_update(-5, 0, 0), 0);
}

#[test]
fn night_phase_moves_s_and_regroups() {
    let mut neurons = new_neurons(30);
    neurons.spike_count[0] = 3;
    let mut shards: Vec<SIFSShard> = (0..SIFS_LEVELS).map(SIFSShard::new).collect();
    let history = vec![vec![0usize], vec![0], vec![0]];
    let s_before = neurons.s_coordinate.clone();
    run_night(&mut neurons, &mut shards, &history, 0.0);
    // neuron 0 spiked every step: delta S = f32_to_fixed(0.05)
    assert_eq!(neurons.s_coordinate[0], s_before[0] + 3276);
    // a silent neuron drifts down by 0.05, floored at zero
    assert_eq!(neurons.s_coordinate[1], (s_before[1] - 3276).max(0));
    assert!(neurons.spike_count.iter().all(|&c| c == 0));
    let total: usize = shards.iter().map(|s| s.neurons.len()).sum();
    assert_eq!(total, 30);
    for i in 0..30 {
        let level = s_level_of(neurons.s_coordinate[i]);
        assert!(shards[level].neurons.contains(&i));
        assert!(neurons.s_coordinate[i] >= 0 && neurons.s_coordinate[i] <= 655360);
    }
    for row in &neurons.synaptic_weights {
        for &w in row {
            assert!(w >= 0 && w <= 2 * FIXED_ONE);
        }
    }
}

#[test]
fn runner_initial_state_and_tick() {
    let config = BrainConfig { n_neurons: 20, night_interval: 3, ..BrainConfig::default() };
    let v0 = f32_to_fixed(0.02);
    let mut runner = BrainRunner::new(config, spiral_s_coordinates(20), v0, level_thresholds(v0));
    assert_eq!(runner.shards.len(), SIFS_LEVELS);
    assert_eq!(runner.shards[0].neurons, vec![0, 1]);
    assert_eq!(runner.shards[9].neurons, vec![18, 19]);
    assert_eq!(runner.time_step, 0);
    let input = vec![f32_to_fixed(0.01); 20];
    let mut dues = Vec::new();
    for _ in 0..7 {
        let (_spikes, due) = runner.day_tick(&input);
        dues.push(due);
        assert!(runner.spike_history.len() <= 3);
    }
    assert_eq!(dues, vec![false, false, true, false, false, true, false]);
    assert_eq!(runner.time_step, 7);
    assert_eq!(runner.spike_history.len(), 3);
}

#[test]
fn brain_config_defaults() {
    let c = BrainConfig::default();
    assert_eq!(c.n_neurons, 1000);
    assert_eq!(c.night_interval, 500);
    assert_eq!(c.steps_per_observation, 1);
    assert!(c.sifs_enabled);
    assert!(!c.trainable_readout);
}

#[test]
fn pools() {
    assert_eq!(pool_spike_counts(&[0, 3, 5, 9], 5), (2, 2));
    assert_eq!(pool_spike_counts(&[], 5), (0, 0));
    assert_eq!(pool_spike_counts(&[7, 8], 5), (0, 2));
}

#[test]
fn day_phase_inputs_ok_accepts_ordinary_input() {
    let neurons = new_neurons(20);
    let input: Vec<Fixed16> = vec![f32_to_fixed(0.03); 20];
    assert!(day_phase_inputs_ok(&neurons, &input, true));
    assert!(day_phase_inputs_ok(&neurons, &[], false));
}

#[test]
fn day_phase_inputs_ok_rejects_level_difference_overflow() {
    let neurons = new_neurons(4);
    // V - V_th(0) = i32::MIN - 1310 leaves the range of i32.
    let input: Vec<Fixed16> = vec![0, i32::MIN, 0, 0];
    assert!(!day_phase_inputs_ok(&neurons, &input, true));
    // Without the SIFS current no level difference is formed.
    assert!(day_phase_inputs_ok(&neurons, &input, false));
}

#[test]
fn day_phase_inputs_ok_rejects_full_spike_counter() {
    let mut neurons = new_neurons(3);
    let input: Vec<Fixed16> = vec![f32_to_fixed(0.03); 3];
    // Neuron 1 fires after a high voltage; with a full counter the step is refused.
    neurons.voltage[1] = f32_to_fixed(1.0);
    assert!(day_phase_inputs_ok(&neurons, &input, true));
    neurons.spike_count[1] = u16::MAX;
    assert!(!day_phase_inputs_ok(&neurons, &input, true));
    // A neuron that does not fire may have a full counter.
    neurons.spike_count[1] = 0;
    neurons.spike_count[0] = u16::MAX;
    assert!(day_phase_inputs_ok(&neurons, &input, true));
}

fn tick_with_reward(runner: &mut BrainRunner, input: &[Fixed16], reward: f32) -> Vec<usize> {
    let reward_scale = 1.0 + reward * 0.5;
    runner.tick(
        input,
        |count: u16, h: usize| f32_to_fixed((count as f32 / h as f32 * 0.1 - 0.05) * reward_scale),
        level_weights_of,
        |level: usize, w: Fixed16| {
            let plasticity = (SIFS_LEVELS - level) as f32 / SIFS_LEVELS as f32;
            f32_to_fixed(0.008 * plasticity.max(0.1) * fixed_to_f32(w).max(0.15))
        },
        |pre: u16, post: u16, h: usize| f32_to_fixed((pre as f32 / h as f32) * (post as f32 / h as f32) * reward_scale),
    )
}

fn trigger_with_reward(runner: &mut BrainRunner, reward: f32) {
    let reward_scale = 1.0 + reward * 0.5;
    runner.trigger_night_phase(
        |count: u16, h: usize| f32_to_fixed((count as f32 / h as f32 * 0.1 - 0.05) * reward_scale),
        level_weights_of,
        |level: usize, w: Fixed16| {
            let plasticity = (SIFS_LEVELS - level) as f32 / SIFS_LEVELS as f32;
            f32_to_fixed(0.008 * plasticity.max(0.1) * fixed_to_f32(w).max(0.15))
        },
        |pre: u16, post: u16, h: usize| f32_to_fixed((pre as f32 / h as f32) * (post as f32 / h as f32) * reward_scale),
    );
}

fn small_runner(night_interval: usize) -> BrainRunner {
    let config = BrainConfig { n_neurons: 20, night_interval, ..BrainConfig::default() };
    let v0 = f32_to_fixed(0.02);
    BrainRunner::new(config, spiral_s_coordinates(20), v0, level_thresholds(v0))
}

#[test]
fn runner_tick_runs_the_night_when_due() {
    let mut runner = small_runner(2);
    let s0 = runner.neurons.s_coordinate.clone();
    let input = vec![f32_to_fixed(0.01); 20];
    let spikes = tick_with_reward(&mut runner, &input, 0.0);
    assert!(spikes.is_empty());
    // No night yet: the scale coordinates are untouched.
    assert_eq!(runner.neurons.s_coordinate, s0);
    assert_eq!(runner.time_step, 1);
    tick_with_reward(&mut runner, &input, 0.0);
    // The clock reached 2: the night ran; silent neurons drift down by 0.05, floored at 0.
    for i in 0..20 {
        assert_eq!(runner.neurons.s_coordinate[i], (s0[i] - 3276).max(0));
        assert_eq!(runner.neurons.sifs_weights[i], level_weights_of(runner.neurons.s_coordinate[i]));
        let level = s_level_of(runner.neurons.s_coordinate[i]);
        assert!(runner.shards[level].neurons.contains(&i));
    }
    assert_eq!(runner.spike_history.len(), 2);
}

#[test]
fn runner_trigger_night_phase() {
    let mut runner = small_runner(100);
    let s0 = runner.neurons.s_coordinate.clone();
    // Empty history: nothing happens.
    trigger_with_reward(&mut runner, 1.0);
    assert_eq!(runner.neurons.s_coordinate, s0);
    assert_eq!(runner.shards[0].neurons, vec![0, 1]);
    let input = vec![f32_to_fixed(0.01); 20];
    tick_with_reward(&mut runner, &input, 1.0);
    assert_eq!(runner.neurons.s_coordinate, s0);
    // With a history the night runs, scaled by the reward: -0.05 * 1.5.
    trigger_with_reward(&mut runner, 1.0);
    let delta = f32_to_fixed(-0.05 * 1.5);
    for i in 0..20 {
        assert_eq!(runner.neurons.s_coordinate[i], (s0[i] + delta).max(0));
    }
    // The shards now follow the S-levels instead of the index blocks.
    assert_eq!(runner.shards[0].neurons, (0..20).filter(|&i| s_level_of(runner.neurons.s_coordinate[i]) == 0).collect::<Vec<usize>>());
    assert_eq!(runner.time_step, 1);
}

#[test]
fn initial_blocks_of_neurons() {
    assert_eq!(initial_block(20, 0), 0);
    assert_eq!(initial_block(20, 3), 1);
    assert_eq!(initial_block(20, 19), 9);
    assert_eq!(initial_block(7, 6), 8);
    assert_eq!(initial_block(3, 2), 6);
    assert_eq!(initial_block(1, 0), 0);
}

fn observe_with_reward(runner: &mut BrainRunner, input: &[Fixed16], reward: f32) -> Option<Vec<usize>> {
    let reward_scale = 1.0 + reward * 0.5;
    runner.observe(
        input,
        move |count: u16, h: usize| f32_to_fixed((count as f32 / h as f32 * 0.1 - 0.05) * reward_scale),
        level_weights_of,
        |level: usize, w: Fixed16| {
            let plasticity = (SIFS_LEVELS - level) as f32 / SIFS_LEVELS as f32;
            f32_to_fixed(0.008 * plasticity.max(0.1) * fixed_to_f32(w).max(0.15))
        },
        move |pre: u16, post: u16, h: usize| f32_to_fixed((pre as f32 / h as f32) * (post as f32 / h as f32) * reward_scale),
    )
}

fn driving_input() -> Vec<Fixed16> {
    // Neurons 0..10 are driven hard enough to spike; the rest get a small input.
    (0..20).map(|i| if i < 10 { i32::MAX / 2 } else { f32_to_fixed(0.01) }).collect()
}

#[test]
fn observe_runs_steps_per_observation_ticks() {
    let config = BrainConfig { n_neurons: 20, night_interval: 100, steps_per_observation: 3, ..BrainConfig::default() };
    let v0 = f32_to_fixed(0.02);
    let mut runner = BrainRunner::new(config, spiral_s_coordinates(20), v0, level_thresholds(v0));
    let mut reference = small_runner(100);
    let input = driving_input();
    let spikes = observe_with_reward(&mut runner, &input, 0.0).unwrap();
    assert_eq!(runner.time_step, 3);
    let mut last = Vec::new();
    for _ in 0..3 {
        last = tick_with_reward(&mut reference, &input, 0.0);
    }
    assert_eq!(spikes, last);
    assert_eq!(runner.neurons.voltage, reference.neurons.voltage);
    assert_eq!(runner.neurons.spike_count, reference.neurons.spike_count);
    assert_eq!(runner.spike_history, reference.spike_history);
    // Zero steps per observation still runs one tick.
    let config0 = BrainConfig { n_neurons: 20, night_interval: 100, steps_per_observation: 0, ..BrainConfig::default() };
    let mut one = BrainRunner::new(config0, spiral_s_coordinates(20), v0, level_thresholds(v0));
    observe_with_reward(&mut one, &input, 0.0).unwrap();
    assert_eq!(one.time_step, 1);
}

#[test]
fn observe_stops_before_a_tick_out_of_range() {
    let mut runner = small_runner(100);
    // V - V_th(n) overflows for neuron 0: the first tick is refused, nothing changes.
    let mut input = vec![0; 20];
    input[0] = i32::MIN;
    let v_before = runner.neurons.voltage.clone();
    assert!(observe_with_reward(&mut runner, &input, 0.0).is_none());
    assert_eq!(runner.time_step, 0);
    assert_eq!(runner.neurons.voltage, v_before);
    // A zero night interval is refused too.
    let mut zero = small_runner(0);
    assert!(observe_with_reward(&mut zero, &vec![0; 20], 0.0).is_none());
    assert_eq!(zero.time_step, 0);
}

#[test]
fn reward_reaches_the_brain_only_through_the_night() {
    let input = driving_input();
    let config = BrainConfig { n_neurons: 20, night_interval: 10, steps_per_observation: 4, ..BrainConfig::default() };
    let v0 = f32_to_fixed(0.02);
    let mut a = BrainRunner::new(config, spiral_s_coordinates(20), v0, level_thresholds(v0));
    let mut b = BrainRunner::new(config, spiral_s_coordinates(20), v0, level_thresholds(v0));
    // Ticks 1..=8 hold no night: the rewards make no difference.
    for _ in 0..2 {
        let sa = observe_with_reward(&mut a, &input, 1.0).unwrap();
        let sb = observe_with_reward(&mut b, &input, -1.0).unwrap();
        assert_eq!(sa, sb);
        assert_eq!(a.neurons.voltage, b.neurons.voltage);
        assert_eq!(a.neurons.s_coordinate, b.neurons.s_coordinate);
        assert_eq!(a.neurons.synaptic_weights, b.neurons.synaptic_weights);
    }
    assert!(a.neurons.spike_count[0] > 0);
    // The third observation crosses tick 10, a night tick: now the reward counts.
    observe_with_reward(&mut a, &input, 1.0).unwrap();
    observe_with_reward(&mut b, &input, -1.0).unwrap();
    assert_ne!(a.neurons.s_coordinate, b.neurons.s_coordinate);
}

#[test]
fn tick_inputs_ok_checks_the_night_after_the_day() {
    let runner = small_runner(1);
    let input = vec![f32_to_fixed(0.01); 20];
    let calm = |_c: u16, _h: usize| 0;
    assert!(runner.tick_inputs_ok(&input, &calm));
    // The night is due after the next tick: a huge delta overflows S for neurons with S > 0.
    let wild = |_c: u16, _h: usize| i32::MAX;
    assert!(!runner.tick_inputs_ok(&input, &wild));
    // With a longer interval no night is due, so the kernel does not matter.
    assert!(small_runner(5).tick_inputs_ok(&input, &wild));
    // Neuron 0 sits at S = 0: adding i32::MAX fits, so only the others fail.
    let neurons = new_neurons(1);
    assert!(night_phase_inputs_ok(&neurons, SIFS_LEVELS, 1, &wild));
    assert!(!night_phase_inputs_ok(&new_neurons(2), SIFS_LEVELS, 1, &wild));
    assert!(night_after_day_inputs_ok(&neurons, &[0], true, SIFS_LEVELS, 1, &wild));
    // A kernel that depends on the count after the day step: neuron 0 spikes, so its count
    // becomes 1 and that is what the kernel is asked about.
    let mut hot = new_neurons(2);
    hot.voltage[0] = f32_to_fixed(1.0);
    hot.s_coordinate[0] = f32_to_fixed(1.0);
    let on_spike = |c: u16, _h: usize| if c == 1 { i32::MAX } else { 0 };
    assert!(!night_after_day_inputs_ok(&hot, &[0, 0], true, SIFS_LEVELS, 1, &on_spike));
    assert!(night_phase_inputs_ok(&hot, SIFS_LEVELS, 1, &on_spike));
}

#[test]
fn sifs_off_input_does_not_reach_the_neurons() {
    let mut a = new_neurons(20);
    a.voltage[3] = f32_to_fixed(0.5);
    a.voltage[7] = 900;
    let mut b = a.clone();
    let shards: Vec<SIFSShard> = (0..SIFS_LEVELS).map(SIFSShard::new).collect();
    let before = a.voltage.clone();
    let s1 = day_phase_step(&mut a, &shards, 0, &vec![f32_to_fixed(0.03); 20], false);
    let s2 = day_phase_step(&mut b, &shards, 0, &vec![-5000; 20], false);
    assert_eq!(s1, s2);
    assert_eq!(s1, vec![3]);
    assert_eq!(a.voltage, b.voltage);
    for i in 0..20 {
        assert!(a.voltage[i] <= before[i]);
    }
    assert_eq!(a.voltage[7], (900 * 62259) >> 16);
}

#[test]
fn observation_schedule_of_clock_history_and_nights() {
    let config = BrainConfig { n_neurons: 20, night_interval: 4, steps_per_observation: 3, ..BrainConfig::default() };
    let v0 = f32_to_fixed(0.02);
    let mut runner = BrainRunner::new(config, spiral_s_coordinates(20), v0, level_thresholds(v0));
    let input = driving_input();
    let s0 = runner.neurons.s_coordinate.clone();
    let spikes = observe_with_reward(&mut runner, &input, 0.0).unwrap();
    // Ticks 1..=3: no night; the history holds min(0 + 3, 4) entries, the last one the spikes.
    assert_eq!(runner.time_step, 3);
    assert_eq!(runner.spike_history.len(), 3);
    assert_eq!(runner.spike_history.last().unwrap(), &spikes);
    assert_eq!(runner.neurons.s_coordinate, s0);
    // Ticks 4..=6: the night runs at tick 4; the history is capped at 4 entries.
    let spikes = observe_with_reward(&mut runner, &input, 0.0).unwrap();
    assert_eq!(runner.time_step, 6);
    assert_eq!(runner.spike_history.len(), 4);
    assert_eq!(runner.spike_history.last().unwrap(), &spikes);
    assert_ne!(runner.neurons.s_coordinate, s0);
}
