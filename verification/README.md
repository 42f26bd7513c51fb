# sifs_brain

A spiking brain model in Q16.16 fixed point, verified with Verus.

Neurons carry a membrane voltage, ten level weights W(n) = exp(-2n/pi^2) and ten
level thresholds V0/phi^n. A day step drives every neuron with the SIFS current
(the level weights times a smoothed step of the voltage above each level threshold),
fires, resets and makes the neuron refractory. A night phase moves each neuron's
scale coordinate S by its activity, recomputes its level weights, updates its
synapses (Hebbian, with inertia) and regroups the neurons into shards by S-level.
The S-sharded core adds ghost spikes between neighbouring S-levels.

## Layout

- `src/` the verified library:
  - `fixed.rs` Q16.16 numbers, the tables of W(n) and of the default thresholds;
  - `neuron.rs` the neuron arrays, shards, the SIFS current, recurrent pool sums;
  - `phase.rs` the day step (computed in parallel with rayon) and the night phase;
  - `runner.rs` the brain runner: the clock, the spike history, ticks and observations
    with their range checks, the night schedule;
  - `genesis_core.rs` the S-sharded core: shards by S-level, ghost spikes, the
    six-kernel day pipeline, its night phase and runner;
  - `http.rs` the framing of the HTTP server's requests and responses;
  - `laws.rs` properties of the model that span functions.
- `tests/` tests of the library.
- `app/` the program: argument handling, stdin/HTTP I/O, JSON, benchmarks, and the
  floating-point parts (conversions, phi-spiral, night kernels, readout score).

The floating-point kernels of the night phase are passed to the library as closures;
the library is verified for whatever they return.
