# tetra_bluestation

Verified pieces of a TETRA base station's configuration, subscriber state and
autonomous receiver gain sweep, written in Verus.

## Layout

- `src/` is the verified library:
  - `counters`: decode and CRC counters (`record`, `diff_from`) and laws over
    runs of `record` calls.
  - `registry`: registered ISSIs and their group affiliations, the registry
    invariant, and laws over sequences of registry calls.
  - `state`: the shared stack state.
  - `sweep`: the gain sweep as a state machine (`tick_pre`, `tick_post`),
    burst counting per tick, and laws over runs of ticks (settling length,
    window filling).
  - `ranking`: gap metrics, the eligibility tests, the ranking order and the
    summary report, with rates compared as exact quotients.
  - `combos`: gain combination indices.
  - `config`: which configuration keys each section knows, and the check
    that refuses unknown keys and other versions.
  - `devices`: the Stabilock 4032 test device adapter.
  - `export`: export file names and gain argument pairs.
  - `text`: string helpers.
- `tests/`: tests of the library.
- `app/`: the gain setter program, TOML and serde parsing, file export,
  floating-point rates and the loop that drives the sweep.

## Not here, and why

- The base station's physical-layer entity and the burst types
  (`PhyBs`, `RxBurstBits`, `RxSlotBits`, `TxSlotBits`) and the timeslot
  allocator of the stack state are built on the stack's core crates
  (`tetra_core`, `tetra_saps`), which are not part of this repository.
  The sweep logic that entity runs is in `src/sweep.rs`; `app/` holds the
  driver (`SweepDriver`), which has no caller here for the same reason.
- The field lists of the `phy_io`, `net_info`, `cell_info`, `brew`,
  `telemetry` and `command` sections belong to DTOs that are not part of this
  repository, so only the root, SoapySDR, sweep and gain range sections are
  checked for unknown keys. `restart_process_per_combo` is obsolete: a sweep
  section that still sets it is refused.
- Floating-point values stay in `app/`: frequency correction, rates for
  logs and exports, and gain value expansion. The minimum per-slot CRC pass
  rate reaches the library as the exact fraction that the configured value
  holds (thresholds below 2^-10 keep their 63 highest fraction bits), and the
  library compares rates against it exactly.
- Required uplink slots are numbered 0 to 3, as the per-slot counters are;
  an empty list requires all four.
- The sweep starts only in receive gain test mode, with an enabled sweep
  section whose gains give at least one combination
  (`RxGainSweepRuntime::for_test_mode`).
- The sweep's defaults of 300 window bursts and 8 settling slots are those of
  the documented example configuration.
