use crate::counters::{sat_sub, slot_index, spec_slot_index, RxGainDecodeCounters};
use crate::ranking::{calculate_gap_metrics, spec_stability, MinRate, SweepResult};
use vstd::prelude::*;

verus! {

/// Phases of an autonomous receiver gain sweep.
#[derive(Debug, Clone, Copy, PartialEq, Eq, Structural)]
pub enum RxGainSweepPhase {
    /// The next gain combination is to be applied.
    ApplyGains,
    /// Waiting for the receiver to settle after new gains.
    Settling,
    /// Counting bursts in the measurement window.
    MeasureWindow,
    /// The window is full: record the result and move on.
    FinalizeAndNext,
    /// No more work.
    Completed,
}

/// `x + y` on `u32`, held at `u32::MAX`.
pub open spec fn sat_add32(x: u32, y: u32) -> u32 {
    if x as int + y as int > u32::MAX as int {
        u32::MAX
    } else {
        (x + y) as u32
    }
}

/// The next burst count at which progress is reported: `next` advanced in
/// steps of `step` (held at `u32::MAX`) until it exceeds `measured`.
pub open spec fn progress_after(next: u32, measured: u32, step: u32) -> u32
    decreases u32::MAX as int - next as int,
{
    if next > measured || step == 0 || next == u32::MAX {
        next
    } else {
        progress_after(sat_add32(next, step), measured, step)
    }
}

/// One received timeslot: its TDMA timeslot number and whether a burst was
/// found in the full slot and in each half slot.
#[derive(Debug, Clone, Copy)]
pub struct RxSlotDetection {
    pub timeslot: u8,
    pub fullslot: bool,
    pub subslot1: bool,
    pub subslot2: bool,
}

/// Number of bursts found in one received slot.
pub open spec fn bursts_in(s: Option<RxSlotDetection>) -> nat {
    match s {
        None => 0,
        Some(d) => (if d.fullslot { 1nat } else { 0nat }) + (if d.subslot1 { 1nat } else { 0nat }) + (
        if d.subslot2 {
            1nat
        } else {
            0nat
        }),
    }
}

/// Number of bursts found in the first `n` received slots.
pub open spec fn bursts_total(slots: Seq<Option<RxSlotDetection>>, n: int) -> nat
    decreases n,
{
    if n <= 0 {
        0
    } else {
        bursts_total(slots, n - 1) + bursts_in(slots[n - 1])
    }
}

/// Number of bursts found in the first `n` received slots whose timeslot
/// maps to counter `idx`.
pub open spec fn bursts_at(slots: Seq<Option<RxSlotDetection>>, n: int, idx: int) -> nat
    decreases n,
{
    if n <= 0 {
        0
    } else {
        bursts_at(slots, n - 1, idx) + match slots[n - 1] {
            Some(d) => if spec_slot_index(d.timeslot as int) == idx {
                bursts_in(slots[n - 1])
            } else {
                0nat
            },
            None => 0nat,
        }
    }
}

/// `min(x, u32::MAX)`.
pub open spec fn clamp32(x: nat) -> u32 {
    if x > u32::MAX as nat {
        u32::MAX
    } else {
        x as u32
    }
}

/// Bursts found in one tick.
#[derive(Debug, Clone, Copy)]
pub struct TickDetections {
    /// Bursts found, held at `u32::MAX`.
    pub detected_bursts: u32,
    /// Bursts found per timeslot counter, each held at `u32::MAX`.
    pub detected_per_slot: [u32; 4],
}

/// Counts the bursts found in the slots received in one tick, in total and
/// per timeslot counter.
pub fn count_detections(slots: &Vec<Option<RxSlotDetection>>) -> (t: TickDetections)
    ensures
        t.detected_bursts == clamp32(bursts_total(slots@, slots@.len() as int)),
        forall|i: int| 0 <= i < 4 ==> #[trigger] t.detected_per_slot@[i] == clamp32(bursts_at(slots@, slots@.len() as int, i)),
{
    let mut detected_bursts: u32 = 0;
    let mut per: [u32; 4] = [0u32, 0u32, 0u32, 0u32];
    let mut n: usize = 0;
    while n < slots.len()
        invariant
            n <= slots.len(),
            detected_bursts == clamp32(bursts_total(slots@, n as int)),
            forall|i: int| 0 <= i < 4 ==> #[trigger] per@[i] == clamp32(bursts_at(slots@, n as int, i)),
        decreases slots.len() - n,
    {
        if let Some(d) = slots[n] {
            let idx = slot_index(d.timeslot);
            let mut found: u32 = 0;
            if d.fullslot {
                found += 1;
            }
            if d.subslot1 {
                found += 1;
            }
            if d.subslot2 {
                found += 1;
            }
            let mut j: u32 = 0;
            while j < found
                invariant
                    j <= found,
                    found == bursts_in(slots@[n as int]),
                    idx == spec_slot_index(d.timeslot as int),
                    idx < 4,
                    detected_bursts == clamp32(bursts_total(slots@, n as int) + (j as nat)),
                    forall|i: int|
                        0 <= i < 4 ==> #[trigger] per@[i] == clamp32(
                            bursts_at(slots@, n as int, i) + if i == idx {
                                j as nat
                            } else {
                                0nat
                            },
                        ),
                decreases found - j,
            {
                detected_bursts = detected_bursts.saturating_add(1);
                per[idx] = per[idx].saturating_add(1);
                j += 1;
            }
        }
        n += 1;
    }
    TickDetections { detected_bursts, detected_per_slot: per }
}

/// The state of an autonomous receiver gain sweep. The gain combinations
/// themselves are kept by the caller; the sweep refers to them by position.
#[derive(Debug)]
pub struct RxGainSweepRuntime {
    pub phase: RxGainSweepPhase,
    /// Number of gain combinations.
    pub num_combos: usize,
    /// Position of the combination being measured.
    pub current_idx: usize,
    pub settling_slots: u32,
    pub settling_remaining: u32,
    /// Bursts to count in each measurement window.
    pub window_bursts: u32,
    pub progress_log_step_bursts: u32,
    pub next_progress_log_bursts: u32,
    pub measured_bursts: u32,
    /// Receive ticks in the current window.
    pub expected_slots: u32,
    pub slot_detected: [u32; 4],
    pub measured_slots: u32,
    /// Decode counters when the current combination was applied.
    pub window_decode_baseline: RxGainDecodeCounters,
    pub required_ul_slots: Vec<u8>,
    /// Minimum per-slot CRC pass rate.
    pub min_slot_crc_pass_rate: Option<MinRate>,
    pub auto_exit: bool,
    pub test_device_type: String,
    pub test_signal_mode: String,
    pub run_started_unix: u64,
    pub results: Vec<SweepResult>,
    /// Start of the current measurement window, in Unix seconds.
    pub window_start_unix: u64,
}

/// What the caller is to do after `tick_pre`.
#[derive(Debug, Clone, Copy, PartialEq, Eq, Structural)]
pub enum PreTickAction {
    /// Nothing.
    Idle,
    /// Applying the gain combination failed; the sweep has stopped.
    ApplyFailed,
    /// The gain combination at this position was applied; settling begins.
    GainsApplied(usize),
    /// The measurement window of the combination at this position began.
    MeasureStarted(usize),
    /// The result of the window was appended to `results`. When the sweep
    /// is complete the caller reports the results, and ends the process if
    /// `exit` is set.
    Finalized { completed: bool, exit: bool },
}

/// What the caller is to report after `tick_post`.
#[derive(Debug, Clone, Copy, PartialEq, Eq, Structural)]
pub struct PostTickAction {
    /// Bursts were counted in the window this tick.
    pub bursts_counted: bool,
    /// A progress threshold was reached.
    pub progress_reached: bool,
    /// The window is full.
    pub window_ready: bool,
}

/// `r` is the result of finalizing the window of `rt` with decode counters
/// `latest` at time `now`.
pub open spec fn finalized_result(rt: RxGainSweepRuntime, latest: RxGainDecodeCounters, now: u64, r: SweepResult) -> bool {
    let b = rt.window_decode_baseline;
    &&& r.combo_index == rt.current_idx
    &&& r.detected_bursts == rt.measured_bursts
    &&& r.expected_slots == rt.expected_slots
    &&& r.slot_detected@ == rt.slot_detected@
    &&& r.measured_slots == rt.measured_slots
    &&& RxGainDecodeCounters::is_diff(
        &RxGainDecodeCounters {
            decode_attempted: r.decode_attempted,
            decode_success: r.decode_success,
            crc_ok: r.crc_ok,
            false_positive: r.false_positive,
            slot_attempted: r.slot_attempted,
            slot_crc_ok: r.slot_crc_ok,
        },
        &latest,
        &b,
    )
    &&& r.gaps_detected == (if rt.expected_slots >= rt.measured_bursts {
        (rt.expected_slots - rt.measured_bursts) as u32
    } else {
        0u32
    })
    &&& r.stability == spec_stability(rt.measured_bursts as usize, rt.expected_slots)
    &&& r.duration_ms == sat_sub(now, rt.window_start_unix) * 1000
}

/// Two sweeps share their setup.
pub open spec fn same_setup(a: RxGainSweepRuntime, b: RxGainSweepRuntime) -> bool {
    &&& a.num_combos == b.num_combos
    &&& a.settling_slots == b.settling_slots
    &&& a.window_bursts == b.window_bursts
    &&& a.progress_log_step_bursts == b.progress_log_step_bursts
    &&& a.required_ul_slots@ == b.required_ul_slots@
    &&& a.min_slot_crc_pass_rate == b.min_slot_crc_pass_rate
    &&& a.auto_exit == b.auto_exit
    &&& a.test_device_type@ == b.test_device_type@
    &&& a.test_signal_mode@ == b.test_signal_mode@
    &&& a.run_started_unix == b.run_started_unix
}

/// Two sweeps are at the same point of the current measurement window.
pub open spec fn same_window(a: RxGainSweepRuntime, b: RxGainSweepRuntime) -> bool {
    &&& a.settling_remaining == b.settling_remaining
    &&& a.next_progress_log_bursts == b.next_progress_log_bursts
    &&& a.measured_bursts == b.measured_bursts
    &&& a.expected_slots == b.expected_slots
    &&& a.slot_detected@ == b.slot_detected@
    &&& a.measured_slots == b.measured_slots
    &&& a.window_decode_baseline.same_as(&b.window_decode_baseline)
    &&& a.window_start_unix == b.window_start_unix
}

/// The sweep `new`, with `action`, follows `old` after one `tick_pre` in
/// which applying gains succeeded when `applied`, the decode counters read
/// `latest`, and the time is `now`.
pub open spec fn tick_pre_step(
    old: RxGainSweepRuntime,
    new: RxGainSweepRuntime,
    applied: bool,
    latest: RxGainDecodeCounters,
    now: u64,
    action: PreTickAction,
) -> bool {
    &&& same_setup(old, new)
    &&& match old.phase {
        RxGainSweepPhase::ApplyGains => if applied {
            &&& action == PreTickAction::GainsApplied(old.current_idx)
            &&& new.phase == RxGainSweepPhase::Settling
            &&& new.current_idx == old.current_idx
            &&& new.results@ == old.results@
            &&& new.settling_remaining == old.settling_slots
            &&& new.measured_bursts == 0
            &&& new.next_progress_log_bursts == old.progress_log_step_bursts
            &&& new.expected_slots == 0
            &&& new.slot_detected@ == seq![0u32, 0u32, 0u32, 0u32]
            &&& new.measured_slots == 0
            &&& new.window_start_unix == 0
            &&& new.window_decode_baseline.same_as(&latest)
        } else {
            &&& action == PreTickAction::ApplyFailed
            &&& new.phase == RxGainSweepPhase::Completed
            &&& new.current_idx == old.current_idx
            &&& new.results@ == old.results@
            &&& same_window(old, new)
        },
        RxGainSweepPhase::Settling => {
            &&& new.current_idx == old.current_idx
            &&& new.results@ == old.results@
            &&& if old.settling_remaining > 0 {
                &&& action == PreTickAction::Idle
                &&& new.phase == RxGainSweepPhase::Settling
                &&& new.settling_remaining == old.settling_remaining - 1
                &&& same_window(old, RxGainSweepRuntime { settling_remaining: old.settling_remaining, ..new })
            } else {
                &&& action == PreTickAction::MeasureStarted(old.current_idx)
                &&& new.phase == RxGainSweepPhase::MeasureWindow
                &&& new.window_start_unix == now
                &&& same_window(old, RxGainSweepRuntime { window_start_unix: old.window_start_unix, ..new })
            }
        },
        RxGainSweepPhase::FinalizeAndNext => {
            let done = old.current_idx + 1 >= old.num_combos;
            &&& action == PreTickAction::Finalized { completed: done, exit: done && old.auto_exit }
            &&& new.results@.len() == old.results@.len() + 1
            &&& new.results@.drop_last() == old.results@
            &&& finalized_result(old, latest, now, new.results@.last())
            &&& new.current_idx == old.current_idx + 1
            &&& new.phase == if done {
                RxGainSweepPhase::Completed
            } else {
                RxGainSweepPhase::ApplyGains
            }
            &&& new.window_decode_baseline.same_as(&latest)
            &&& same_window(old, RxGainSweepRuntime { window_decode_baseline: old.window_decode_baseline, ..new })
        },
        _ => {
            &&& action == PreTickAction::Idle
            &&& new.phase == old.phase
            &&& new.current_idx == old.current_idx
            &&& new.results@ == old.results@
            &&& same_window(old, new)
        },
    }
}

/// The sweep `new`, with `action`, follows `old` after one `tick_post` in
/// which `detected` bursts were found, `per_slot[i]` of them on timeslot
/// counter `i`.
pub open spec fn tick_post_step(
    old: RxGainSweepRuntime,
    new: RxGainSweepRuntime,
    detected: u32,
    per_slot: Seq<u32>,
    action: PostTickAction,
) -> bool {
    &&& same_setup(old, new)
    &&& new.current_idx == old.current_idx
    &&& new.results@ == old.results@
    &&& new.settling_remaining == old.settling_remaining
    &&& new.window_decode_baseline.same_as(&old.window_decode_baseline)
    &&& new.window_start_unix == old.window_start_unix
    &&& if old.phase != RxGainSweepPhase::MeasureWindow {
        &&& action == PostTickAction { bursts_counted: false, progress_reached: false, window_ready: false }
        &&& new.phase == old.phase
        &&& same_window(old, new)
    } else {
        let measured = sat_add32(old.measured_bursts, detected);
        let reached = measured < old.window_bursts && measured >= old.next_progress_log_bursts;
        let ready = measured >= old.window_bursts;
        &&& new.measured_bursts == measured
        &&& new.expected_slots == sat_add32(old.expected_slots, 1)
        &&& new.measured_slots == sat_add32(old.measured_slots, 1)
        &&& forall|i: int| 0 <= i < 4 ==> #[trigger] new.slot_detected@[i] == sat_add32(old.slot_detected@[i], per_slot[i])
        &&& new.next_progress_log_bursts == if reached {
            progress_after(old.next_progress_log_bursts, measured, old.progress_log_step_bursts)
        } else {
            old.next_progress_log_bursts
        }
        &&& new.phase == if ready {
            RxGainSweepPhase::FinalizeAndNext
        } else {
            RxGainSweepPhase::MeasureWindow
        }
        &&& action == PostTickAction { bursts_counted: detected > 0, progress_reached: reached, window_ready: ready }
    }
}

/// `rt` is a sweep that has just started over `num_combos` combinations
/// with these settings: nothing measured yet, the first combination due,
/// progress reported every tenth of the window (at least every burst), an
/// empty list of required slots standing for all four (0 to 3), and the
/// default device type and signal profile where none is given.
pub open spec fn fresh_sweep(
    rt: RxGainSweepRuntime,
    num_combos: usize,
    settling_slots: u32,
    window_bursts: u32,
    required_ul_slots: Seq<u8>,
    min_slot_crc_pass_rate: Option<MinRate>,
    auto_exit: bool,
    test_device_type: Option<String>,
    test_signal_profile: Option<String>,
    run_started_unix: u64,
) -> bool {
    let step: u32 = if window_bursts / 10 >= 1 { (window_bursts / 10) as u32 } else { 1u32 };
    &&& rt.wf()
    &&& rt.phase == RxGainSweepPhase::ApplyGains
    &&& rt.num_combos == num_combos
    &&& rt.current_idx == 0
    &&& rt.settling_slots == settling_slots
    &&& rt.settling_remaining == 0
    &&& rt.window_bursts == window_bursts
    &&& rt.progress_log_step_bursts == step
    &&& rt.next_progress_log_bursts == step
    &&& rt.measured_bursts == 0
    &&& rt.expected_slots == 0
    &&& rt.slot_detected@ == seq![0u32, 0u32, 0u32, 0u32]
    &&& rt.measured_slots == 0
    &&& rt.window_decode_baseline.is_zero()
    &&& rt.required_ul_slots@ == if required_ul_slots.len() == 0 {
        seq![0u8, 1u8, 2u8, 3u8]
    } else {
        required_ul_slots
    }
    &&& rt.min_slot_crc_pass_rate == min_slot_crc_pass_rate
    &&& rt.auto_exit == auto_exit
    &&& rt.test_device_type@ == match test_device_type {
        Some(s) => s@,
        None => "stabilock4032"@,
    }
    &&& rt.test_signal_mode@ == match test_signal_profile {
        Some(s) => s@,
        None => "t1_all_ul_slots"@,
    }
    &&& rt.run_started_unix == run_started_unix
    &&& rt.results@.len() == 0
    &&& rt.window_start_unix == 0
}

/// The `[phy_io.soapysdr.rx_gain_sweep]` settings that the sweep runs on.
#[derive(Debug)]
pub struct SweepSettings {
    pub enabled: bool,
    pub settling_slots: u32,
    pub window_bursts: u32,
    pub required_ul_slots: Vec<u8>,
    pub min_slot_crc_pass_rate: Option<MinRate>,
    pub auto_exit: bool,
    pub test_device_type: Option<String>,
    pub test_signal_profile: Option<String>,
}

/// `states` is a run of `tick_pre` calls: each state follows the one before
/// it with the applied flag, counters, time and action of that call.
pub open spec fn tick_pre_run(
    states: Seq<RxGainSweepRuntime>,
    applied: Seq<bool>,
    latest: Seq<RxGainDecodeCounters>,
    now: Seq<u64>,
    actions: Seq<PreTickAction>,
) -> bool {
    &&& states.len() >= 1
    &&& applied.len() + 1 == states.len()
    &&& latest.len() + 1 == states.len()
    &&& now.len() + 1 == states.len()
    &&& actions.len() + 1 == states.len()
    &&& forall|k: int| 0 <= k < states.len() - 1 ==> #[trigger] pre_link(states, applied, latest, now, actions, k)
}

/// Call `k` of a run of `tick_pre` calls.
pub open spec fn pre_link(
    states: Seq<RxGainSweepRuntime>,
    applied: Seq<bool>,
    latest: Seq<RxGainDecodeCounters>,
    now: Seq<u64>,
    actions: Seq<PreTickAction>,
    k: int,
) -> bool {
    tick_pre_step(states[k], states[k + 1], applied[k], latest[k], now[k], actions[k])
}

/// `states` is a run of `tick_post` calls, each of which found at least one
/// burst.
pub open spec fn tick_post_run_with_bursts(
    states: Seq<RxGainSweepRuntime>,
    detected: Seq<u32>,
    per_slot: Seq<Seq<u32>>,
    actions: Seq<PostTickAction>,
) -> bool {
    &&& states.len() >= 1
    &&& detected.len() + 1 == states.len()
    &&& per_slot.len() + 1 == states.len()
    &&& actions.len() + 1 == states.len()
    &&& forall|k: int| 0 <= k < states.len() - 1 ==> #[trigger] post_link(states, detected, per_slot, actions, k)
}

/// Call `k` of a run of `tick_post` calls, which found at least one burst.
pub open spec fn post_link(
    states: Seq<RxGainSweepRuntime>,
    detected: Seq<u32>,
    per_slot: Seq<Seq<u32>>,
    actions: Seq<PostTickAction>,
    k: int,
) -> bool {
    &&& detected[k] >= 1
    &&& tick_post_step(states[k], states[k + 1], detected[k], per_slot[k], actions[k])
}

proof fn lemma_settling_prefix(
    states: Seq<RxGainSweepRuntime>,
    applied: Seq<bool>,
    latest: Seq<RxGainDecodeCounters>,
    now: Seq<u64>,
    actions: Seq<PreTickAction>,
    k: int,
)
    requires
        tick_pre_run(states, applied, latest, now, actions),
        states.len() == states[0].settling_slots + 3,
        states[0].phase == RxGainSweepPhase::ApplyGains,
        applied[0],
        1 <= k <= states[0].settling_slots + 1,
    ensures
        states[k].phase == RxGainSweepPhase::Settling,
        states[k].settling_remaining == states[0].settling_slots + 1 - k,
        states[k].current_idx == states[0].current_idx,
        states[k].settling_slots == states[0].settling_slots,
    decreases k,
{
    assert(pre_link(states, applied, latest, now, actions, k - 1));
    if k > 1 {
        lemma_settling_prefix(states, applied, latest, now, actions, k - 1);
    }
}

/// Once gains are applied, the sweep settles for exactly `settling_slots`
/// further calls of `tick_pre`, each of which counts down one slot and asks
/// for nothing; the call after them starts the measurement window at the
/// time it was given. While settling no gain combination is due.
pub proof fn law_settling_lasts_settling_slots_ticks(
    states: Seq<RxGainSweepRuntime>,
    applied: Seq<bool>,
    latest: Seq<RxGainDecodeCounters>,
    now: Seq<u64>,
    actions: Seq<PreTickAction>,
)
    requires
        tick_pre_run(states, applied, latest, now, actions),
        states.len() == states[0].settling_slots + 3,
        states[0].phase == RxGainSweepPhase::ApplyGains,
        applied[0],
    ensures
        actions[0] == PreTickAction::GainsApplied(states[0].current_idx),
        forall|k: int|
            1 <= k <= states[0].settling_slots + 1 ==> (#[trigger] states[k]).phase == RxGainSweepPhase::Settling
                && states[k].settling_remaining == states[0].settling_slots + 1 - k,
        forall|k: int| 1 <= k <= states[0].settling_slots ==> #[trigger] actions[k] == PreTickAction::Idle,
        states[states[0].settling_slots + 2].phase == RxGainSweepPhase::MeasureWindow,
        states[states[0].settling_slots + 2].window_start_unix == now[states[0].settling_slots + 1],
        actions[states[0].settling_slots + 1] == PreTickAction::MeasureStarted(states[0].current_idx),
{
    let n = states[0].settling_slots as int;
    assert(pre_link(states, applied, latest, now, actions, 0));
    assert forall|k: int|
        1 <= k <= n + 1 implies (#[trigger] states[k]).phase == RxGainSweepPhase::Settling
            && states[k].settling_remaining == n + 1 - k by {
        lemma_settling_prefix(states, applied, latest, now, actions, k);
    }
    assert forall|k: int| 1 <= k <= n implies #[trigger] actions[k] == PreTickAction::Idle by {
        lemma_settling_prefix(states, applied, latest, now, actions, k);
        assert(pre_link(states, applied, latest, now, actions, k));
    }
    lemma_settling_prefix(states, applied, latest, now, actions, n + 1);
    assert(pre_link(states, applied, latest, now, actions, n + 1));
}

/// Number of `tick_post` calls within which a window that has counted
/// `measured` of `window` bursts fills when every call finds a burst.
pub open spec fn window_fill_bound(measured: u32, window: u32) -> int {
    if window > measured {
        window - measured
    } else {
        1
    }
}

proof fn lemma_window_progress(
    states: Seq<RxGainSweepRuntime>,
    detected: Seq<u32>,
    per_slot: Seq<Seq<u32>>,
    actions: Seq<PostTickAction>,
    k: int,
)
    requires
        tick_post_run_with_bursts(states, detected, per_slot, actions),
        states[0].phase == RxGainSweepPhase::MeasureWindow,
        1 <= k < states.len(),
    ensures
        states[k].window_bursts == states[0].window_bursts,
        states[k].phase == RxGainSweepPhase::FinalizeAndNext || (states[k].phase
            == RxGainSweepPhase::MeasureWindow && states[k].measured_bursts >= states[0].measured_bursts + k
            && states[k].measured_bursts < states[0].window_bursts),
    decreases k,
{
    assert(post_link(states, detected, per_slot, actions, k - 1));
    if k > 1 {
        lemma_window_progress(states, detected, per_slot, actions, k - 1);
    }
}

/// A measurement window that has counted `m` of its `W` bursts is full
/// after at most `max(W - m, 1)` calls of `tick_post` when each of them
/// finds at least one burst.
pub proof fn law_window_fills_when_bursts_arrive(
    states: Seq<RxGainSweepRuntime>,
    detected: Seq<u32>,
    per_slot: Seq<Seq<u32>>,
    actions: Seq<PostTickAction>,
)
    requires
        tick_post_run_with_bursts(states, detected, per_slot, actions),
        states[0].phase == RxGainSweepPhase::MeasureWindow,
        states.len() == window_fill_bound(states[0].measured_bursts, states[0].window_bursts) + 1,
    ensures
        states.last().phase == RxGainSweepPhase::FinalizeAndNext,
{
    lemma_window_progress(states, detected, per_slot, actions, states.len() - 1);
}

impl RxGainSweepRuntime {
    /// The sweep's invariant: at least one combination, the current one in
    /// range until the sweep completes, a positive progress step, and one
    /// result for each combination before the current one, in order.
    pub open spec fn wf(&self) -> bool {
        &&& self.num_combos > 0
        &&& self.current_idx <= self.num_combos
        &&& self.phase != RxGainSweepPhase::Completed ==> self.current_idx < self.num_combos
        &&& self.progress_log_step_bursts >= 1
        &&& self.results@.len() == self.current_idx
        &&& forall|i: int| 0 <= i < self.results@.len() ==> (#[trigger] self.results@[i]).combo_index == i
    }

    /// Whether the sweep's invariant holds.
    pub fn is_consistent(&self) -> (b: bool)
        ensures
            b == self.wf(),
    {
        if !(self.num_combos > 0 && self.current_idx <= self.num_combos && (self.phase
            == RxGainSweepPhase::Completed || self.current_idx < self.num_combos)
            && self.progress_log_step_bursts >= 1 && self.results.len() == self.current_idx) {
            return false;
        }
        let mut i: usize = 0;
        while i < self.results.len()
            invariant
                i <= self.results@.len(),
                forall|j: int| 0 <= j < i ==> (#[trigger] self.results@[j]).combo_index == j,
            decreases self.results@.len() - i,
        {
            if self.results[i].combo_index != i {
                return false;
            }
            i += 1;
        }
        true
    }

    /// Starts a sweep over `num_combos` gain combinations, or none when the
    /// sweep is disabled or there are no combinations. An empty list of
    /// required uplink slots stands for all four, slots 0 to 3; a missing
    /// device type for "stabilock4032" and a missing signal profile for
    /// "t1_all_ul_slots". Progress is reported every tenth of the window
    /// (at least every burst).
    pub fn from_config(
        enabled: bool,
        num_combos: usize,
        settling_slots: u32,
        window_bursts: u32,
        required_ul_slots: Vec<u8>,
        min_slot_crc_pass_rate: Option<MinRate>,
        auto_exit: bool,
        test_device_type: Option<String>,
        test_signal_profile: Option<String>,
        run_started_unix: u64,
    ) -> (r: Option<Self>)
        ensures
            r is None <==> (!enabled || num_combos == 0),
            r matches Some(rt) ==> fresh_sweep(
                rt,
                num_combos,
                settling_slots,
                window_bursts,
                required_ul_slots@,
                min_slot_crc_pass_rate,
                auto_exit,
                test_device_type,
                test_signal_profile,
                run_started_unix,
            ),
    {
        if !enabled || num_combos == 0 {
            return None;
        }
        let tenth = window_bursts / 10;
        let step = if tenth >= 1 { tenth } else { 1 };
        let ghost given = required_ul_slots@;
        let required = if required_ul_slots.len() == 0 {
            let mut v: Vec<u8> = Vec::new();
            v.push(0);
            v.push(1);
            v.push(2);
            v.push(3);
            v
        } else {
            required_ul_slots
        };
        proof {
            if given.len() == 0 {
                assert(required@ =~= seq![0u8, 1u8, 2u8, 3u8]);
            }
        }
        let device = match test_device_type {
            Some(s) => s,
            None => String::from_str("stabilock4032"),
        };
        let mode = match test_signal_profile {
            Some(s) => s,
            None => String::from_str("t1_all_ul_slots"),
        };
        Some(RxGainSweepRuntime {
            phase: RxGainSweepPhase::ApplyGains,
            num_combos,
            current_idx: 0,
            settling_slots,
            settling_remaining: 0,
            window_bursts,
            progress_log_step_bursts: step,
            next_progress_log_bursts: step,
            measured_bursts: 0,
            expected_slots: 0,
            slot_detected: [0u32, 0u32, 0u32, 0u32],
            measured_slots: 0,
            window_decode_baseline: RxGainDecodeCounters::zero(),
            required_ul_slots: required,
            min_slot_crc_pass_rate,
            auto_exit,
            test_device_type: device,
            test_signal_mode: mode,
            run_started_unix,
            results: Vec::new(),
            window_start_unix: 0,
        })
    }

    /// The sweep of a base station: one runs only in receive gain test mode,
    /// when the sweep section is present and enabled, and when its gains
    /// give at least one combination (`num_combos`, counted by the caller).
    pub fn for_test_mode(
        rx_gain_test_mode: bool,
        sweep: Option<SweepSettings>,
        num_combos: usize,
        run_started_unix: u64,
    ) -> (r: Option<Self>)
        ensures
            r is Some <==> (rx_gain_test_mode && sweep is Some && sweep->0.enabled && num_combos > 0),
            r matches Some(rt) ==> fresh_sweep(
                rt,
                num_combos,
                sweep->0.settling_slots,
                sweep->0.window_bursts,
                sweep->0.required_ul_slots@,
                sweep->0.min_slot_crc_pass_rate,
                sweep->0.auto_exit,
                sweep->0.test_device_type,
                sweep->0.test_signal_profile,
                run_started_unix,
            ),
    {
        if !rx_gain_test_mode {
            return None;
        }
        match sweep {
            None => None,
            Some(c) => Self::from_config(
                c.enabled,
                num_combos,
                c.settling_slots,
                c.window_bursts,
                c.required_ul_slots,
                c.min_slot_crc_pass_rate,
                c.auto_exit,
                c.test_device_type,
                c.test_signal_profile,
                run_started_unix,
            ),
        }
    }

    /// The position of the gain combination to apply before this tick, if
    /// the sweep is about to apply one.
    pub fn combo_to_apply(&self) -> (r: Option<usize>)
        ensures
            r == (if self.phase == RxGainSweepPhase::ApplyGains {
                Some(self.current_idx)
            } else {
                None
            }),
    {
        if self.phase == RxGainSweepPhase::ApplyGains {
            Some(self.current_idx)
        } else {
            None
        }
    }

    /// Records the result of the current window: the burst and tick
    /// counts, the decode counts since the baseline, the gap metrics and the
    /// window's duration; `latest` becomes the new baseline.
    fn finalize_current_combo(&mut self, latest: &RxGainDecodeCounters, now_unix: u64)
        requires
            sat_sub(now_unix, old(self).window_start_unix) * 1000 <= u64::MAX,
        ensures
            final(self).results@.len() == old(self).results@.len() + 1,
            final(self).results@.drop_last() == old(self).results@,
            finalized_result(*old(self), *latest, now_unix, final(self).results@.last()),
            final(self).window_decode_baseline.same_as(latest),
            same_setup(*old(self), *final(self)),
            same_window(*old(self), RxGainSweepRuntime { window_decode_baseline: old(self).window_decode_baseline, ..*final(self) }),
            final(self).phase == old(self).phase,
            final(self).current_idx == old(self).current_idx,
    {
        let delta = latest.diff_from(&self.window_decode_baseline);
        let (gaps_detected, stability) = calculate_gap_metrics(self.measured_bursts as usize, self.expected_slots);
        let elapsed = now_unix.saturating_sub(self.window_start_unix);
        let duration_ms = elapsed * 1000;
        let result = SweepResult {
            combo_index: self.current_idx,
            detected_bursts: self.measured_bursts,
            expected_slots: self.expected_slots,
            slot_detected: self.slot_detected,
            measured_slots: self.measured_slots,
            decode_attempted: delta.decode_attempted,
            decode_success: delta.decode_success,
            crc_ok: delta.crc_ok,
            false_positive: delta.false_positive,
            slot_attempted: delta.slot_attempted,
            slot_crc_ok: delta.slot_crc_ok,
            gaps_detected,
            stability,
            duration_ms,
        };
        self.window_decode_baseline = *latest;
        let ghost before = self.results@;
        self.results.push(result);
        proof {
            assert(self.results@.drop_last() =~= before);
        }
    }

    /// Advances the sweep before a receive tick. `applied` says whether the
    /// gain combination named by `combo_to_apply` was applied (it is read
    /// only when one was due), `latest` holds the current decode counters
    /// and `now_unix` the time in Unix seconds.
    pub fn tick_pre(&mut self, applied: bool, latest: &RxGainDecodeCounters, now_unix: u64) -> (action: PreTickAction)
        requires
            old(self).wf(),
            old(self).phase == RxGainSweepPhase::FinalizeAndNext ==> sat_sub(now_unix, old(self).window_start_unix)
                * 1000 <= u64::MAX,
        ensures
            final(self).wf(),
            tick_pre_step(*old(self), *final(self), applied, *latest, now_unix, action),
            action matches PreTickAction::Finalized { completed, .. } ==> (completed
                <==> final(self).results@.len() == final(self).num_combos),
    {
        match self.phase {
            RxGainSweepPhase::ApplyGains => {
                if !applied {
                    self.phase = RxGainSweepPhase::Completed;
                    return PreTickAction::ApplyFailed;
                }
                self.settling_remaining = self.settling_slots;
                self.measured_bursts = 0;
                self.next_progress_log_bursts = self.progress_log_step_bursts;
                self.expected_slots = 0;
                self.slot_detected = [0u32, 0u32, 0u32, 0u32];
                self.measured_slots = 0;
                self.window_start_unix = 0;
                self.window_decode_baseline = *latest;
                self.phase = RxGainSweepPhase::Settling;
                PreTickAction::GainsApplied(self.current_idx)
            },
            RxGainSweepPhase::Settling => {
                if self.settling_remaining > 0 {
                    self.settling_remaining = self.settling_remaining - 1;
                    PreTickAction::Idle
                } else {
                    self.window_start_unix = now_unix;
                    self.phase = RxGainSweepPhase::MeasureWindow;
                    PreTickAction::MeasureStarted(self.current_idx)
                }
            },
            RxGainSweepPhase::MeasureWindow => PreTickAction::Idle,
            RxGainSweepPhase::FinalizeAndNext => {
                let ghost before = self.results@;
                self.finalize_current_combo(latest, now_unix);
                proof {
                    assert forall|i: int| 0 <= i < self.results@.len() implies (#[trigger] self.results@[i]).combo_index == i by {
                        if i < before.len() {
                            assert(self.results@[i] == self.results@.drop_last()[i]);
                        }
                    }
                }
                self.current_idx = self.current_idx + 1;
                if self.current_idx < self.num_combos {
                    self.phase = RxGainSweepPhase::ApplyGains;
                    PreTickAction::Finalized { completed: false, exit: false }
                } else {
                    self.phase = RxGainSweepPhase::Completed;
                    PreTickAction::Finalized { completed: true, exit: self.auto_exit }
                }
            },
            RxGainSweepPhase::Completed => PreTickAction::Idle,
        }
    }

    /// Advances the sweep after a receive tick in which `detected` bursts
    /// were found, `per_slot[i]` of them on timeslot counter `i`. Only a
    /// sweep that is measuring counts them; the window is full once the
    /// counted bursts reach `window_bursts`.
    pub fn tick_post(&mut self, detected: u32, per_slot: [u32; 4]) -> (action: PostTickAction)
        requires
            old(self).wf(),
        ensures
            final(self).wf(),
            tick_post_step(*old(self), *final(self), detected, per_slot@, action),
    {
        if self.phase != RxGainSweepPhase::MeasureWindow {
            return PostTickAction { bursts_counted: false, progress_reached: false, window_ready: false };
        }
        self.measured_bursts = self.measured_bursts.saturating_add(detected);
        self.expected_slots = self.expected_slots.saturating_add(1);
        let mut sd = self.slot_detected;
        let ghost sd0 = sd@;
        let mut i: usize = 0;
        while i < 4
            invariant
                i <= 4,
                sd@.len() == 4,
                sd0.len() == 4,
                forall|j: int| 0 <= j < i ==> #[trigger] sd@[j] == sat_add32(sd0[j], per_slot@[j]),
                forall|j: int| i <= j < 4 ==> #[trigger] sd@[j] == sd0[j],
            decreases 4 - i,
        {
            sd[i] = sd[i].saturating_add(per_slot[i]);
            i += 1;
        }
        self.slot_detected = sd;
        self.measured_slots = self.measured_slots.saturating_add(1);

        let measured = self.measured_bursts;
        let reached = measured < self.window_bursts && measured >= self.next_progress_log_bursts;
        if reached {
            let step = if self.progress_log_step_bursts >= 1 { self.progress_log_step_bursts } else { 1 };
            let mut next = self.next_progress_log_bursts;
            let ghost target = progress_after(next, measured, step);
            while next <= measured
                invariant
                    measured < u32::MAX,
                    step >= 1,
                    progress_after(next, measured, step) == target,
                decreases u32::MAX - next,
            {
                next = next.saturating_add(step);
            }
            self.next_progress_log_bursts = next;
        }
        let ready = measured >= self.window_bursts;
        if ready {
            self.phase = RxGainSweepPhase::FinalizeAndNext;
        }
        PostTickAction { bursts_counted: detected > 0, progress_reached: reached, window_ready: ready }
    }
}

} // verus!
