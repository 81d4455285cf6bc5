use tetra_bluestation::combos::combo_index_lists;
use tetra_bluestation::counters::RxGainDecodeCounters;
use tetra_bluestation::ranking::{
    calculate_gap_metrics, compare_ranked_results, is_eligible, passes_required_slots, passes_slot_crc_threshold,
    rank_order, rate_at_most, summarize_results, MinRate, RankOrder, StabilityStatus, SweepResult,
};
use tetra_bluestation::sweep::{
    count_detections, PostTickAction, PreTickAction, RxGainSweepPhase, RxGainSweepRuntime, RxSlotDetection,
    SweepSettings,
};

fn result(idx: usize, attempted: u64, crc: u64, fp: u64, detected: u32, slot_attempted: [u64; 4], slot_crc: [u64; 4]) -> SweepResult {
    SweepResult {
        combo_index: idx,
        detected_bursts: detected,
        expected_slots: 100,
        slot_detected: [0; 4],
        measured_slots: 100,
        decode_attempted: attempted,
        decode_success: attempted - fp,
        crc_ok: crc,
        false_positive: fp,
        slot_attempted,
        slot_crc_ok: slot_crc,
        gaps_detected: 0,
        stability: StabilityStatus::Stable,
        duration_ms: 0,
    }
}

#[test]
fn gap_metrics_thresholds() {
    assert_eq!(calculate_gap_metrics(5, 0), (0, StabilityStatus::Stable));
    // 3 of 100 missing: exactly 3% is unstable
    assert_eq!(calculate_gap_metrics(97, 100), (3, StabilityStatus::Unstable));
    assert_eq!(calculate_gap_metrics(98, 100), (2, StabilityStatus::Stable));
    // more detected than expected: no gaps
    assert_eq!(calculate_gap_metrics(150, 100), (0, StabilityStatus::Stable));
    assert_eq!(calculate_gap_metrics(0, 33), (33, StabilityStatus::Unstable));
    assert_eq!(StabilityStatus::Unstable.label(), "UNSTABLE");
    assert_eq!(StabilityStatus::Stable.label(), "STABLE");
}

#[test]
fn rate_comparison_treats_empty_as_zero() {
    assert!(rate_at_most(1, 2, 2, 4));
    assert!(rate_at_most(2, 4, 1, 2));
    assert!(!rate_at_most(3, 4, 1, 2));
    assert!(rate_at_most(5, 0, 0, 7));
    assert!(rate_at_most(0, 7, 5, 0));
    assert!(rate_at_most(u64::MAX - 1, u64::MAX, 1, 1));
    assert!(!rate_at_most(1, 1, u64::MAX - 1, u64::MAX));
}

#[test]
fn required_slots_and_threshold() {
    let required = vec![0u8, 1, 2, 3];
    let r = result(0, 10, 9, 1, 10, [3, 3, 2, 2], [3, 3, 2, 1]);
    assert!(passes_required_slots(&required, &r));
    // slot 3 only reaches 50%
    assert!(!passes_slot_crc_threshold(&required, Some(MinRate { num: 95, den: 100 }), &r));
    assert!(passes_slot_crc_threshold(&required, Some(MinRate { num: 1, den: 2 }), &r));
    assert!(passes_slot_crc_threshold(&required, None, &r));
    // exactly at the threshold passes; a hair above it fails
    assert!(passes_slot_crc_threshold(&vec![3u8], Some(MinRate { num: 1, den: 2 }), &r));
    assert!(!passes_slot_crc_threshold(&vec![3u8], Some(MinRate { num: 500_001, den: 1_000_000 }), &r));
    let missing = result(0, 10, 9, 1, 10, [3, 0, 2, 2], [3, 0, 2, 2]);
    assert!(!passes_required_slots(&required, &missing));
    assert!(!passes_slot_crc_threshold(&required, Some(MinRate { num: 0, den: 1 }), &missing));
    assert!(!is_eligible(&required, None, &missing));
    // slot numbers above 3 share the last counter
    assert!(passes_required_slots(&vec![9u8], &r));
    // all four slots are required: a result without attempts on slot 3 fails
    let no_last = result(0, 10, 9, 1, 10, [1, 1, 1, 0], [1, 1, 1, 0]);
    assert!(!passes_required_slots(&vec![0u8, 1, 2, 3], &no_last));
    assert!(passes_required_slots(&vec![0u8, 1, 2], &no_last));
}

#[test]
fn ranking_prefers_eligible_then_crc_then_fp_then_detected() {
    let required = vec![0u8];
    let eligible_low = result(0, 10, 5, 0, 10, [1, 0, 0, 0], [1, 0, 0, 0]);
    let ineligible_high = result(1, 10, 10, 0, 10, [0, 0, 0, 0], [0, 0, 0, 0]);
    assert_eq!(compare_ranked_results(&required, None, &eligible_low, &ineligible_high), RankOrder::Ahead);

    let a = result(0, 10, 8, 2, 10, [1, 0, 0, 0], [1, 0, 0, 0]);
    let b = result(1, 10, 8, 1, 10, [1, 0, 0, 0], [1, 0, 0, 0]);
    assert_eq!(compare_ranked_results(&required, None, &a, &b), RankOrder::Behind);
    let c = result(2, 20, 16, 4, 11, [1, 0, 0, 0], [1, 0, 0, 0]);
    // same rates as a, more detected bursts
    assert_eq!(compare_ranked_results(&required, None, &c, &a), RankOrder::Ahead);
    let d = result(3, 20, 16, 4, 10, [1, 0, 0, 0], [1, 0, 0, 0]);
    assert_eq!(compare_ranked_results(&required, None, &a, &d), RankOrder::Tie);
}

#[test]
fn rank_order_is_stable() {
    let required = vec![0u8];
    let results = vec![
        result(0, 10, 5, 0, 10, [1, 0, 0, 0], [1, 0, 0, 0]),
        result(1, 10, 9, 0, 10, [0, 0, 0, 0], [0, 0, 0, 0]),
        result(2, 10, 9, 0, 10, [1, 0, 0, 0], [1, 0, 0, 0]),
        result(3, 10, 5, 0, 10, [1, 0, 0, 0], [1, 0, 0, 0]),
    ];
    assert_eq!(rank_order(&required, None, &results), vec![2, 0, 3, 1]);

    let rep = summarize_results(&required, None, &results);
    assert_eq!(rep.order, vec![2, 0, 3, 1]);
    assert_eq!(rep.valid_count, 3);
    assert_eq!(rep.best_valid, Some(2));
    assert_eq!(rep.rows.len(), 4);
    assert_eq!(rep.rows[0].rank, 1);
    assert_eq!(rep.rows[0].result.combo_index, 2);
    assert_eq!(rep.rows[3].rank, 4);
    assert!(!rep.rows[3].passes_required_slots);

    let none_valid = summarize_results(&vec![1u8], None, &results);
    assert_eq!(none_valid.valid_count, 0);
    assert_eq!(none_valid.best_valid, None);
}

#[test]
fn combos_first_gain_varies_slowest() {
    let combos = combo_index_lists(&vec![2, 3]);
    assert_eq!(
        combos,
        vec![vec![0, 0], vec![0, 1], vec![0, 2], vec![1, 0], vec![1, 1], vec![1, 2]]
    );
    assert_eq!(combo_index_lists(&vec![]), vec![Vec::<usize>::new()]);
    assert!(combo_index_lists(&vec![3, 0, 2]).is_empty());
    assert_eq!(combo_index_lists(&vec![3, 16]).len(), 48);
}

#[test]
fn detections_are_counted_per_slot() {
    let slots = vec![
        Some(RxSlotDetection { timeslot: 1, fullslot: true, subslot1: false, subslot2: false }),
        None,
        Some(RxSlotDetection { timeslot: 3, fullslot: false, subslot1: true, subslot2: true }),
        Some(RxSlotDetection { timeslot: 7, fullslot: true, subslot1: false, subslot2: false }),
        Some(RxSlotDetection { timeslot: 2, fullslot: false, subslot1: false, subslot2: false }),
    ];
    let t = count_detections(&slots);
    assert_eq!(t.detected_bursts, 4);
    assert_eq!(t.detected_per_slot, [1, 0, 2, 1]);
}

fn counters(attempted: u64, crc: u64) -> RxGainDecodeCounters {
    let mut c = RxGainDecodeCounters::default();
    c.decode_attempted = attempted;
    c.decode_success = attempted;
    c.crc_ok = crc;
    c.slot_attempted = [attempted, 0, 0, 0];
    c.slot_crc_ok = [crc, 0, 0, 0];
    c
}

#[test]
fn sweep_disabled_or_empty_is_none() {
    assert!(RxGainSweepRuntime::from_config(false, 3, 0, 10, vec![], None, false, None, None, 0).is_none());
    assert!(RxGainSweepRuntime::from_config(true, 0, 0, 10, vec![], None, false, None, None, 0).is_none());
    let rt = RxGainSweepRuntime::from_config(true, 2, 1, 35, vec![], Some(MinRate { num: 19, den: 20 }), true, None, None, 77).unwrap();
    assert_eq!(rt.required_ul_slots, vec![0, 1, 2, 3]);
    assert_eq!(rt.progress_log_step_bursts, 3);
    assert_eq!(rt.test_device_type, "stabilock4032");
    assert_eq!(rt.test_signal_mode, "t1_all_ul_slots");
    assert_eq!(rt.run_started_unix, 77);
    let small = RxGainSweepRuntime::from_config(true, 1, 0, 5, vec![2], None, false, Some("x".to_string()), Some("sch_f".to_string()), 0).unwrap();
    assert_eq!(small.progress_log_step_bursts, 1);
    assert_eq!(small.required_ul_slots, vec![2]);
    assert_eq!(small.test_device_type, "x");
    assert_eq!(small.test_signal_mode, "sch_f");
}

#[test]
fn sweep_walks_through_phases() {
    let mut rt = RxGainSweepRuntime::from_config(true, 2, 1, 4, vec![0], None, true, None, None, 1000).unwrap();
    assert!(rt.is_consistent());
    assert_eq!(rt.combo_to_apply(), Some(0));

    // apply combination 0 with the counters at 10 decodes
    assert_eq!(rt.tick_pre(true, &counters(10, 9), 1000), PreTickAction::GainsApplied(0));
    assert_eq!(rt.phase, RxGainSweepPhase::Settling);
    assert_eq!(rt.settling_remaining, 1);
    // bursts during settling are not counted
    assert_eq!(rt.tick_post(2, [2, 0, 0, 0]), PostTickAction { bursts_counted: false, progress_reached: false, window_ready: false });
    assert_eq!(rt.tick_pre(true, &counters(10, 9), 1001), PreTickAction::Idle);
    assert_eq!(rt.settling_remaining, 0);
    assert_eq!(rt.tick_pre(true, &counters(10, 9), 1002), PreTickAction::MeasureStarted(0));
    assert_eq!(rt.window_start_unix, 1002);
    assert_eq!(rt.phase, RxGainSweepPhase::MeasureWindow);

    assert_eq!(rt.tick_pre(true, &counters(10, 9), 1003), PreTickAction::Idle);
    let a = rt.tick_post(1, [1, 0, 0, 0]);
    assert_eq!(a, PostTickAction { bursts_counted: true, progress_reached: true, window_ready: false });
    assert_eq!(rt.next_progress_log_bursts, 2);
    let b = rt.tick_post(0, [0, 0, 0, 0]);
    assert_eq!(b, PostTickAction { bursts_counted: false, progress_reached: false, window_ready: false });
    let c = rt.tick_post(3, [3, 0, 0, 0]);
    assert_eq!(c, PostTickAction { bursts_counted: true, progress_reached: false, window_ready: true });
    assert_eq!(rt.phase, RxGainSweepPhase::FinalizeAndNext);
    assert_eq!(rt.measured_bursts, 4);
    assert_eq!(rt.expected_slots, 3);
    assert_eq!(rt.slot_detected, [4, 0, 0, 0]);

    // finalize: 6 decodes since the baseline, 5 of them with a good CRC
    assert_eq!(rt.tick_pre(true, &counters(16, 14), 1005), PreTickAction::Finalized { completed: false, exit: false });
    assert_eq!(rt.results.len(), 1);
    let r = rt.results[0];
    assert_eq!(r.combo_index, 0);
    assert_eq!(r.decode_attempted, 6);
    assert_eq!(r.crc_ok, 5);
    assert_eq!(r.slot_attempted, [6, 0, 0, 0]);
    assert_eq!(r.detected_bursts, 4);
    assert_eq!(r.expected_slots, 3);
    // 4 bursts counted in the window against 3 ticks: no gaps
    assert_eq!(r.gaps_detected, 0);
    assert_eq!(r.stability, StabilityStatus::Stable);
    assert_eq!(r.duration_ms, 3000);
    assert_eq!(rt.combo_to_apply(), Some(1));

    // second combination: applying fails and the sweep stops
    assert_eq!(rt.tick_pre(false, &counters(16, 14), 1006), PreTickAction::ApplyFailed);
    assert_eq!(rt.phase, RxGainSweepPhase::Completed);
    assert_eq!(rt.tick_pre(true, &counters(16, 14), 1007), PreTickAction::Idle);
    assert!(rt.is_consistent());
}

#[test]
fn sweep_completes_and_exits() {
    let mut rt = RxGainSweepRuntime::from_config(true, 1, 0, 1, vec![], None, true, None, None, 0).unwrap();
    assert_eq!(rt.tick_pre(true, &counters(0, 0), 0), PreTickAction::GainsApplied(0));
    assert_eq!(rt.tick_pre(true, &counters(0, 0), 10), PreTickAction::MeasureStarted(0));
    // no bursts at all in a tick: the window stays open
    rt.tick_post(0, [0; 4]);
    rt.tick_post(0, [0; 4]);
    assert_eq!(rt.phase, RxGainSweepPhase::MeasureWindow);
    assert!(rt.tick_post(1, [0, 1, 0, 0]).window_ready);
    assert_eq!(rt.tick_pre(true, &counters(0, 0), 12), PreTickAction::Finalized { completed: true, exit: true });
    assert_eq!(rt.phase, RxGainSweepPhase::Completed);
    let r = rt.results[0];
    // 1 burst counted in the window against 3 ticks: 2 gaps, unstable
    assert_eq!(r.gaps_detected, 2);
    assert_eq!(r.stability, StabilityStatus::Unstable);
    assert_eq!(r.duration_ms, 2000);
}

#[test]
fn bursts_while_settling_do_not_fill_gaps() {
    let mut rt = RxGainSweepRuntime::from_config(true, 1, 1, 2, vec![], None, false, None, None, 0).unwrap();
    assert_eq!(rt.tick_pre(true, &counters(0, 0), 0), PreTickAction::GainsApplied(0));
    // plenty of bursts while settling
    rt.tick_post(3, [3, 0, 0, 0]);
    assert_eq!(rt.tick_pre(true, &counters(0, 0), 1), PreTickAction::Idle);
    rt.tick_post(3, [3, 0, 0, 0]);
    assert_eq!(rt.tick_pre(true, &counters(0, 0), 2), PreTickAction::MeasureStarted(0));
    assert_eq!(rt.measured_bursts, 0);
    // the window: four ticks, two of them with one burst
    rt.tick_post(0, [0; 4]);
    rt.tick_post(1, [1, 0, 0, 0]);
    rt.tick_post(0, [0; 4]);
    assert!(rt.tick_post(1, [0, 1, 0, 0]).window_ready);
    assert_eq!(rt.tick_pre(true, &counters(0, 0), 5), PreTickAction::Finalized { completed: true, exit: false });
    let r = rt.results[0];
    assert_eq!(r.detected_bursts, 2);
    assert_eq!(r.expected_slots, 4);
    assert_eq!(r.gaps_detected, 2);
    assert_eq!(r.stability, StabilityStatus::Unstable);
}

#[test]
fn window_fills_within_bound_when_every_tick_finds_a_burst() {
    let mut rt = RxGainSweepRuntime::from_config(true, 1, 0, 5, vec![], None, false, None, None, 0).unwrap();
    rt.tick_pre(true, &counters(0, 0), 0);
    rt.tick_pre(true, &counters(0, 0), 0);
    assert_eq!(rt.phase, RxGainSweepPhase::MeasureWindow);
    for _ in 0..4 {
        assert!(!rt.tick_post(1, [1, 0, 0, 0]).window_ready);
    }
    assert!(rt.tick_post(1, [1, 0, 0, 0]).window_ready);
    assert_eq!(rt.phase, RxGainSweepPhase::FinalizeAndNext);
}

fn settings(enabled: bool) -> SweepSettings {
    SweepSettings {
        enabled,
        settling_slots: 8,
        window_bursts: 300,
        required_ul_slots: vec![],
        min_slot_crc_pass_rate: Some(MinRate { num: 19, den: 20 }),
        auto_exit: true,
        test_device_type: None,
        test_signal_profile: None,
    }
}

#[test]
fn sweep_runs_only_in_test_mode_with_an_enabled_section() {
    assert!(RxGainSweepRuntime::for_test_mode(false, Some(settings(true)), 48, 0).is_none());
    assert!(RxGainSweepRuntime::for_test_mode(true, None, 48, 0).is_none());
    assert!(RxGainSweepRuntime::for_test_mode(true, Some(settings(false)), 48, 0).is_none());
    assert!(RxGainSweepRuntime::for_test_mode(true, Some(settings(true)), 0, 0).is_none());
    let rt = RxGainSweepRuntime::for_test_mode(true, Some(settings(true)), 48, 5).unwrap();
    assert_eq!(rt.num_combos, 48);
    assert_eq!(rt.settling_slots, 8);
    assert_eq!(rt.window_bursts, 300);
    assert_eq!(rt.progress_log_step_bursts, 30);
    assert_eq!(rt.required_ul_slots, vec![0, 1, 2, 3]);
    assert_eq!(rt.run_started_unix, 5);
    assert_eq!(rt.combo_to_apply(), Some(0));
}
