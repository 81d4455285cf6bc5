use vstd::prelude::*;

verus! {

/// Index of the per-timeslot counter used for a TDMA timeslot number:
/// timeslots 1..=4 map to 0..=3, timeslot 0 maps to 0 and larger numbers to 3.
pub open spec fn spec_slot_index(timeslot: int) -> int {
    if timeslot <= 1 {
        0
    } else if timeslot - 1 > 3 {
        3
    } else {
        timeslot - 1
    }
}

/// `x + 1`, held at `u64::MAX`.
pub open spec fn sat_inc(x: u64) -> u64 {
    if x == u64::MAX {
        x
    } else {
        (x + 1) as u64
    }
}

/// `a - b`, held at zero.
pub open spec fn sat_sub(a: u64, b: u64) -> u64 {
    if a >= b {
        (a - b) as u64
    } else {
        0
    }
}

/// Counter index for a timeslot number (see `spec_slot_index`).
pub fn slot_index(timeslot: u8) -> (idx: usize)
    ensures
        idx == spec_slot_index(timeslot as int),
        idx < 4,
{
    let s = timeslot.saturating_sub(1);
    if s > 3 {
        3
    } else {
        s as usize
    }
}

/// Decode and CRC counters shared between the MAC and the physical layer,
/// used to rank receiver gain settings.
#[derive(Debug, Clone, Copy)]
pub struct RxGainDecodeCounters {
    pub decode_attempted: u64,
    pub decode_success: u64,
    pub crc_ok: u64,
    pub false_positive: u64,
    pub slot_attempted: [u64; 4],
    pub slot_crc_ok: [u64; 4],
}

impl RxGainDecodeCounters {
    /// All counters at zero.
    pub open spec fn is_zero(&self) -> bool {
        &&& self.decode_attempted == 0
        &&& self.decode_success == 0
        &&& self.crc_ok == 0
        &&& self.false_positive == 0
        &&& self.slot_attempted@ == seq![0u64, 0u64, 0u64, 0u64]
        &&& self.slot_crc_ok@ == seq![0u64, 0u64, 0u64, 0u64]
    }

    /// Field-wise equality of two counter sets.
    pub open spec fn same_as(&self, other: &Self) -> bool {
        &&& self.decode_attempted == other.decode_attempted
        &&& self.decode_success == other.decode_success
        &&& self.crc_ok == other.crc_ok
        &&& self.false_positive == other.false_positive
        &&& self.slot_attempted@ == other.slot_attempted@
        &&& self.slot_crc_ok@ == other.slot_crc_ok@
    }

    /// `new` holds `old` after one decode on `timeslot` was recorded.
    pub open spec fn recorded(
        old: &Self,
        new: &Self,
        timeslot: u8,
        decode_attempted: bool,
        decode_success: bool,
        crc_ok: bool,
    ) -> bool {
        let idx = spec_slot_index(timeslot as int);
        if !decode_attempted {
            new.same_as(old)
        } else {
            &&& new.decode_attempted == sat_inc(old.decode_attempted)
            &&& new.decode_success == if decode_success {
                sat_inc(old.decode_success)
            } else {
                old.decode_success
            }
            &&& new.false_positive == if decode_success {
                old.false_positive
            } else {
                sat_inc(old.false_positive)
            }
            &&& new.crc_ok == if crc_ok {
                sat_inc(old.crc_ok)
            } else {
                old.crc_ok
            }
            &&& new.slot_attempted@ == old.slot_attempted@.update(
                idx,
                sat_inc(old.slot_attempted@[idx]),
            )
            &&& new.slot_crc_ok@ == if crc_ok {
                old.slot_crc_ok@.update(idx, sat_inc(old.slot_crc_ok@[idx]))
            } else {
                old.slot_crc_ok@
            }
        }
    }

    /// `d` holds the field-wise saturating difference `a - b`.
    pub open spec fn is_diff(d: &Self, a: &Self, b: &Self) -> bool {
        &&& d.decode_attempted == sat_sub(a.decode_attempted, b.decode_attempted)
        &&& d.decode_success == sat_sub(a.decode_success, b.decode_success)
        &&& d.crc_ok == sat_sub(a.crc_ok, b.crc_ok)
        &&& d.false_positive == sat_sub(a.false_positive, b.false_positive)
        &&& forall|i: int|
            0 <= i < 4 ==> #[trigger] d.slot_attempted@[i] == sat_sub(
                a.slot_attempted@[i],
                b.slot_attempted@[i],
            )
        &&& forall|i: int|
            0 <= i < 4 ==> #[trigger] d.slot_crc_ok@[i] == sat_sub(
                a.slot_crc_ok@[i],
                b.slot_crc_ok@[i],
            )
    }

    /// Counters that all start at zero.
    pub fn zero() -> (c: Self)
        ensures
            c.is_zero(),
    {
        RxGainDecodeCounters {
            decode_attempted: 0,
            decode_success: 0,
            crc_ok: 0,
            false_positive: 0,
            slot_attempted: [0u64, 0u64, 0u64, 0u64],
            slot_crc_ok: [0u64, 0u64, 0u64, 0u64],
        }
    }

    /// Records the outcome of one decode attempt on `timeslot`. Nothing is
    /// counted when no decode was attempted. A decode that did not succeed
    /// counts as a false positive. Every counter saturates at `u64::MAX`.
    pub fn record(&mut self, timeslot: u8, decode_attempted: bool, decode_success: bool, crc_ok: bool)
        ensures
            Self::recorded(old(self), final(self), timeslot, decode_attempted, decode_success, crc_ok),
    {
        if !decode_attempted {
            return;
        }
        self.decode_attempted = self.decode_attempted.saturating_add(1);
        if decode_success {
            self.decode_success = self.decode_success.saturating_add(1);
        } else {
            self.false_positive = self.false_positive.saturating_add(1);
        }

        let idx = slot_index(timeslot);
        self.slot_attempted[idx] = self.slot_attempted[idx].saturating_add(1);

        if crc_ok {
            self.crc_ok = self.crc_ok.saturating_add(1);
            self.slot_crc_ok[idx] = self.slot_crc_ok[idx].saturating_add(1);
        }
    }

    /// The counts gathered since `baseline` was taken: each counter minus
    /// the baseline's, held at zero.
    pub fn diff_from(&self, baseline: &Self) -> (d: Self)
        ensures
            Self::is_diff(&d, self, baseline),
    {
        let mut slot_attempted = [0u64, 0u64, 0u64, 0u64];
        let mut slot_crc_ok = [0u64, 0u64, 0u64, 0u64];
        for i in 0..4
            invariant
                forall|j: int|
                    0 <= j < i ==> #[trigger] slot_attempted@[j] == sat_sub(
                        self.slot_attempted@[j],
                        baseline.slot_attempted@[j],
                    ),
                forall|j: int|
                    0 <= j < i ==> #[trigger] slot_crc_ok@[j] == sat_sub(
                        self.slot_crc_ok@[j],
                        baseline.slot_crc_ok@[j],
                    ),
        {
            slot_attempted[i] = self.slot_attempted[i].saturating_sub(baseline.slot_attempted[i]);
            slot_crc_ok[i] = self.slot_crc_ok[i].saturating_sub(baseline.slot_crc_ok[i]);
        }

        RxGainDecodeCounters {
            decode_attempted: self.decode_attempted.saturating_sub(baseline.decode_attempted),
            decode_success: self.decode_success.saturating_sub(baseline.decode_success),
            crc_ok: self.crc_ok.saturating_sub(baseline.crc_ok),
            false_positive: self.false_positive.saturating_sub(baseline.false_positive),
            slot_attempted,
            slot_crc_ok,
        }
    }
}

impl Default for RxGainDecodeCounters {
    fn default() -> (c: Self)
        ensures
            c.is_zero(),
    {
        Self::zero()
    }
}

/// The counts since a baseline taken right now are all zero.
pub proof fn law_diff_from_self_is_zero(a: RxGainDecodeCounters, d: RxGainDecodeCounters)
    requires
        RxGainDecodeCounters::is_diff(&d, &a, &a),
    ensures
        d.is_zero(),
{
    assert(d.slot_attempted@ =~= seq![0u64, 0u64, 0u64, 0u64]) by {
        assert(d.slot_attempted@[0] == 0 && d.slot_attempted@[1] == 0 && d.slot_attempted@[2] == 0
            && d.slot_attempted@[3] == 0);
    }
    assert(d.slot_crc_ok@ =~= seq![0u64, 0u64, 0u64, 0u64]) by {
        assert(d.slot_crc_ok@[0] == 0 && d.slot_crc_ok@[1] == 0 && d.slot_crc_ok@[2] == 0 && d.slot_crc_ok@[3]
            == 0);
    }
}

/// Away from saturation, the counts since a baseline taken just before one
/// recorded decode are exactly that decode: one attempt, a success or a
/// false positive, a CRC pass if it passed, on its timeslot's counter only.
pub proof fn law_record_counts_one_decode(
    before: RxGainDecodeCounters,
    after: RxGainDecodeCounters,
    d: RxGainDecodeCounters,
    timeslot: u8,
    decode_success: bool,
    crc_ok: bool,
)
    requires
        RxGainDecodeCounters::recorded(&before, &after, timeslot, true, decode_success, crc_ok),
        RxGainDecodeCounters::is_diff(&d, &after, &before),
        before.decode_attempted < u64::MAX,
        before.decode_success < u64::MAX,
        before.false_positive < u64::MAX,
        before.crc_ok < u64::MAX,
        forall|i: int| 0 <= i < 4 ==> #[trigger] before.slot_attempted@[i] < u64::MAX,
        forall|i: int| 0 <= i < 4 ==> #[trigger] before.slot_crc_ok@[i] < u64::MAX,
    ensures
        d.decode_attempted == 1,
        d.decode_success == (if decode_success { 1u64 } else { 0u64 }),
        d.false_positive == (if decode_success { 0u64 } else { 1u64 }),
        d.crc_ok == (if crc_ok { 1u64 } else { 0u64 }),
        forall|i: int|
            0 <= i < 4 ==> #[trigger] d.slot_attempted@[i] == (if i == spec_slot_index(timeslot as int) {
                1u64
            } else {
                0u64
            }),
        forall|i: int|
            0 <= i < 4 ==> #[trigger] d.slot_crc_ok@[i] == (if i == spec_slot_index(timeslot as int) && crc_ok {
                1u64
            } else {
                0u64
            }),
{
}

/// The arguments of one call of `record`: timeslot, whether a decode was
/// attempted, whether it succeeded, whether the CRC passed.
pub type RecordCall = (u8, bool, bool, bool);

/// `1` when `b`, else `0`.
pub open spec fn one_if(b: bool) -> nat {
    if b {
        1
    } else {
        0
    }
}

/// Decodes attempted in `calls`.
pub open spec fn cnt_attempted(calls: Seq<RecordCall>) -> nat
    decreases calls.len(),
{
    if calls.len() == 0 {
        0
    } else {
        cnt_attempted(calls.drop_last()) + one_if(calls.last().1)
    }
}

/// Successful decodes in `calls`.
pub open spec fn cnt_success(calls: Seq<RecordCall>) -> nat
    decreases calls.len(),
{
    if calls.len() == 0 {
        0
    } else {
        cnt_success(calls.drop_last()) + one_if(calls.last().1 && calls.last().2)
    }
}

/// Attempted decodes in `calls` that did not succeed.
pub open spec fn cnt_false_positive(calls: Seq<RecordCall>) -> nat
    decreases calls.len(),
{
    if calls.len() == 0 {
        0
    } else {
        cnt_false_positive(calls.drop_last()) + one_if(calls.last().1 && !calls.last().2)
    }
}

/// Attempted decodes in `calls` whose CRC passed.
pub open spec fn cnt_crc_ok(calls: Seq<RecordCall>) -> nat
    decreases calls.len(),
{
    if calls.len() == 0 {
        0
    } else {
        cnt_crc_ok(calls.drop_last()) + one_if(calls.last().1 && calls.last().3)
    }
}

/// Attempted decodes in `calls` counted on timeslot counter `i`.
pub open spec fn cnt_slot_attempted(calls: Seq<RecordCall>, i: int) -> nat
    decreases calls.len(),
{
    if calls.len() == 0 {
        0
    } else {
        cnt_slot_attempted(calls.drop_last(), i) + one_if(
            calls.last().1 && spec_slot_index(calls.last().0 as int) == i,
        )
    }
}

/// Attempted decodes in `calls` whose CRC passed, counted on timeslot
/// counter `i`.
pub open spec fn cnt_slot_crc_ok(calls: Seq<RecordCall>, i: int) -> nat
    decreases calls.len(),
{
    if calls.len() == 0 {
        0
    } else {
        cnt_slot_crc_ok(calls.drop_last(), i) + one_if(
            calls.last().1 && calls.last().3 && spec_slot_index(calls.last().0 as int) == i,
        )
    }
}

/// Call `k` of a run of `record` calls.
pub open spec fn record_link(states: Seq<RxGainDecodeCounters>, calls: Seq<RecordCall>, k: int) -> bool {
    RxGainDecodeCounters::recorded(&states[k], &states[k + 1], calls[k].0, calls[k].1, calls[k].2, calls[k].3)
}

/// `states` is a run of `record` calls: each state follows the one before
/// it by the call of the same position in `calls`.
pub open spec fn records_run(states: Seq<RxGainDecodeCounters>, calls: Seq<RecordCall>) -> bool {
    &&& states.len() == calls.len() + 1
    &&& forall|k: int| 0 <= k < calls.len() ==> #[trigger] record_link(states, calls, k)
}

/// Starting from `base`, no counter reaches `u64::MAX` while `calls` are
/// recorded.
pub open spec fn no_saturation(base: RxGainDecodeCounters, calls: Seq<RecordCall>) -> bool {
    &&& base.decode_attempted + cnt_attempted(calls) < u64::MAX
    &&& base.decode_success + cnt_success(calls) < u64::MAX
    &&& base.false_positive + cnt_false_positive(calls) < u64::MAX
    &&& base.crc_ok + cnt_crc_ok(calls) < u64::MAX
    &&& forall|i: int| 0 <= i < 4 ==> base.slot_attempted@[i] + #[trigger] cnt_slot_attempted(calls, i) < u64::MAX
    &&& forall|i: int| 0 <= i < 4 ==> base.slot_crc_ok@[i] + #[trigger] cnt_slot_crc_ok(calls, i) < u64::MAX
}

/// `c` holds `base` plus the counts of `calls`.
pub open spec fn counts_added(c: RxGainDecodeCounters, base: RxGainDecodeCounters, calls: Seq<RecordCall>) -> bool {
    &&& c.decode_attempted == base.decode_attempted + cnt_attempted(calls)
    &&& c.decode_success == base.decode_success + cnt_success(calls)
    &&& c.false_positive == base.false_positive + cnt_false_positive(calls)
    &&& c.crc_ok == base.crc_ok + cnt_crc_ok(calls)
    &&& forall|i: int| 0 <= i < 4 ==> #[trigger] c.slot_attempted@[i] == base.slot_attempted@[i] + cnt_slot_attempted(calls, i)
    &&& forall|i: int| 0 <= i < 4 ==> #[trigger] c.slot_crc_ok@[i] == base.slot_crc_ok@[i] + cnt_slot_crc_ok(calls, i)
}

/// How the counts of a list of calls relate to each other.
proof fn lemma_count_relations(calls: Seq<RecordCall>)
    ensures
        cnt_success(calls) + cnt_false_positive(calls) == cnt_attempted(calls),
        cnt_crc_ok(calls) <= cnt_attempted(calls),
        cnt_slot_attempted(calls, 0) + cnt_slot_attempted(calls, 1) + cnt_slot_attempted(calls, 2)
            + cnt_slot_attempted(calls, 3) == cnt_attempted(calls),
        cnt_slot_crc_ok(calls, 0) + cnt_slot_crc_ok(calls, 1) + cnt_slot_crc_ok(calls, 2) + cnt_slot_crc_ok(
            calls,
            3,
        ) == cnt_crc_ok(calls),
        forall|i: int| 0 <= i < 4 ==> #[trigger] cnt_slot_crc_ok(calls, i) <= cnt_slot_attempted(calls, i),
        forall|i: int| 0 <= i < 4 ==> #[trigger] cnt_slot_attempted(calls, i) <= cnt_attempted(calls),
        forall|i: int| 0 <= i < 4 ==> #[trigger] cnt_slot_crc_ok(calls, i) <= cnt_attempted(calls),
    decreases calls.len(),
{
    if calls.len() > 0 {
        lemma_count_relations(calls.drop_last());
        let x = spec_slot_index(calls.last().0 as int);
        assert(0 <= x < 4);
    }
}

/// Recording `calls` from `states[0]` adds their counts, away from
/// saturation.
proof fn lemma_records_add(states: Seq<RxGainDecodeCounters>, calls: Seq<RecordCall>)
    requires
        records_run(states, calls),
        no_saturation(states[0], calls),
    ensures
        counts_added(states.last(), states[0], calls),
    decreases calls.len(),
{
    let n = calls.len() as int;
    if n > 0 {
        let ps = states.drop_last();
        let pc = calls.drop_last();
        assert forall|k: int| 0 <= k < pc.len() implies #[trigger] record_link(ps, pc, k) by {
            assert(record_link(states, calls, k));
        }
        assert forall|i: int| 0 <= i < 4 implies states[0].slot_attempted@[i] + #[trigger] cnt_slot_attempted(pc, i)
            < u64::MAX by {
            assert(cnt_slot_attempted(calls, i) >= cnt_slot_attempted(pc, i));
        }
        assert forall|i: int| 0 <= i < 4 implies states[0].slot_crc_ok@[i] + #[trigger] cnt_slot_crc_ok(pc, i)
            < u64::MAX by {
            assert(cnt_slot_crc_ok(calls, i) >= cnt_slot_crc_ok(pc, i));
        }
        lemma_records_add(ps, pc);
        assert(record_link(states, calls, n - 1));
        assert(ps.last() == states[n - 1]);
        let idx = spec_slot_index(calls.last().0 as int);
        assert forall|i: int| 0 <= i < 4 implies #[trigger] states.last().slot_attempted@[i]
            == states[0].slot_attempted@[i] + cnt_slot_attempted(calls, i) by {
            assert(cnt_slot_attempted(calls, i) == cnt_slot_attempted(pc, i) + one_if(
                calls.last().1 && idx == i,
            ));
        }
        assert forall|i: int| 0 <= i < 4 implies #[trigger] states.last().slot_crc_ok@[i]
            == states[0].slot_crc_ok@[i] + cnt_slot_crc_ok(calls, i) by {
            assert(cnt_slot_crc_ok(calls, i) == cnt_slot_crc_ok(pc, i) + one_if(
                calls.last().1 && calls.last().3 && idx == i,
            ));
        }
    }
}

/// Counters that start at zero and record decodes, with fewer than
/// `u64::MAX` attempts in all, hold exactly the counts of those decodes.
/// So attempts are successes plus false positives, CRC passes are at most
/// the attempts, the per-timeslot counters add up to the totals, and on
/// each timeslot CRC passes are at most the attempts.
pub proof fn law_recorded_counters_are_consistent(states: Seq<RxGainDecodeCounters>, calls: Seq<RecordCall>)
    requires
        records_run(states, calls),
        states[0].is_zero(),
        cnt_attempted(calls) < u64::MAX,
    ensures
        counts_added(states.last(), states[0], calls),
        states.last().decode_attempted == states.last().decode_success + states.last().false_positive,
        states.last().crc_ok <= states.last().decode_attempted,
        states.last().slot_attempted@[0] + states.last().slot_attempted@[1] + states.last().slot_attempted@[2]
            + states.last().slot_attempted@[3] == states.last().decode_attempted,
        states.last().slot_crc_ok@[0] + states.last().slot_crc_ok@[1] + states.last().slot_crc_ok@[2]
            + states.last().slot_crc_ok@[3] == states.last().crc_ok,
        forall|i: int| 0 <= i < 4 ==> #[trigger] states.last().slot_crc_ok@[i] <= states.last().slot_attempted@[i],
{
    lemma_count_relations(calls);
    let z = states[0];
    assert(z.slot_attempted@[0] == 0 && z.slot_attempted@[1] == 0 && z.slot_attempted@[2] == 0 && z.slot_attempted@[3] == 0);
    assert(z.slot_crc_ok@[0] == 0 && z.slot_crc_ok@[1] == 0 && z.slot_crc_ok@[2] == 0 && z.slot_crc_ok@[3] == 0);
    assert forall|i: int| 0 <= i < 4 implies z.slot_attempted@[i] + #[trigger] cnt_slot_attempted(calls, i) < u64::MAX by {
        assert(z.slot_attempted@[i] == 0);
    }
    assert forall|i: int| 0 <= i < 4 implies z.slot_crc_ok@[i] + #[trigger] cnt_slot_crc_ok(calls, i) < u64::MAX by {
        assert(z.slot_crc_ok@[i] == 0);
    }
    lemma_records_add(states, calls);
    let c = states.last();
    assert(c.slot_attempted@[0] == cnt_slot_attempted(calls, 0));
    assert(c.slot_attempted@[1] == cnt_slot_attempted(calls, 1));
    assert(c.slot_attempted@[2] == cnt_slot_attempted(calls, 2));
    assert(c.slot_attempted@[3] == cnt_slot_attempted(calls, 3));
    assert(c.slot_crc_ok@[0] == cnt_slot_crc_ok(calls, 0));
    assert(c.slot_crc_ok@[1] == cnt_slot_crc_ok(calls, 1));
    assert(c.slot_crc_ok@[2] == cnt_slot_crc_ok(calls, 2));
    assert(c.slot_crc_ok@[3] == cnt_slot_crc_ok(calls, 3));
    assert forall|i: int| 0 <= i < 4 implies #[trigger] c.slot_crc_ok@[i] <= c.slot_attempted@[i] by {
        assert(z.slot_attempted@[i] == 0 && z.slot_crc_ok@[i] == 0);
    }
}

/// The counts since a snapshot are the counts of the decodes recorded after
/// it, away from saturation: the same as recording those decodes alone on
/// counters that start at zero. Counted the other way round, from the later
/// counters back to the snapshot, nothing is left.
pub proof fn law_diff_counts_records_since_snapshot(
    states: Seq<RxGainDecodeCounters>,
    calls: Seq<RecordCall>,
    fresh: Seq<RxGainDecodeCounters>,
    d: RxGainDecodeCounters,
    back: RxGainDecodeCounters,
)
    requires
        records_run(states, calls),
        no_saturation(states[0], calls),
        records_run(fresh, calls),
        fresh[0].is_zero(),
        RxGainDecodeCounters::is_diff(&d, &states.last(), &states[0]),
        RxGainDecodeCounters::is_diff(&back, &states[0], &states.last()),
    ensures
        d.same_as(&fresh.last()),
        back.is_zero(),
{
    lemma_records_add(states, calls);
    let z = fresh[0];
    assert forall|i: int| 0 <= i < 4 implies z.slot_attempted@[i] + #[trigger] cnt_slot_attempted(calls, i) < u64::MAX by {
        assert(z.slot_attempted@[i] == 0);
    }
    assert forall|i: int| 0 <= i < 4 implies z.slot_crc_ok@[i] + #[trigger] cnt_slot_crc_ok(calls, i) < u64::MAX by {
        assert(z.slot_crc_ok@[i] == 0);
    }
    lemma_records_add(fresh, calls);
    let f = fresh.last();
    assert forall|i: int| 0 <= i < 4 implies #[trigger] d.slot_attempted@[i] == f.slot_attempted@[i] by {
        assert(z.slot_attempted@[i] == 0);
    }
    assert forall|i: int| 0 <= i < 4 implies #[trigger] d.slot_crc_ok@[i] == f.slot_crc_ok@[i] by {
        assert(z.slot_crc_ok@[i] == 0);
    }
    assert(d.slot_attempted@ =~= f.slot_attempted@);
    assert(d.slot_crc_ok@ =~= f.slot_crc_ok@);
    assert(back.slot_attempted@ =~= seq![0u64, 0u64, 0u64, 0u64]) by {
        assert(back.slot_attempted@[0] == 0 && back.slot_attempted@[1] == 0 && back.slot_attempted@[2] == 0
            && back.slot_attempted@[3] == 0);
    }
    assert(back.slot_crc_ok@ =~= seq![0u64, 0u64, 0u64, 0u64]) by {
        assert(back.slot_crc_ok@[0] == 0 && back.slot_crc_ok@[1] == 0 && back.slot_crc_ok@[2] == 0
            && back.slot_crc_ok@[3] == 0);
    }
}

/// The counts since zero counters are the counters themselves.
pub proof fn law_diff_from_zero_is_identity(c: RxGainDecodeCounters, z: RxGainDecodeCounters, d: RxGainDecodeCounters)
    requires
        z.is_zero(),
        RxGainDecodeCounters::is_diff(&d, &c, &z),
    ensures
        d.same_as(&c),
{
    assert(z.slot_attempted@[0] == 0 && z.slot_attempted@[1] == 0 && z.slot_attempted@[2] == 0 && z.slot_attempted@[3] == 0);
    assert(z.slot_crc_ok@[0] == 0 && z.slot_crc_ok@[1] == 0 && z.slot_crc_ok@[2] == 0 && z.slot_crc_ok@[3] == 0);
    assert(d.slot_attempted@ =~= c.slot_attempted@);
    assert(d.slot_crc_ok@ =~= c.slot_crc_ok@);
}

/// One recorded decode on TDMA timeslot `t` counts on counter `t - 1` for
/// timeslots 1 to 4, on the first counter for timeslot 0 and on the last
/// for timeslots above 4; no other per-timeslot counter changes. A call
/// without a decode attempt changes nothing.
pub proof fn law_record_counts_on_its_timeslot(
    before: RxGainDecodeCounters,
    after: RxGainDecodeCounters,
    timeslot: u8,
    decode_attempted: bool,
    decode_success: bool,
    crc_ok: bool,
)
    requires
        RxGainDecodeCounters::recorded(&before, &after, timeslot, decode_attempted, decode_success, crc_ok),
    ensures
        !decode_attempted ==> after.same_as(&before),
        decode_attempted ==> {
            let c: int = if timeslot == 0 {
                0
            } else if timeslot > 4 {
                3
            } else {
                timeslot - 1
            };
            &&& after.slot_attempted@[c] == (if before.slot_attempted@[c] == u64::MAX {
                u64::MAX as int
            } else {
                before.slot_attempted@[c] + 1
            })
            &&& after.slot_crc_ok@[c] == (if crc_ok && before.slot_crc_ok@[c] < u64::MAX {
                before.slot_crc_ok@[c] + 1
            } else {
                before.slot_crc_ok@[c] as int
            })
            &&& forall|i: int|
                0 <= i < 4 && i != c ==> #[trigger] after.slot_attempted@[i] == before.slot_attempted@[i]
                    && after.slot_crc_ok@[i] == before.slot_crc_ok@[i]
            &&& after.decode_attempted == (if before.decode_attempted == u64::MAX {
                u64::MAX as int
            } else {
                before.decode_attempted + 1
            })
        },
{
}

} // verus!
