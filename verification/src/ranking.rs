use vstd::prelude::*;

verus! {

/// A minimum rate `num / den`. A rate `k / n` reaches it when
/// `k * den >= num * n`, compared exactly.
#[derive(Debug, Clone, Copy, PartialEq, Eq, Structural)]
pub struct MinRate {
    pub num: u64,
    pub den: u64,
}

/// Whether a measurement window lost too many bursts.
#[derive(Debug, Clone, Copy, PartialEq, Eq, Structural)]
pub enum StabilityStatus {
    /// Fewer than 3% of the expected bursts are missing.
    Stable,
    /// At least 3% of the expected bursts are missing.
    Unstable,
}

impl StabilityStatus {
    /// The label used in logs and exports.
    pub fn label(&self) -> (s: String)
        ensures
            s@ == (match self {
                StabilityStatus::Stable => "STABLE"@,
                StabilityStatus::Unstable => "UNSTABLE"@,
            }),
    {
        match self {
            StabilityStatus::Stable => String::from_str("STABLE"),
            StabilityStatus::Unstable => String::from_str("UNSTABLE"),
        }
    }
}

/// The measured outcome of one gain combination. Counts only; rates are
/// the quotients of these counts (taken as zero over a zero denominator).
#[derive(Debug, Clone, Copy)]
pub struct SweepResult {
    /// Position of the gain combination in the sweep's list of combinations.
    pub combo_index: usize,
    pub detected_bursts: u32,
    /// Number of receive ticks in the measurement window.
    pub expected_slots: u32,
    pub slot_detected: [u32; 4],
    pub measured_slots: u32,
    pub decode_attempted: u64,
    pub decode_success: u64,
    pub crc_ok: u64,
    pub false_positive: u64,
    pub slot_attempted: [u64; 4],
    pub slot_crc_ok: [u64; 4],
    pub gaps_detected: u32,
    pub stability: StabilityStatus,
    pub duration_ms: u64,
}

/// `100 * gaps >= 3 * expected`: at least 3% of the expected bursts missing.
pub open spec fn spec_unstable(gaps: u32, expected: u32) -> bool {
    100 * (gaps as int) >= 3 * (expected as int)
}

/// Shortfall of `detected_len` detected bursts (taken modulo 2^32) against
/// `expected` ticks, held at zero.
pub open spec fn spec_gaps(detected_len: usize, expected: u32) -> u32 {
    let detected = detected_len as u32;
    if expected >= detected {
        (expected - detected) as u32
    } else {
        0u32
    }
}

/// Stability of a window: stable when empty, else by `spec_unstable`.
pub open spec fn spec_stability(detected_len: usize, expected: u32) -> StabilityStatus {
    if expected != 0 && spec_unstable(spec_gaps(detected_len, expected), expected) {
        StabilityStatus::Unstable
    } else {
        StabilityStatus::Stable
    }
}

/// Gap count and stability for a window in which `detected_len` bursts were
/// seen over `expected_slots` ticks: the gap count is the shortfall of
/// detected bursts (held at zero), and the window is unstable when the gaps
/// make up at least 3% of the expected count. An empty window is stable.
pub fn calculate_gap_metrics(detected_len: usize, expected_slots: u32) -> (r: (u32, StabilityStatus))
    ensures
        r.0 == (if expected_slots == 0 { 0u32 } else { spec_gaps(detected_len, expected_slots) }),
        r.1 == spec_stability(detected_len, expected_slots),
{
    if expected_slots == 0 {
        return (0, StabilityStatus::Stable);
    }
    let detected_bursts = detected_len as u32;
    let gaps_detected = expected_slots.saturating_sub(detected_bursts);
    let unstable = 100u64 * (gaps_detected as u64) >= 3u64 * (expected_slots as u64);
    (gaps_detected, if unstable { StabilityStatus::Unstable } else { StabilityStatus::Stable })
}

// ---------------------------------------------------------------------
// Rates as exact quotients
// ---------------------------------------------------------------------

/// `n1 / d1 <= n2 / d2`, where a quotient over a zero denominator is zero.
pub open spec fn rate_le(n1: u64, d1: u64, n2: u64, d2: u64) -> bool {
    let a: int = if d1 == 0 { 0 } else { n1 as int };
    let b: int = if d1 == 0 { 1 } else { d1 as int };
    let c: int = if d2 == 0 { 0 } else { n2 as int };
    let d: int = if d2 == 0 { 1 } else { d2 as int };
    a * d <= c * b
}

/// `n1 / d1 == n2 / d2` under the same convention.
pub open spec fn rate_eq(n1: u64, d1: u64, n2: u64, d2: u64) -> bool {
    rate_le(n1, d1, n2, d2) && rate_le(n2, d2, n1, d1)
}

proof fn lemma_mul_le_u64(a: u64, b: u64)
    ensures
        (a as int) * (b as int) <= (u64::MAX as int) * (u64::MAX as int),
        (a as int) * (b as int) >= 0,
{
    assert((a as int) * (b as int) <= (u64::MAX as int) * (u64::MAX as int)) by (nonlinear_arith)
        requires
            a <= u64::MAX,
            b <= u64::MAX,
    ;
    assert((a as int) * (b as int) >= 0) by (nonlinear_arith);
}

/// Decides `rate_le` by cross multiplication in 128 bits.
pub fn rate_at_most(n1: u64, d1: u64, n2: u64, d2: u64) -> (b: bool)
    ensures
        b == rate_le(n1, d1, n2, d2),
{
    let a: u64 = if d1 == 0 { 0 } else { n1 };
    let b: u64 = if d1 == 0 { 1 } else { d1 };
    let c: u64 = if d2 == 0 { 0 } else { n2 };
    let d: u64 = if d2 == 0 { 1 } else { d2 };
    proof {
        lemma_mul_le_u64(a, d);
        lemma_mul_le_u64(c, b);
    }
    (a as u128) * (d as u128) <= (c as u128) * (b as u128)
}

proof fn lemma_cross_trans(a: int, b: int, c: int, d: int, e: int, f: int)
    requires
        b > 0,
        d > 0,
        f > 0,
        a * d <= c * b,
        c * f <= e * d,
    ensures
        a * f <= e * b,
{
    assert(a * d * f <= c * b * f) by (nonlinear_arith)
        requires
            a * d <= c * b,
            f > 0,
    ;
    assert(c * f * b <= e * d * b) by (nonlinear_arith)
        requires
            c * f <= e * d,
            b > 0,
    ;
    assert(c * b * f == c * f * b) by (nonlinear_arith);
    assert(a * d * f == (a * f) * d) by (nonlinear_arith);
    assert(e * d * b == (e * b) * d) by (nonlinear_arith);
    assert(a * f <= e * b) by (nonlinear_arith)
        requires
            (a * f) * d <= (e * b) * d,
            d > 0,
    ;
}

/// `rate_le` is transitive.
pub proof fn lemma_rate_le_trans(n1: u64, d1: u64, n2: u64, d2: u64, n3: u64, d3: u64)
    requires
        rate_le(n1, d1, n2, d2),
        rate_le(n2, d2, n3, d3),
    ensures
        rate_le(n1, d1, n3, d3),
{
    let a: int = if d1 == 0 { 0 } else { n1 as int };
    let b: int = if d1 == 0 { 1 } else { d1 as int };
    let c: int = if d2 == 0 { 0 } else { n2 as int };
    let d: int = if d2 == 0 { 1 } else { d2 as int };
    let e: int = if d3 == 0 { 0 } else { n3 as int };
    let f: int = if d3 == 0 { 1 } else { d3 as int };
    lemma_cross_trans(a, b, c, d, e, f);
}

/// `rate_le` is total.
pub proof fn lemma_rate_le_total(n1: u64, d1: u64, n2: u64, d2: u64)
    ensures
        rate_le(n1, d1, n2, d2) || rate_le(n2, d2, n1, d1),
{
}

// ---------------------------------------------------------------------
// Eligibility of a result
// ---------------------------------------------------------------------

/// Counter of a configured uplink slot: slots are numbered from 0, as the
/// counters are, and numbers past the last slot count as the last slot.
pub open spec fn spec_required_slot_index(slot: int) -> int {
    if slot > 3 {
        3
    } else {
        slot
    }
}

/// Counter of a configured uplink slot (see `spec_required_slot_index`).
pub fn required_slot_index(slot: u8) -> (idx: usize)
    ensures
        idx == spec_required_slot_index(slot as int),
        idx < 4,
{
    if slot > 3 {
        3
    } else {
        slot as usize
    }
}

/// Every required uplink timeslot saw at least one decode attempt.
pub open spec fn spec_passes_required_slots(required: Seq<u8>, r: SweepResult) -> bool {
    forall|i: int|
        0 <= i < required.len() ==> r.slot_attempted@[spec_required_slot_index(#[trigger] required[i] as int)] > 0
}

/// The CRC pass rate of timeslot counter `idx` reaches `t`.
pub open spec fn slot_rate_reaches(r: SweepResult, idx: int, t: MinRate) -> bool {
    (r.slot_crc_ok@[idx] as int) * (t.den as int) >= (t.num as int) * (r.slot_attempted@[idx] as int)
}

/// Without a threshold every result passes; with one, every required
/// timeslot has decode attempts and a CRC pass rate of at least the
/// threshold.
pub open spec fn spec_passes_slot_crc_threshold(required: Seq<u8>, min_rate: Option<MinRate>, r: SweepResult) -> bool {
    match min_rate {
        None => true,
        Some(t) => forall|i: int|
            0 <= i < required.len() ==> {
                let idx = spec_required_slot_index(#[trigger] required[i] as int);
                r.slot_attempted@[idx] > 0 && slot_rate_reaches(r, idx, t)
            },
    }
}

/// A result is eligible when it passes both checks.
pub open spec fn spec_eligible(required: Seq<u8>, min_rate: Option<MinRate>, r: SweepResult) -> bool {
    spec_passes_required_slots(required, r) && spec_passes_slot_crc_threshold(required, min_rate, r)
}

/// Whether every required uplink timeslot saw a decode attempt.
pub fn passes_required_slots(required: &Vec<u8>, r: &SweepResult) -> (b: bool)
    ensures
        b == spec_passes_required_slots(required@, *r),
{
    let mut i: usize = 0;
    while i < required.len()
        invariant
            i <= required.len(),
            forall|j: int|
                0 <= j < i ==> r.slot_attempted@[spec_required_slot_index(#[trigger] required@[j] as int)] > 0,
        decreases required.len() - i,
    {
        let idx = required_slot_index(required[i]);
        if r.slot_attempted[idx] == 0 {
            return false;
        }
        i += 1;
    }
    true
}

/// Whether every required timeslot reaches the CRC pass-rate threshold.
pub fn passes_slot_crc_threshold(required: &Vec<u8>, min_rate: Option<MinRate>, r: &SweepResult) -> (b: bool)
    ensures
        b == spec_passes_slot_crc_threshold(required@, min_rate, *r),
{
    let t = match min_rate {
        None => {
            return true;
        },
        Some(p) => p,
    };
    let mut i: usize = 0;
    while i < required.len()
        invariant
            i <= required.len(),
            min_rate == Some(t),
            forall|j: int|
                0 <= j < i ==> {
                    let idx = spec_required_slot_index(#[trigger] required@[j] as int);
                    r.slot_attempted@[idx] > 0 && slot_rate_reaches(*r, idx, t)
                },
        decreases required.len() - i,
    {
        let idx = required_slot_index(required[i]);
        let attempts = r.slot_attempted[idx];
        if attempts == 0 {
            return false;
        }
        let ok = r.slot_crc_ok[idx];
        proof {
            lemma_mul_le_u64(ok, t.den);
            lemma_mul_le_u64(t.num, attempts);
        }
        if (ok as u128) * (t.den as u128) < (t.num as u128) * (attempts as u128) {
            return false;
        }
        i += 1;
    }
    true
}

/// Whether a result passes both checks.
pub fn is_eligible(required: &Vec<u8>, min_rate: Option<MinRate>, r: &SweepResult) -> (b: bool)
    ensures
        b == spec_eligible(required@, min_rate, *r),
{
    passes_required_slots(required, r) && passes_slot_crc_threshold(required, min_rate, r)
}

// ---------------------------------------------------------------------
// Ranking
// ---------------------------------------------------------------------

/// `a` ranks strictly ahead of `b`: eligible results first; then the higher
/// CRC pass rate; then the lower false-positive rate; then more detected
/// bursts.
pub open spec fn ranks_before(required: Seq<u8>, min_rate: Option<MinRate>, a: SweepResult, b: SweepResult) -> bool {
    let ea = spec_eligible(required, min_rate, a);
    let eb = spec_eligible(required, min_rate, b);
    ||| ea && !eb
    ||| ea == eb && !rate_le(a.crc_ok, a.decode_attempted, b.crc_ok, b.decode_attempted)
    ||| ea == eb && rate_eq(a.crc_ok, a.decode_attempted, b.crc_ok, b.decode_attempted) && !rate_le(
        b.false_positive,
        b.decode_attempted,
        a.false_positive,
        a.decode_attempted,
    )
    ||| ea == eb && rate_eq(a.crc_ok, a.decode_attempted, b.crc_ok, b.decode_attempted) && rate_eq(
        a.false_positive,
        a.decode_attempted,
        b.false_positive,
        b.decode_attempted,
    ) && a.detected_bursts > b.detected_bursts
}

/// `a` and `b` rank equal: neither is ahead of the other.
pub open spec fn ranks_equal(required: Seq<u8>, min_rate: Option<MinRate>, a: SweepResult, b: SweepResult) -> bool {
    !ranks_before(required, min_rate, a, b) && !ranks_before(required, min_rate, b, a)
}

/// Outcome of comparing two results for ranking.
#[derive(Debug, Clone, Copy, PartialEq, Eq, Structural)]
pub enum RankOrder {
    /// The first result ranks ahead.
    Ahead,
    /// The two rank equal.
    Tie,
    /// The second result ranks ahead.
    Behind,
}

/// Compares two results by the ranking order.
pub fn compare_ranked_results(required: &Vec<u8>, min_rate: Option<MinRate>, a: &SweepResult, b: &SweepResult) -> (o: RankOrder)
    ensures
        o == RankOrder::Ahead <==> ranks_before(required@, min_rate, *a, *b),
        o == RankOrder::Behind <==> ranks_before(required@, min_rate, *b, *a),
{
    let ea = is_eligible(required, min_rate, a);
    let eb = is_eligible(required, min_rate, b);
    if ea != eb {
        return if ea { RankOrder::Ahead } else { RankOrder::Behind };
    }
    let crc_ab = rate_at_most(a.crc_ok, a.decode_attempted, b.crc_ok, b.decode_attempted);
    let crc_ba = rate_at_most(b.crc_ok, b.decode_attempted, a.crc_ok, a.decode_attempted);
    if !crc_ab {
        return RankOrder::Ahead;
    }
    if !crc_ba {
        return RankOrder::Behind;
    }
    let fp_ab = rate_at_most(a.false_positive, a.decode_attempted, b.false_positive, b.decode_attempted);
    let fp_ba = rate_at_most(b.false_positive, b.decode_attempted, a.false_positive, a.decode_attempted);
    if !fp_ba {
        return RankOrder::Ahead;
    }
    if !fp_ab {
        return RankOrder::Behind;
    }
    if a.detected_bursts > b.detected_bursts {
        RankOrder::Ahead
    } else if a.detected_bursts < b.detected_bursts {
        RankOrder::Behind
    } else {
        RankOrder::Tie
    }
}

/// The ranking order is a strict weak order on results: irreflexive,
/// transitive, and ranking equal is compatible with ranking ahead.
pub proof fn law_ranking_is_strict_weak_order(
    required: Seq<u8>,
    min_rate: Option<MinRate>,
    a: SweepResult,
    b: SweepResult,
    c: SweepResult,
)
    ensures
        !ranks_before(required, min_rate, a, a),
        ranks_before(required, min_rate, a, b) ==> !ranks_before(required, min_rate, b, a),
        ranks_before(required, min_rate, a, b) && ranks_before(required, min_rate, b, c) ==> ranks_before(
            required,
            min_rate,
            a,
            c,
        ),
        ranks_equal(required, min_rate, a, b) && ranks_before(required, min_rate, a, c) ==> ranks_before(
            required,
            min_rate,
            b,
            c,
        ),
        ranks_equal(required, min_rate, a, b) && ranks_before(required, min_rate, c, a) ==> ranks_before(
            required,
            min_rate,
            c,
            b,
        ),
{
    let (ca, da) = (a.crc_ok, a.decode_attempted);
    let (cb, db) = (b.crc_ok, b.decode_attempted);
    let (cc, dc) = (c.crc_ok, c.decode_attempted);
    let (fa, fb, fc) = (a.false_positive, b.false_positive, c.false_positive);
    lemma_rate_le_total(ca, da, cb, db);
    lemma_rate_le_total(ca, da, cc, dc);
    lemma_rate_le_total(cb, db, cc, dc);
    lemma_rate_le_total(fa, da, fb, db);
    lemma_rate_le_total(fa, da, fc, dc);
    lemma_rate_le_total(fb, db, fc, dc);
    if rate_le(ca, da, cb, db) && rate_le(cb, db, cc, dc) { lemma_rate_le_trans(ca, da, cb, db, cc, dc); }
    if rate_le(ca, da, cc, dc) && rate_le(cc, dc, cb, db) { lemma_rate_le_trans(ca, da, cc, dc, cb, db); }
    if rate_le(cb, db, ca, da) && rate_le(ca, da, cc, dc) { lemma_rate_le_trans(cb, db, ca, da, cc, dc); }
    if rate_le(cb, db, cc, dc) && rate_le(cc, dc, ca, da) { lemma_rate_le_trans(cb, db, cc, dc, ca, da); }
    if rate_le(cc, dc, ca, da) && rate_le(ca, da, cb, db) { lemma_rate_le_trans(cc, dc, ca, da, cb, db); }
    if rate_le(cc, dc, cb, db) && rate_le(cb, db, ca, da) { lemma_rate_le_trans(cc, dc, cb, db, ca, da); }
    if rate_le(fa, da, fb, db) && rate_le(fb, db, fc, dc) { lemma_rate_le_trans(fa, da, fb, db, fc, dc); }
    if rate_le(fa, da, fc, dc) && rate_le(fc, dc, fb, db) { lemma_rate_le_trans(fa, da, fc, dc, fb, db); }
    if rate_le(fb, db, fa, da) && rate_le(fa, da, fc, dc) { lemma_rate_le_trans(fb, db, fa, da, fc, dc); }
    if rate_le(fb, db, fc, dc) && rate_le(fc, dc, fa, da) { lemma_rate_le_trans(fb, db, fc, dc, fa, da); }
    if rate_le(fc, dc, fa, da) && rate_le(fa, da, fb, db) { lemma_rate_le_trans(fc, dc, fa, da, fb, db); }
    if rate_le(fc, dc, fb, db) && rate_le(fb, db, fa, da) { lemma_rate_le_trans(fc, dc, fb, db, fa, da); }
}

/// `order` lists the positions of `results` in ranking order: a
/// permutation in which no result ranks ahead of an earlier one, and results
/// that rank equal keep the relative order they have in `results`.
pub open spec fn is_rank_order(
    required: Seq<u8>,
    min_rate: Option<MinRate>,
    results: Seq<SweepResult>,
    order: Seq<usize>,
) -> bool {
    &&& order.len() == results.len()
    &&& forall|i: int| 0 <= i < order.len() ==> #[trigger] order[i] < results.len()
    &&& order.no_duplicates()
    &&& forall|p: int, q: int|
        0 <= p < q < order.len() ==> !ranks_before(
            required,
            min_rate,
            results[#[trigger] order[q] as int],
            results[#[trigger] order[p] as int],
        )
    &&& forall|p: int, q: int|
        0 <= p < q < order.len() && ranks_equal(
            required,
            min_rate,
            results[#[trigger] order[p] as int],
            results[#[trigger] order[q] as int],
        ) ==> order[p] < order[q]
}

/// The ranking order of `results`, as a list of positions into `results`
/// (a stable sort by `compare_ranked_results`).
pub fn rank_order(required: &Vec<u8>, min_rate: Option<MinRate>, results: &Vec<SweepResult>) -> (order: Vec<usize>)
    ensures
        is_rank_order(required@, min_rate, results@, order@),
{
    let ghost req = required@;
    let ghost rs = results@;
    let mut order: Vec<usize> = Vec::new();
    let n = results.len();
    for i in 0..n
        invariant
            n == results.len(),
            rs == results@,
            req == required@,
            order.len() == i,
            forall|k: int| 0 <= k < order.len() ==> #[trigger] order@[k] < i,
            order@.no_duplicates(),
            forall|p: int, q: int|
                0 <= p < q < order.len() ==> !ranks_before(
                    req,
                    min_rate,
                    rs[#[trigger] order@[q] as int],
                    rs[#[trigger] order@[p] as int],
                ),
            forall|p: int, q: int|
                0 <= p < q < order.len() && ranks_equal(
                    req,
                    min_rate,
                    rs[#[trigger] order@[p] as int],
                    rs[#[trigger] order@[q] as int],
                ) ==> order@[p] < order@[q],
    {
        let mut p: usize = 0;
        while p < order.len()
            invariant
                p <= order.len(),
                i < n,
                n == results.len(),
                rs == results@,
                req == required@,
                forall|k: int| 0 <= k < order.len() ==> #[trigger] order@[k] < i,
                forall|q: int| 0 <= q < p ==> !ranks_before(req, min_rate, rs[i as int], rs[#[trigger] order@[q] as int]),
            ensures
                p <= order.len(),
                forall|q: int| 0 <= q < p ==> !ranks_before(req, min_rate, rs[i as int], rs[#[trigger] order@[q] as int]),
                p == order.len() || ranks_before(req, min_rate, rs[i as int], rs[order@[p as int] as int]),
            decreases order.len() - p,
        {
            let o = compare_ranked_results(required, min_rate, &results[i], &results[order[p]]);
            if o == RankOrder::Ahead {
                break;
            }
            p += 1;
        }
        let ghost old_order = order@;
        proof {
            assert(p == old_order.len() || ranks_before(req, min_rate, rs[i as int], rs[old_order[p as int] as int]));
        }
        order.insert(p, i);
        proof {
            let o2 = order@;
            assert(o2 == old_order.insert(p as int, i));
            assert forall|k: int| 0 <= k < o2.len() implies #[trigger] o2[k] < i + 1 by {
                if k < p {
                    assert(o2[k] == old_order[k]);
                } else if k > p {
                    assert(o2[k] == old_order[k - 1]);
                }
            }
            assert forall|a: int, b: int| 0 <= a < o2.len() && 0 <= b < o2.len() && a != b implies o2[a] != o2[b] by {
                if a != p && b != p {
                    let a0 = if a < p { a } else { a - 1 };
                    let b0 = if b < p { b } else { b - 1 };
                    assert(o2[a] == old_order[a0]);
                    assert(o2[b] == old_order[b0]);
                } else if a == p {
                    let b0 = if b < p { b } else { b - 1 };
                    assert(o2[b] == old_order[b0]);
                } else {
                    let a0 = if a < p { a } else { a - 1 };
                    assert(o2[a] == old_order[a0]);
                }
            }
            assert forall|a: int, b: int|
                0 <= a < b < o2.len() implies !ranks_before(
                req,
                min_rate,
                rs[#[trigger] o2[b] as int],
                rs[#[trigger] o2[a] as int],
            ) && (ranks_equal(req, min_rate, rs[o2[a] as int], rs[o2[b] as int]) ==> o2[a] < o2[b]) by {
                if a != p && b != p {
                    let a0 = if a < p { a } else { a - 1 };
                    let b0 = if b < p { b } else { b - 1 };
                    assert(o2[a] == old_order[a0]);
                    assert(o2[b] == old_order[b0]);
                } else if b == p {
                    assert(o2[a] == old_order[a]);
                } else {
                    // a == p < b: the new entry stands ahead of old_order[b - 1]
                    let b0 = b - 1;
                    assert(o2[b] == old_order[b0]);
                    let x = rs[i as int];
                    let y = rs[old_order[b0] as int];
                    let z = rs[old_order[p as int] as int];
                    law_ranking_is_strict_weak_order(req, min_rate, y, x, z);
                    law_ranking_is_strict_weak_order(req, min_rate, x, y, z);
                    if b0 > p {
                        assert(!ranks_before(req, min_rate, y, z));
                    }
                }
            }
        }
    }
    order
}

/// In ranking order, every eligible result stands ahead of every result
/// that is not eligible.
pub proof fn law_eligible_results_rank_first(
    required: Seq<u8>,
    min_rate: Option<MinRate>,
    results: Seq<SweepResult>,
    order: Seq<usize>,
    p: int,
    q: int,
)
    requires
        is_rank_order(required, min_rate, results, order),
        0 <= p < q < order.len(),
        spec_eligible(required, min_rate, results[order[q] as int]),
    ensures
        spec_eligible(required, min_rate, results[order[p] as int]),
{
    assert(!ranks_before(required, min_rate, results[order[q] as int], results[order[p] as int]));
}

/// Between two results of equal eligibility, the one whose CRC pass rate
/// `crc_ok / decode_attempted` is strictly higher ranks ahead, whatever the
/// false-positive rates and burst counts are. A result without decode
/// attempts has a CRC pass rate of zero.
pub proof fn law_higher_crc_rate_ranks_ahead(
    required: Seq<u8>,
    min_rate: Option<MinRate>,
    a: SweepResult,
    b: SweepResult,
)
    requires
        spec_eligible(required, min_rate, a) == spec_eligible(required, min_rate, b),
        a.decode_attempted > 0,
        b.decode_attempted == 0 ==> a.crc_ok > 0,
        b.decode_attempted > 0 ==> (a.crc_ok as int) * (b.decode_attempted as int) > (b.crc_ok as int) * (
        a.decode_attempted as int),
    ensures
        ranks_before(required, min_rate, a, b),
        !ranks_before(required, min_rate, b, a),
{
}

/// Between two results of equal eligibility and equal CRC pass rates, the
/// one whose false-positive rate `false_positive / decode_attempted` is
/// strictly lower ranks ahead, whatever the burst counts are.
pub proof fn law_lower_false_positive_rate_breaks_crc_ties(
    required: Seq<u8>,
    min_rate: Option<MinRate>,
    a: SweepResult,
    b: SweepResult,
)
    requires
        spec_eligible(required, min_rate, a) == spec_eligible(required, min_rate, b),
        a.decode_attempted > 0,
        b.decode_attempted > 0,
        (a.crc_ok as int) * (b.decode_attempted as int) == (b.crc_ok as int) * (a.decode_attempted as int),
        (a.false_positive as int) * (b.decode_attempted as int) < (b.false_positive as int) * (
        a.decode_attempted as int),
    ensures
        ranks_before(required, min_rate, a, b),
        !ranks_before(required, min_rate, b, a),
{
}

/// Between two results of equal eligibility, CRC pass rate and
/// false-positive rate, the one with more detected bursts ranks ahead.
pub proof fn law_more_detected_bursts_break_remaining_ties(
    required: Seq<u8>,
    min_rate: Option<MinRate>,
    a: SweepResult,
    b: SweepResult,
)
    requires
        spec_eligible(required, min_rate, a) == spec_eligible(required, min_rate, b),
        a.decode_attempted > 0,
        b.decode_attempted > 0,
        (a.crc_ok as int) * (b.decode_attempted as int) == (b.crc_ok as int) * (a.decode_attempted as int),
        (a.false_positive as int) * (b.decode_attempted as int) == (b.false_positive as int) * (
        a.decode_attempted as int),
        a.detected_bursts > b.detected_bursts,
    ensures
        ranks_before(required, min_rate, a, b),
        !ranks_before(required, min_rate, b, a),
{
}

/// In ranking order, of two results of equal eligibility the one with the
/// strictly higher CRC pass rate comes first.
pub proof fn law_rank_order_puts_higher_crc_rate_first(
    required: Seq<u8>,
    min_rate: Option<MinRate>,
    results: Seq<SweepResult>,
    order: Seq<usize>,
    p: int,
    q: int,
)
    requires
        is_rank_order(required, min_rate, results, order),
        0 <= p < order.len(),
        0 <= q < order.len(),
        spec_eligible(required, min_rate, results[order[p] as int]) == spec_eligible(
            required,
            min_rate,
            results[order[q] as int],
        ),
        results[order[p] as int].decode_attempted > 0,
        results[order[q] as int].decode_attempted > 0,
        (results[order[p] as int].crc_ok as int) * (results[order[q] as int].decode_attempted as int) > (
        results[order[q] as int].crc_ok as int) * (results[order[p] as int].decode_attempted as int),
    ensures
        p < q,
{
    law_higher_crc_rate_ranks_ahead(required, min_rate, results[order[p] as int], results[order[q] as int]);
    if q < p {
        assert(!ranks_before(required, min_rate, results[order[p] as int], results[order[q] as int]));
    }
}

/// A required uplink slot `s` from 0 to 3 is checked on its own counter
/// `s`: a result without decode attempts on counter `s` fails the
/// required-slot check, fails any CRC threshold, and is not eligible.
pub proof fn law_required_slot_without_attempts_fails(
    required: Seq<u8>,
    min_rate: Option<MinRate>,
    r: SweepResult,
    i: int,
)
    requires
        0 <= i < required.len(),
        required[i] <= 3,
        r.slot_attempted@[required[i] as int] == 0,
    ensures
        !spec_passes_required_slots(required, r),
        min_rate is Some ==> !spec_passes_slot_crc_threshold(required, min_rate, r),
        !spec_eligible(required, min_rate, r),
{
    assert(spec_required_slot_index(required[i] as int) == required[i] as int);
}

/// A result passes the required-slot check exactly when every required
/// slot has decode attempts on its counter, slot numbers above 3 counting
/// on counter 3.
pub proof fn law_required_slots_read_their_counters(required: Seq<u8>, r: SweepResult)
    ensures
        spec_passes_required_slots(required, r) <==> forall|i: int|
            #![trigger required[i]]
            0 <= i < required.len() ==> r.slot_attempted@[if required[i] > 3 {
                3int
            } else {
                required[i] as int
            }] > 0,
{
    assert forall|i: int| 0 <= i < required.len() implies spec_required_slot_index(#[trigger] required[i] as int)
        == (if required[i] > 3 {
        3int
    } else {
        required[i] as int
    }) by {}
}

/// With a minimum rate `num / den`, a result passes the CRC threshold
/// exactly when every required slot has decode attempts on its counter and
/// `crc_ok * den >= num * attempts` there; without one every result passes.
pub proof fn law_crc_threshold_reads_required_counters(required: Seq<u8>, min_rate: Option<MinRate>, r: SweepResult)
    ensures
        min_rate is None ==> spec_passes_slot_crc_threshold(required, min_rate, r),
        min_rate matches Some(t) ==> (spec_passes_slot_crc_threshold(required, min_rate, r) <==> forall|i: int|
            #![trigger required[i]]
            0 <= i < required.len() ==> {
                let c = if required[i] > 3 {
                    3int
                } else {
                    required[i] as int
                };
                &&& r.slot_attempted@[c] > 0
                &&& (r.slot_crc_ok@[c] as int) * (t.den as int) >= (t.num as int) * (r.slot_attempted@[c] as int)
            }),
{
    if let Some(t) = min_rate {
        assert forall|i: int| 0 <= i < required.len() implies spec_required_slot_index(#[trigger] required[i] as int)
            == (if required[i] > 3 {
            3int
        } else {
            required[i] as int
        }) by {}
    }
}

/// Number of eligible results among the first `n` of `results`.
pub open spec fn eligible_count(required: Seq<u8>, min_rate: Option<MinRate>, results: Seq<SweepResult>, n: int) -> nat
    decreases n,
{
    if n <= 0 {
        0
    } else {
        eligible_count(required, min_rate, results, n - 1) + if spec_eligible(
            required,
            min_rate,
            results[n - 1],
        ) {
            1nat
        } else {
            0nat
        }
    }
}

/// A duplicate-free list of `n` positions below `n` holds every position
/// below `n`.
proof fn lemma_permutation_covers(o: Seq<usize>, n: int, j: int)
    requires
        o.len() == n,
        o.no_duplicates(),
        forall|i: int| 0 <= i < o.len() ==> #[trigger] o[i] < n,
        0 <= j < n,
    ensures
        exists|q: int| 0 <= q < o.len() && o[q] == j,
{
    let os = o.map_values(|x: usize| x as int);
    assert forall|a: int, b: int| 0 <= a < os.len() && 0 <= b < os.len() && a != b implies os[a] != os[b] by {
        assert(o[a] != o[b]);
    }
    assert(os.no_duplicates());
    os.unique_seq_to_set();
    let range = vstd::set_lib::set_int_range(0, n);
    vstd::set_lib::lemma_int_range(0, n);
    assert(os.to_set().subset_of(range)) by {
        assert forall|x: int| os.to_set().contains(x) implies range.contains(x) by {
            let q = choose|q: int| 0 <= q < os.len() && os[q] == x;
            assert(o[q] < n);
        }
    }
    vstd::set_lib::lemma_len_subset(os.to_set(), range);
    vstd::set_lib::lemma_subset_equality(os.to_set(), range);
    assert(range.contains(j));
    assert(os.to_set().contains(j));
    let q = choose|q: int| 0 <= q < os.len() && os[q] == j;
    assert(o[q] == j);
}

/// One line of the ranked summary of a sweep.
#[derive(Debug, Clone, Copy)]
pub struct SummaryRow {
    /// 1 for the best-ranked result.
    pub rank: u32,
    pub result: SweepResult,
    pub passes_required_slots: bool,
    pub passes_slot_crc_threshold: bool,
}

/// The ranked summary of a sweep.
#[derive(Debug)]
pub struct SweepReport {
    /// Positions of the results in ranking order.
    pub order: Vec<usize>,
    /// Number of eligible results.
    pub valid_count: usize,
    /// Position of the best-ranked eligible result, if any.
    pub best_valid: Option<usize>,
    /// The results in ranking order with their rank and checks.
    pub rows: Vec<SummaryRow>,
}

/// Ranks the results of a sweep and builds its summary: the ranking order,
/// the number of eligible results, the best-ranked eligible result, and one
/// row per result in ranking order.
pub fn summarize_results(required: &Vec<u8>, min_rate: Option<MinRate>, results: &Vec<SweepResult>) -> (rep: SweepReport)
    ensures
        is_rank_order(required@, min_rate, results@, rep.order@),
        rep.valid_count == eligible_count(required@, min_rate, results@, results@.len() as int),
        match rep.best_valid {
            None => forall|k: int| 0 <= k < results@.len() ==> !spec_eligible(required@, min_rate, #[trigger] results@[k]),
            Some(b) => exists|k: int|
                0 <= k < rep.order@.len() && rep.order@[k] == b && spec_eligible(required@, min_rate, results@[b as int])
                    && forall|j: int| 0 <= j < k ==> !spec_eligible(required@, min_rate, #[trigger] results@[rep.order@[j] as int]),
        },
        rep.rows@.len() == results@.len(),
        forall|k: int|
            0 <= k < rep.rows@.len() ==> {
                let row = #[trigger] rep.rows@[k];
                let r = results@[rep.order@[k] as int];
                &&& row.rank == (k + 1) as u32
                &&& row.result == r
                &&& row.passes_required_slots == spec_passes_required_slots(required@, r)
                &&& row.passes_slot_crc_threshold == spec_passes_slot_crc_threshold(required@, min_rate, r)
            },
{
    let order = rank_order(required, min_rate, results);
    let n = results.len();
    let mut valid_count: usize = 0;
    let mut i: usize = 0;
    while i < n
        invariant
            i <= n,
            n == results.len(),
            valid_count == eligible_count(required@, min_rate, results@, i as int),
            valid_count <= i,
        decreases n - i,
    {
        if is_eligible(required, min_rate, &results[i]) {
            valid_count += 1;
        }
        i += 1;
    }

    let mut best_valid: Option<usize> = None;
    let mut rows: Vec<SummaryRow> = Vec::new();
    let mut k: usize = 0;
    while k < n
        invariant
            k <= n,
            n == results.len(),
            is_rank_order(required@, min_rate, results@, order@),
            rows@.len() == k,
            forall|j: int|
                0 <= j < k ==> {
                    let row = #[trigger] rows@[j];
                    let r = results@[order@[j] as int];
                    &&& row.rank == (j + 1) as u32
                    &&& row.result == r
                    &&& row.passes_required_slots == spec_passes_required_slots(required@, r)
                    &&& row.passes_slot_crc_threshold == spec_passes_slot_crc_threshold(required@, min_rate, r)
                },
            match best_valid {
                None => forall|j: int| 0 <= j < k ==> !spec_eligible(required@, min_rate, #[trigger] results@[order@[j] as int]),
                Some(b) => exists|j: int|
                    0 <= j < k && order@[j] == b && spec_eligible(required@, min_rate, results@[b as int])
                        && forall|l: int| 0 <= l < j ==> !spec_eligible(required@, min_rate, #[trigger] results@[order@[l] as int]),
            },
        decreases n - k,
    {
        let pos = order[k];
        let r = results[pos];
        let pr = passes_required_slots(required, &r);
        let pt = passes_slot_crc_threshold(required, min_rate, &r);
        if best_valid.is_none() && pr && pt {
            best_valid = Some(pos);
            proof {
                assert(order@[k as int] == pos);
            }
        }
        let rank = (k as u64 + 1) as u32;
        rows.push(SummaryRow { rank, result: r, passes_required_slots: pr, passes_slot_crc_threshold: pt });
        k += 1;
    }
    proof {
        if best_valid is None {
            assert forall|j: int| 0 <= j < results@.len() implies !spec_eligible(required@, min_rate, #[trigger] results@[j]) by {
                // every position occurs in the order
                let o = order@;
                assert(o.len() == results@.len());
                lemma_permutation_covers(o, results@.len() as int, j);
                let q = choose|q: int| 0 <= q < o.len() && o[q] == j;
                assert(!spec_eligible(required@, min_rate, results@[o[q] as int]));
            }
        }
    }
    SweepReport { order, valid_count, best_valid, rows }
}

} // verus!
