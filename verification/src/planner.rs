use vstd::prelude::*;

use crate::error::ToolError;

verus! {

/// One entry of an externally authored cut-list: a named time range of the
/// source media.  A segment with no explicit end is resolved against the
/// probed duration of the whole source.  All times are integer milliseconds.
pub struct CutSegment {
    pub name: String,
    pub start_ms: u64,
    pub end_ms: Option<u64>,
}

/// One segment after resolution: its end is now a concrete time.
pub struct PlannedSegment {
    pub name: String,
    pub start_ms: u64,
    pub end_ms: u64,
}

/// The bookkeeping of a batch trim job: the resolved segments and the total
/// target duration, which is the denominator of every percentage report.
pub struct SegmentPlan {
    pub segments: Vec<PlannedSegment>,
    pub total_ms: u64,
}

/// The end of a segment: its own end if it has one, else the probed duration
/// of the whole source.
pub open spec fn resolved_end_ms(seg: CutSegment, probed_ms: u64) -> int {
    match seg.end_ms {
        Some(e) => e as int,
        None => probed_ms as int,
    }
}

/// The resolved duration of one segment.
pub open spec fn seg_duration_ms(seg: CutSegment, probed_ms: u64) -> int {
    resolved_end_ms(seg, probed_ms) - seg.start_ms
}

/// The total target duration: the sum of the resolved per-segment durations.
pub open spec fn total_target_ms(segs: Seq<CutSegment>, probed_ms: u64) -> int
    decreases segs.len(),
{
    if segs.len() == 0 {
        0
    } else {
        total_target_ms(segs.drop_last(), probed_ms) + seg_duration_ms(segs.last(), probed_ms)
    }
}

/// The resolved duration of one planned segment.
pub open spec fn planned_duration_ms(s: PlannedSegment) -> int {
    s.end_ms - s.start_ms
}

/// The sum of the planned segments' durations.
pub open spec fn planned_total_ms(segs: Seq<PlannedSegment>) -> int
    decreases segs.len(),
{
    if segs.len() == 0 {
        0
    } else {
        planned_total_ms(segs.drop_last()) + planned_duration_ms(segs.last())
    }
}

/// Ordered segments sum to something non-negative.
pub proof fn lemma_planned_total_nonneg(segs: Seq<PlannedSegment>)
    requires
        forall|i: int|
            0 <= i < segs.len() ==> (#[trigger] segs[i]).start_ms <= segs[i].end_ms,
    ensures
        planned_total_ms(segs) >= 0,
    decreases segs.len(),
{
    if segs.len() > 0 {
        assert(forall|i: int|
            0 <= i < segs.len() - 1 ==> #[trigger] segs.drop_last()[i] == segs[i]);
        lemma_planned_total_nonneg(segs.drop_last());
    }
}

/// The sum over a suffix is the segment at its head plus the sum over the
/// rest.
pub proof fn lemma_planned_total_skip(segs: Seq<PlannedSegment>, k: int)
    requires
        0 <= k < segs.len(),
    ensures
        planned_total_ms(segs.skip(k)) == planned_duration_ms(segs[k]) + planned_total_ms(
            segs.skip(k + 1),
        ),
    decreases segs.len(),
{
    if k == segs.len() - 1 {
        assert(segs.skip(k).drop_last() =~= segs.skip(k + 1));
        assert(segs.skip(k + 1) =~= Seq::<PlannedSegment>::empty());
        assert(segs.skip(k).last() == segs[k]);
    } else {
        assert(segs.skip(k).drop_last() =~= segs.drop_last().skip(k));
        assert(segs.skip(k).last() == segs.last());
        assert(segs.skip(k + 1).drop_last() =~= segs.drop_last().skip(k + 1));
        assert(segs.skip(k + 1).last() == segs.last());
        lemma_planned_total_skip(segs.drop_last(), k);
        assert(segs.drop_last()[k] == segs[k]);
    }
}

/// Every segment starts no later than its resolved end.
pub open spec fn segments_well_formed(segs: Seq<CutSegment>, probed_ms: u64) -> bool {
    forall|i: int|
        0 <= i < segs.len() ==> (#[trigger] segs[i]).start_ms <= resolved_end_ms(segs[i], probed_ms)
}

/// The condition under which planning succeeds: ordered ranges and a total
/// that is positive and representable.
pub open spec fn plan_accepted(segs: Seq<CutSegment>, probed_ms: u64) -> bool {
    &&& segments_well_formed(segs, probed_ms)
    &&& 0 < total_target_ms(segs, probed_ms) <= u64::MAX
}

/// With well-formed segments every duration is non-negative, so the total
/// over a prefix never exceeds the total over the whole list.
proof fn lemma_total_prefix_le(segs: Seq<CutSegment>, probed_ms: u64, k: int)
    requires
        0 <= k <= segs.len(),
        segments_well_formed(segs, probed_ms),
    ensures
        total_target_ms(segs.take(k), probed_ms) <= total_target_ms(segs, probed_ms),
    decreases segs.len() - k,
{
    if k == segs.len() {
        assert(segs.take(k) =~= segs);
    } else {
        assert(segs.take(k + 1).drop_last() =~= segs.take(k));
        assert(segs.take(k + 1).last() == segs[k]);
        lemma_total_prefix_le(segs, probed_ms, k + 1);
    }
}

/// Resolves a cut-list against the probed source duration.
///
/// Accepts the list exactly when every segment's start is at most its
/// resolved end and the total target duration is positive and fits the
/// machine word; every rejection is a `MalformedJobInput`, and it happens
/// before any invocation for the batch exists.
pub fn plan(segs: &Vec<CutSegment>, probed_ms: u64) -> (r: Result<SegmentPlan, ToolError>)
    ensures
        r is Ok <==> plan_accepted(segs@, probed_ms),
        r is Err ==> r == Err::<SegmentPlan, ToolError>(ToolError::MalformedJobInput),
        r matches Ok(p) ==> {
            &&& p.total_ms == total_target_ms(segs@, probed_ms)
            &&& p.total_ms == planned_total_ms(p.segments@)
            &&& p.segments@.len() == segs@.len()
            &&& forall|i: int|
                0 <= i < segs@.len() ==> {
                    &&& (#[trigger] p.segments@[i]).name@ == segs@[i].name@
                    &&& p.segments@[i].start_ms == segs@[i].start_ms
                    &&& p.segments@[i].end_ms == resolved_end_ms(segs@[i], probed_ms)
                    &&& p.segments@[i].start_ms <= p.segments@[i].end_ms
                }
        },
{
    let mut total: u64 = 0;
    let mut out: Vec<PlannedSegment> = Vec::new();
    let mut i: usize = 0;
    while i < segs.len()
        invariant
            i <= segs@.len(),
            out@.len() == i,
            total == total_target_ms(segs@.take(i as int), probed_ms),
            total == planned_total_ms(out@),
            forall|j: int|
                0 <= j < i ==> (#[trigger] segs@[j]).start_ms <= resolved_end_ms(
                    segs@[j],
                    probed_ms,
                ),
            forall|j: int|
                0 <= j < i ==> {
                    &&& (#[trigger] out@[j]).name@ == segs@[j].name@
                    &&& out@[j].start_ms == segs@[j].start_ms
                    &&& out@[j].end_ms == resolved_end_ms(segs@[j], probed_ms)
                    &&& out@[j].start_ms <= out@[j].end_ms
                },
        decreases segs@.len() - i,
    {
        let seg = &segs[i];
        let end: u64 = match seg.end_ms {
            Some(e) => e,
            None => probed_ms,
        };
        if seg.start_ms > end {
            assert(!segments_well_formed(segs@, probed_ms));
            return Err(ToolError::MalformedJobInput);
        }
        let dur: u64 = end - seg.start_ms;
        proof {
            assert(segs@.take(i + 1).drop_last() =~= segs@.take(i as int));
            assert(segs@.take(i + 1).last() == segs@[i as int]);
        }
        if dur > u64::MAX - total {
            proof {
                if segments_well_formed(segs@, probed_ms) {
                    lemma_total_prefix_le(segs@, probed_ms, i + 1);
                }
            }
            return Err(ToolError::MalformedJobInput);
        }
        total = total + dur;
        let ghost out_before = out@;
        out.push(
            PlannedSegment { name: seg.name.clone(), start_ms: seg.start_ms, end_ms: end },
        );
        proof {
            assert(out@.drop_last() =~= out_before);
        }
        i = i + 1;
    }
    proof {
        assert(segs@.take(segs@.len() as int) =~= segs@);
    }
    if total == 0 {
        return Err(ToolError::MalformedJobInput);
    }
    Ok(SegmentPlan { segments: out, total_ms: total })
}

/// The end-to-end percentage reported while some prefix of the target
/// duration has been produced: the exact proportion scaled to 100, floored,
/// and clamped so that it never exceeds 100.
pub open spec fn spec_percent(total_ms: int, done_ms: int) -> int {
    if done_ms * 100 / total_ms >= 100 {
        100
    } else {
        done_ms * 100 / total_ms
    }
}

/// The percentage is a floor of an exact proportion, so it stays within
/// `[0, 100]` whenever the total is positive.
pub proof fn lemma_percent_bounds(total_ms: int, done_ms: int)
    requires
        0 < total_ms,
        0 <= done_ms,
    ensures
        0 <= spec_percent(total_ms, done_ms) <= 100,
{
    vstd::arithmetic::div_mod::lemma_div_pos_is_pos(done_ms * 100, total_ms);
}

/// Reported percentages never regress as the produced duration grows: the
/// proportion is monotone and the clamp preserves monotonicity.
pub proof fn lemma_percent_monotone(total_ms: int, a: int, b: int)
    requires
        0 < total_ms,
        0 <= a <= b,
    ensures
        spec_percent(total_ms, a) <= spec_percent(total_ms, b),
{
    vstd::arithmetic::div_mod::lemma_div_is_ordered(a * 100, b * 100, total_ms);
}

/// Computes the clamped overall percentage for a progress report observed
/// while `elapsed_ms` of the current segment has been produced and
/// `prior_ms` of earlier segments is already done.
pub fn percent_for(total_ms: u64, prior_ms: u64, elapsed_ms: u64) -> (r: i8)
    requires
        total_ms > 0,
    ensures
        0 <= r <= 100,
        r as int == spec_percent(total_ms as int, prior_ms + elapsed_ms),
{
    let done: u128 = prior_ms as u128 + elapsed_ms as u128;
    let q: u128 = (done * 100) / (total_ms as u128);
    proof {
        lemma_percent_bounds(total_ms as int, (prior_ms + elapsed_ms) as int);
    }
    if q >= 100 {
        100
    } else {
        q as i8
    }
}

} // verus!
