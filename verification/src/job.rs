use vstd::prelude::*;

use crate::builder::JobPlan;
use crate::builder::spec_first_index_of_slash;
use crate::builder::spec_segment_target;
use crate::builder::trim_segment_invocation;
use crate::error::ToolError;
use crate::pathname::spec_file_name;
use crate::pathname::spec_has_extension;
use crate::planner::CutSegment;
use crate::planner::SegmentPlan;
use crate::planner::lemma_planned_total_nonneg;
use crate::planner::lemma_planned_total_skip;
use crate::planner::plan;
use crate::planner::plan_accepted;
use crate::planner::planned_total_ms;
use crate::planner::percent_for;
use crate::planner::spec_percent;
use crate::planner::total_target_ms;
use crate::probe::ProbedStream;
use crate::probe::select_av;
use crate::probe::spec_av_usable;
use crate::probe::spec_probed_duration_ms;
use crate::progress::ProgressRecord;

verus! {

/// The descriptor of one transcoding request, in the shape the caller
/// hands in and receives back: identification, the current percentage and
/// the error text, which is empty while nothing has failed.
#[derive(Debug)]
pub struct FileItem {
    pub name: String,
    pub filepath: String,
    pub uuid: String,
    pub tool: String,
    pub progress: i8,
    pub error: String,
}

impl FileItem {
    /// Records the outcome of a run-to-completion job: success pins the
    /// percentage to one hundred, failure records the captured diagnostic
    /// text and leaves the percentage alone.
    pub fn complete(&mut self, success: bool, diagnostic: String)
        ensures
            final(self).name == old(self).name,
            final(self).filepath == old(self).filepath,
            final(self).uuid == old(self).uuid,
            final(self).tool == old(self).tool,
            success ==> final(self).progress == 100 && final(self).error == old(self).error,
            !success ==> final(self).progress == old(self).progress && final(self).error
                == diagnostic,
    {
        if success {
            self.progress = 100;
        } else {
            self.error = diagnostic;
        }
    }
}

/// The state of one batch trim job while its segments run in order:
/// which segment runs, how much target duration earlier successful
/// segments produced, the last reported percentage and the last error
/// text.
pub struct BatchJob {
    pub plan: SegmentPlan,
    pub current: usize,
    pub processed_prior_ms: u64,
    pub last_percent: i8,
    pub error: String,
}

impl BatchJob {
    /// The well-formedness every reachable state keeps: a positive total,
    /// ordered segments, a current index within the plan, a percentage in
    /// range, and a processed duration that the remaining segments can
    /// still grow to at most the total.
    pub open spec fn wf(self) -> bool {
        &&& self.plan.total_ms > 0
        &&& self.current <= self.plan.segments@.len()
        &&& forall|i: int|
            0 <= i < self.plan.segments@.len() ==> (#[trigger] self.plan.segments@[i]).start_ms
                <= self.plan.segments@[i].end_ms
        &&& 0 <= self.last_percent <= 100
        &&& self.processed_prior_ms + planned_total_ms(
            self.plan.segments@.skip(self.current as int),
        ) <= self.plan.total_ms
    }

    /// Starts the batch at its first segment with nothing produced, no
    /// error and a zero percentage.
    pub fn start(plan: SegmentPlan) -> (r: BatchJob)
        requires
            plan.total_ms > 0,
            plan.total_ms == planned_total_ms(plan.segments@),
            forall|i: int|
                0 <= i < plan.segments@.len() ==> (#[trigger] plan.segments@[i]).start_ms
                    <= plan.segments@[i].end_ms,
        ensures
            r.wf(),
            r.plan == plan,
            r.current == 0,
            r.processed_prior_ms == 0,
            r.last_percent == 0,
            r.error@ == Seq::<char>::empty(),
    {
        proof {
            assert(plan.segments@.skip(0) =~= plan.segments@);
        }
        let r = BatchJob {
            plan,
            current: 0,
            processed_prior_ms: 0,
            last_percent: 0,
            error: String::new(),
        };
        proof {
            assert(r.error@ =~= Seq::<char>::empty());
        }
        r
    }

    /// Folds one progress record of the current segment into the overall
    /// percentage.  Within a segment the reported percentage never goes
    /// down: a record that would regress is held at the last value.  The
    /// end record of a run reports completion outright.
    pub fn on_record(&mut self, rec: ProgressRecord) -> (r: i8)
        requires
            old(self).wf(),
        ensures
            final(self).wf(),
            r == final(self).last_percent,
            final(self).plan == old(self).plan,
            final(self).current == old(self).current,
            final(self).processed_prior_ms == old(self).processed_prior_ms,
            final(self).error == old(self).error,
            final(self).last_percent >= old(self).last_percent,
            rec matches ProgressRecord::Continue(ms) ==> final(self).last_percent as int == {
                let p = spec_percent(
                    old(self).plan.total_ms as int,
                    old(self).processed_prior_ms + ms,
                );
                if p >= old(self).last_percent as int {
                    p
                } else {
                    old(self).last_percent as int
                }
            },
            rec is End ==> final(self).last_percent == 100,
    {
        match rec {
            ProgressRecord::Continue(ms) => {
                let p: i8 = percent_for(self.plan.total_ms, self.processed_prior_ms, ms);
                if p > self.last_percent {
                    self.last_percent = p;
                }
                self.last_percent
            },
            ProgressRecord::End => {
                self.last_percent = 100;
                self.last_percent
            },
        }
    }

    /// Records the exit of the current segment's process and moves to the
    /// next segment.  Only a successful exit advances the produced
    /// duration, and it advances by the segment's own resolved duration,
    /// not by anything the progress stream reported; a failure leaves the
    /// produced duration untouched and keeps the diagnostic text as the
    /// job's error, so a failed segment never drags later percentages
    /// backwards.
    pub fn on_segment_exit(&mut self, success: bool, diagnostic: String)
        requires
            old(self).wf(),
            old(self).current < old(self).plan.segments@.len(),
        ensures
            final(self).wf(),
            final(self).plan == old(self).plan,
            final(self).current == old(self).current + 1,
            final(self).last_percent == old(self).last_percent,
            final(self).processed_prior_ms >= old(self).processed_prior_ms,
            success ==> ({
                let seg = old(self).plan.segments@[old(self).current as int];
                &&& final(self).processed_prior_ms == old(self).processed_prior_ms + (seg.end_ms
                    - seg.start_ms)
                &&& final(self).error == old(self).error
            }),
            !success ==> ({
                &&& final(self).processed_prior_ms == old(self).processed_prior_ms
                &&& final(self).error == diagnostic
            }),
    {
        proof {
            lemma_planned_total_skip(self.plan.segments@, self.current as int);
            assert(forall|i: int|
                0 <= i < self.plan.segments@.skip(self.current + 1).len()
                    ==> (#[trigger] self.plan.segments@.skip(self.current + 1)[i]).start_ms
                    <= self.plan.segments@.skip(self.current + 1)[i].end_ms);
            lemma_planned_total_nonneg(self.plan.segments@.skip(self.current + 1));
        }
        // reading the length binds the plan's size to the machine word
        let n: usize = self.plan.segments.len();
        assert(self.current < n);
        if success {
            let seg_start: u64 = self.plan.segments[self.current].start_ms;
            let seg_end: u64 = self.plan.segments[self.current].end_ms;
            self.processed_prior_ms = self.processed_prior_ms + (seg_end - seg_start);
        } else {
            self.error = diagnostic;
        }
        self.current = self.current + 1;
    }

    /// Whether every segment of the batch has run.
    pub fn finished(&self) -> (r: bool)
        ensures
            r <==> self.current == self.plan.segments@.len(),
    {
        self.current == self.plan.segments.len()
    }
}

/// One outward event: the descriptor's identifying fields with the batch
/// job's current percentage and error text, ready for the event boundary.
pub fn snapshot_event(file: &FileItem, job: &BatchJob) -> (r: FileItem)
    ensures
        r.name@ == file.name@,
        r.filepath@ == file.filepath@,
        r.uuid@ == file.uuid@,
        r.tool@ == file.tool@,
        r.progress == job.last_percent,
        r.error@ == job.error@,
{
    FileItem {
        name: file.name.clone(),
        filepath: file.filepath.clone(),
        uuid: file.uuid.clone(),
        tool: file.tool.clone(),
        progress: job.last_percent,
        error: job.error.clone(),
    }
}

/// A prepared batch trim job: one invocation per segment, and the state
/// that folds their progress into one percentage.
pub struct TrimBatch {
    pub plans: Vec<JobPlan>,
    pub job: BatchJob,
}

/// Whether a segment's derived output name is acceptable for this source:
/// the source has a stem and an extension, the segment's name holds no
/// path separator, and the derived output is not the source itself.
pub open spec fn segment_nameable(src: Seq<char>, index: int, seg_name: Seq<char>) -> bool {
    &&& spec_file_name(src).len() > 0
    &&& spec_has_extension(spec_file_name(src))
    &&& spec_first_index_of_slash(seg_name) == -1
    &&& spec_segment_target(src, index, seg_name) != src
}

/// Plans a whole batch trim job from the cut-list segments and the probed
/// streams of the source.  The job is refused, before any invocation for
/// it exists, when the probe lacks a usable audio or video stream, when
/// the resolved segments are unordered or sum to no positive duration,
/// or when a segment's output name cannot be derived; every refusal is a
/// malformed job input.
pub fn encode_and_trim(source: &str, segments: &Vec<CutSegment>, streams: &Vec<ProbedStream>)
    -> (r: Result<TrimBatch, ToolError>)
    ensures
        r is Err ==> r == Err::<TrimBatch, ToolError>(ToolError::MalformedJobInput),
        !spec_av_usable(streams@) ==> r is Err,
        r is Ok <==> (spec_av_usable(streams@) && plan_accepted(
            segments@,
            spec_probed_duration_ms(streams@) as u64,
        ) && (forall|i: int|
            0 <= i < segments@.len() ==> segment_nameable(source@, i, (#[trigger] segments@[i]).name@))),
        r matches Ok(tb) ==> {
            let probed = spec_probed_duration_ms(streams@) as u64;
            &&& tb.job.wf()
            &&& tb.job.plan.total_ms == total_target_ms(segments@, probed)
            &&& tb.job.current == 0
            &&& tb.job.processed_prior_ms == 0
            &&& tb.job.last_percent == 0
            &&& tb.job.error@ == Seq::<char>::empty()
            &&& tb.job.plan.segments@.len() == segments@.len()
            &&& tb.plans@.len() == segments@.len()
            &&& forall|i: int|
                0 <= i < segments@.len() ==> (#[trigger] tb.plans@[i]).target@
                    == spec_segment_target(source@, i, segments@[i].name@)
        },
{
    let av = match select_av(streams) {
        Ok(av) => av,
        Err(_) => {
            return Err(ToolError::MalformedJobInput);
        },
    };
    let segment_plan: SegmentPlan = match plan(segments, av.duration_ms) {
        Ok(p) => p,
        Err(_) => {
            return Err(ToolError::MalformedJobInput);
        },
    };
    let mut plans: Vec<JobPlan> = Vec::new();
    let n: usize = segment_plan.segments.len();
    let mut i: usize = 0;
    while i < n
        invariant
            n == segment_plan.segments@.len() == segments@.len(),
            0 <= i <= n,
            plans@.len() == i,
            forall|j: int|
                0 <= j < n ==> (#[trigger] segment_plan.segments@[j]).name@ == segments@[j].name@,
            forall|j: int| 0 <= j < i ==> segment_nameable(source@, j, (#[trigger] segments@[j]).name@),
            forall|j: int|
                0 <= j < i ==> (#[trigger] plans@[j]).target@ == spec_segment_target(
                    source@,
                    j,
                    segments@[j].name@,
                ),
        decreases n - i,
    {
        let p: JobPlan = match trim_segment_invocation(
            source,
            &segment_plan.segments[i],
            i,
            &av,
        ) {
            Ok(p) => p,
            Err(_) => {
                assert(!segment_nameable(source@, i as int, segments@[i as int].name@));
                return Err(ToolError::MalformedJobInput);
            },
        };
        plans.push(p);
        i = i + 1;
    }
    let job: BatchJob = BatchJob::start(segment_plan);
    Ok(TrimBatch { plans, job })
}

} // verus!
