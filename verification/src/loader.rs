//! The load as a whole: what is checked before the address space is touched,
//! and the order in which it is then built.
//!
//! The library never maps anything itself. It hands out one `Action` at a
//! time; the caller performs it and reports the `Outcome`, and the library
//! answers with the next action.

use vstd::prelude::*;
use crate::error::{Feature, LoadError};
use crate::image::{ElfHeader, ParsedImage, ProgramHeader, ET_EXEC};
use crate::layout::{ends_fit, get_initial_memory_map, plan_of, LoadPlan};
use crate::parse::{accepted, elf_parse, parse_image};
use crate::segment::{
    all_well_formed, conflict, mapping_of, mappings_conflict, segment_mapping, Protection,
    SegmentMapping,
};
use crate::select::{has_dynamic, has_load, lemma_loadable_members, loadable, select_loadable, selection_of};

verus! {

/// Everything a load needs once the image has been accepted.
#[derive(Clone, Debug)]
pub struct LoadJob {
    /// Address at which the program starts.
    pub entry: u64,
    /// The span to reserve.
    pub plan: LoadPlan,
    /// The loadable segments, in table order.
    pub segments: Vec<ProgramHeader>,
}

/// Whether the segments at `i` and `j` ask for the same page.
pub open spec fn clash(segs: Seq<ProgramHeader>, i: int, j: int) -> bool {
    conflict(mapping_of(segs[i]), mapping_of(segs[j]))
}

/// Whether no two segments of `segs` ask for the same page.
pub open spec fn placements_disjoint(segs: Seq<ProgramHeader>) -> bool {
    forall|i: int, j: int| 0 <= i < j < segs.len() ==> !#[trigger] clash(segs, i, j)
}

impl LoadJob {
    /// A job holds at least one segment, every segment is loadable and well
    /// formed, no two of them ask for the same page, and the plan is the
    /// plan of the segments.
    pub open spec fn wf(self) -> bool {
        &&& self.segments@.len() > 0
        &&& all_well_formed(self.segments@)
        &&& placements_disjoint(self.segments@)
        &&& forall|i: int| 0 <= i < self.segments@.len() ==> (#[trigger] self.segments@[i]).is_load()
        &&& self.plan == plan_of(self.segments@)
    }

    /// The job as plain values: entry, plan and segments.
    pub open spec fn view(self) -> (u64, LoadPlan, Seq<ProgramHeader>) {
        (self.entry, self.plan, self.segments@)
    }
}

/// What the checks before the load decide, in their order: the object type,
/// then the selection of the segments, then the shape of each selected
/// segment and that no two of them are placed on the same page.
pub open spec fn job_of(header: ElfHeader, segs: Seq<ProgramHeader>) -> Result<
    (u64, LoadPlan, Seq<ProgramHeader>),
    LoadError,
> {
    if header.e_type != ET_EXEC {
        Err(LoadError::UnsupportedType)
    } else {
        match selection_of(segs) {
            Err(e) => Err(e),
            Ok(selected) => if all_well_formed(selected) && placements_disjoint(selected) {
                Ok((header.e_entry, plan_of(selected), selected))
            } else {
                Err(LoadError::MalformedImage)
            },
        }
    }
}

/// The outcome of loading the bytes `data`, from decoding to the job.
pub open spec fn load_of(data: Seq<u8>) -> Result<(u64, LoadPlan, Seq<ProgramHeader>), LoadError> {
    match accepted(elf_parse(data)) {
        Err(e) => Err(e),
        Ok(p) => job_of(p.0, p.1),
    }
}

/// Decides whether every segment is well formed.
fn check_segments(segs: &Vec<ProgramHeader>) -> (r: bool)
    ensures
        r == all_well_formed(segs@),
{
    let mut i: usize = 0;
    while i < segs.len()
        invariant
            i <= segs@.len(),
            forall|k: int| 0 <= k < i ==> (#[trigger] segs@[k]).well_formed(),
        decreases segs@.len() - i,
    {
        if !segs[i].is_well_formed() {
            return false;
        }
        i = i + 1;
    }
    true
}

/// Decides whether no two segments ask for the same page.
fn check_placements(segs: &Vec<ProgramHeader>) -> (r: bool)
    requires
        all_well_formed(segs@),
    ensures
        r == placements_disjoint(segs@),
{
    let mut i: usize = 0;
    while i < segs.len()
        invariant
            i <= segs@.len(),
            all_well_formed(segs@),
            forall|a: int, b: int| 0 <= a < b < segs@.len() && a < i ==> !#[trigger] clash(segs@, a, b),
        decreases segs@.len() - i,
    {
        let first: SegmentMapping = segment_mapping(&segs[i]);
        let mut j: usize = i + 1;
        while j < segs.len()
            invariant
                i < j <= segs@.len(),
                all_well_formed(segs@),
                first == mapping_of(segs@[i as int]),
                forall|b: int| i < b < j ==> !#[trigger] clash(segs@, i as int, b),
            decreases segs@.len() - j,
        {
            let second: SegmentMapping = segment_mapping(&segs[j]);
            if mappings_conflict(&first, &second) {
                assert(clash(segs@, i as int, j as int));
                return false;
            }
            j = j + 1;
        }
        i = i + 1;
    }
    true
}

/// Checks a parsed image and plans its load.
pub fn prepare(img: &ParsedImage) -> (r: Result<LoadJob, LoadError>)
    ensures
        match r {
            Ok(job) => job.wf() && job_of(img.header, img.segments@) == Ok::<
                (u64, LoadPlan, Seq<ProgramHeader>),
                LoadError,
            >(job@),
            Err(e) => job_of(img.header, img.segments@) == Err::<
                (u64, LoadPlan, Seq<ProgramHeader>),
                LoadError,
            >(e),
        },
{
    if img.header.e_type != ET_EXEC {
        return Err(LoadError::UnsupportedType);
    }
    let segments: Vec<ProgramHeader> = match select_loadable(&img.segments) {
        Ok(v) => v,
        Err(e) => {
            return Err(e);
        },
    };
    if !check_segments(&segments) || !check_placements(&segments) {
        return Err(LoadError::MalformedImage);
    }
    proof {
        lemma_loadable_members(img.segments@);
        assert forall|i: int| 0 <= i < segments@.len() implies (#[trigger] segments@[i]).is_load() by {
            assert(loadable(img.segments@).contains(segments@[i]));
        }
        assert(ends_fit(segments@));
    }
    let plan: LoadPlan = get_initial_memory_map(&segments);
    Ok(LoadJob { entry: img.header.e_entry, plan, segments })
}

/// Parses the bytes of an image, checks it and plans its load.
pub fn load_image(data: &[u8]) -> (r: Result<LoadJob, LoadError>)
    ensures
        match r {
            Ok(job) => job.wf() && load_of(data@) == Ok::<
                (u64, LoadPlan, Seq<ProgramHeader>),
                LoadError,
            >(job@),
            Err(e) => load_of(data@) == Err::<(u64, LoadPlan, Seq<ProgramHeader>), LoadError>(e),
        },
{
    match parse_image(data) {
        Ok(img) => prepare(&img),
        Err(e) => Err(e),
    }
}

/// An executable with a dynamic segment is refused before anything is
/// planned: no job exists for it, so no reservation is ever asked for.
pub proof fn lemma_dynamic_refused(header: ElfHeader, segs: Seq<ProgramHeader>)
    requires
        header.e_type == ET_EXEC,
        has_dynamic(segs),
    ensures
        job_of(header, segs) == Err::<(u64, LoadPlan, Seq<ProgramHeader>), LoadError>(
            LoadError::UnsupportedFeature(Feature::DynamicLinking),
        ),
{
}

/// An executable without a loadable segment, and without a dynamic one, is
/// refused for having nothing to load.
pub proof fn lemma_nothing_to_load(header: ElfHeader, segs: Seq<ProgramHeader>)
    requires
        header.e_type == ET_EXEC,
        !has_dynamic(segs),
        !has_load(segs),
    ensures
        job_of(header, segs) == Err::<(u64, LoadPlan, Seq<ProgramHeader>), LoadError>(
            LoadError::NoLoadableSegments,
        ),
{
    lemma_loadable_members(segs);
}

/// Where a load stands.
#[derive(Clone, Copy, Debug, PartialEq, Eq, Structural)]
pub enum Phase {
    /// The reservation of the span has been asked for.
    Reserving,
    /// The mapping of the segment at `index` has been asked for.
    Mapping { index: usize },
    /// Control has been handed to the program.
    Transferred,
    /// The load has failed with `error`; nothing more is done.
    Stopped { error: LoadError },
}

/// What the caller reports of the action it was given.
#[derive(Clone, Copy, Debug, PartialEq, Eq, Structural)]
pub enum Outcome {
    /// The action was carried out; for a transfer, control came back.
    Done,
    /// The mapping call failed with this error number.
    Failed { errno: i32 },
}

/// What the caller has to do next.
#[derive(Clone, Copy, Debug, PartialEq, Eq, Structural)]
pub enum Action {
    /// Map `span` anonymous bytes with access `protection` at exactly
    /// `base`, failing where any of the range is already mapped.
    Reserve { base: u64, span: u64, protection: Protection },
    /// Map the segment at `index` from the file at a fixed address, over the
    /// reservation, and clear its zero range.
    MapSegment { index: usize, mapping: SegmentMapping },
    /// Jump to `entry`; no return is expected.
    Transfer { entry: u64 },
    /// Report the error and end the run.
    Fail(LoadError),
}

impl Phase {
    /// Whether the phase can occur in a load of `job`.
    pub open spec fn valid_for(self, job: LoadJob) -> bool {
        match self {
            Phase::Mapping { index } => index < job.segments@.len(),
            _ => true,
        }
    }
}

/// The step that ends a load with `error`.
pub open spec fn stop(error: LoadError) -> (Phase, Action) {
    (Phase::Stopped { error }, Action::Fail(error))
}

fn halt(error: LoadError) -> (r: (Phase, Action))
    ensures
        r == stop(error),
{
    (Phase::Stopped { error }, Action::Fail(error))
}

/// The first step of a load: reserving the whole span.
pub open spec fn first_step(job: LoadJob) -> (Phase, Action) {
    (
        Phase::Reserving,
        Action::Reserve { base: job.plan.base, span: job.plan.span, protection: read_write() },
    )
}

/// The access of the reservation: reading and writing, no execution.
pub open spec fn read_write() -> Protection {
    Protection { read: true, write: true, execute: false }
}

/// The step that follows `outcome` in `phase`. A failure ends the load with
/// the error of the phase it occurred in. Segments are mapped in table
/// order, each after the one before it succeeded, and control is handed over
/// after the last. Anything reported after the transfer means that control
/// came back. A load that has stopped stays stopped, with its error.
pub open spec fn next_step(job: LoadJob, phase: Phase, outcome: Outcome) -> (Phase, Action) {
    match phase {
        Phase::Reserving => match outcome {
            Outcome::Failed { errno } => stop(LoadError::ReservationFailed { errno }),
            Outcome::Done => (
                Phase::Mapping { index: 0 },
                Action::MapSegment { index: 0, mapping: mapping_of(job.segments@[0]) },
            ),
        },
        Phase::Mapping { index } => match outcome {
            Outcome::Failed { errno } => stop(
                LoadError::SegmentMapFailed { segment_index: index, errno },
            ),
            Outcome::Done => if index + 1 < job.segments@.len() {
                (
                    Phase::Mapping { index: (index + 1) as usize },
                    Action::MapSegment {
                        index: (index + 1) as usize,
                        mapping: mapping_of(job.segments@[index + 1]),
                    },
                )
            } else {
                (Phase::Transferred, Action::Transfer { entry: job.entry })
            },
        },
        Phase::Transferred => stop(LoadError::UnexpectedReturn),
        Phase::Stopped { error } => stop(error),
    }
}

/// The step that is reached from the start once `k` actions in a row have
/// succeeded.
pub open spec fn step_after(job: LoadJob, k: nat) -> (Phase, Action)
    decreases k,
{
    if k == 0 {
        first_step(job)
    } else {
        next_step(job, step_after(job, (k - 1) as nat).0, Outcome::Done)
    }
}

/// Segments are mapped in table order: after the reservation and the
/// segments before it have succeeded, the segment at `index` is mapped.
pub proof fn lemma_segments_mapped_in_order(job: LoadJob, index: nat)
    requires
        job.wf(),
        index < job.segments@.len(),
    ensures
        step_after(job, index + 1) == (
            Phase::Mapping { index: index as usize },
            Action::MapSegment { index: index as usize, mapping: mapping_of(job.segments@[index as int]) },
        ),
    decreases index,
{
    assert(job.segments@.len() == job.segments.len());
    let before = step_after(job, index);
    assert(step_after(job, index + 1) == next_step(job, before.0, Outcome::Done));
    if index > 0 {
        lemma_segments_mapped_in_order(job, (index - 1) as nat);
        assert(before.0 == Phase::Mapping { index: (index - 1) as usize });
    } else {
        assert(before == first_step(job));
    }
}

/// Control is handed over exactly after the last segment has been mapped,
/// and to the entry address.
pub proof fn lemma_transfer_follows_last_segment(job: LoadJob)
    requires
        job.wf(),
    ensures
        step_after(job, job.segments@.len() + 1) == (
            Phase::Transferred,
            Action::Transfer { entry: job.entry },
        ),
{
    let last = (job.segments@.len() - 1) as nat;
    assert(job.segments@.len() == job.segments.len());
    lemma_segments_mapped_in_order(job, last);
    assert(step_after(job, last + 2) == next_step(
        job,
        step_after(job, last + 1).0,
        Outcome::Done,
    ));
}

impl LoadJob {
    /// Starts the load.
    pub fn start(&self) -> (r: (Phase, Action))
        ensures
            r == first_step(*self),
            r.0.valid_for(*self),
    {
        let protection = Protection { read: true, write: true, execute: false };
        (Phase::Reserving, Action::Reserve { base: self.plan.base, span: self.plan.span, protection })
    }

    /// Decides what follows the outcome of the action last handed out.
    pub fn advance(&self, phase: Phase, outcome: Outcome) -> (r: (Phase, Action))
        requires
            self.wf(),
            phase.valid_for(*self),
        ensures
            r == next_step(*self, phase, outcome),
            r.0.valid_for(*self),
    {
        match phase {
            Phase::Reserving => match outcome {
                Outcome::Failed { errno } => halt(LoadError::ReservationFailed { errno }),
                Outcome::Done => (
                    Phase::Mapping { index: 0 },
                    Action::MapSegment { index: 0, mapping: segment_mapping(&self.segments[0]) },
                ),
            },
            Phase::Mapping { index } => match outcome {
                Outcome::Failed { errno } => halt(
                    LoadError::SegmentMapFailed { segment_index: index, errno },
                ),
                Outcome::Done => {
                    if index < self.segments.len() - 1 {
                        let next: usize = index + 1;
                        (
                            Phase::Mapping { index: next },
                            Action::MapSegment {
                                index: next,
                                mapping: segment_mapping(&self.segments[next]),
                            },
                        )
                    } else {
                        (Phase::Transferred, Action::Transfer { entry: self.entry })
                    }
                },
            },
            Phase::Transferred => halt(LoadError::UnexpectedReturn),
            Phase::Stopped { error } => halt(error),
        }
    }
}

} // verus!
