//! The runtime stager: decides whether the staged copy of the archive is
//! current, and if not, the steps that rebuild it.
//!
//! The host observes the runtime directory (whether it exists, and the text
//! of its marker file if that could be read), asks [`plan_staging`] for the
//! steps, and performs them in order, stopping at the first that fails.
//! [`DirState`] and [`apply_steps`] describe what each step does to the
//! directory, so that the laws below can speak of repeated runs.
use vstd::prelude::*;
use crate::marker::{
    archive_stamp, decimal, lemma_decimal_injective, lemma_marker_round_trip, marker_matches,
    records_stamp,
};

verus! {

/// Name of the marker file at the root of the runtime directory.
pub const MARKER_FILE_NAME: &'static str = ".archive_mtime";

/// Name of the packaged archive among the application's resources.
pub const ARCHIVE_NAME: &'static str = "next-dist.tar.gz";

/// Name of the runtime directory under the application's local data.
pub const RUNTIME_DIR_NAME: &'static str = "next-runtime";

/// One action on the runtime directory.
pub enum StageStep {
    /// Remove the runtime directory and everything in it.
    RemoveDir,
    /// Create the runtime directory, with its parents.
    CreateDir,
    /// Unpack every entry of the archive into the runtime directory.
    Extract,
    /// Write the given text into the marker file.
    WriteMarker(String),
}

/// A [`StageStep`] with its text as a sequence of characters.
pub enum StepModel {
    RemoveDir,
    CreateDir,
    Extract,
    WriteMarker(Seq<char>),
}

impl View for StageStep {
    type V = StepModel;

    open spec fn view(&self) -> StepModel {
        match self {
            StageStep::RemoveDir => StepModel::RemoveDir,
            StageStep::CreateDir => StepModel::CreateDir,
            StageStep::Extract => StepModel::Extract,
            StageStep::WriteMarker(s) => StepModel::WriteMarker(s@),
        }
    }
}

/// Why staging failed. Each carries the underlying cause as text.
pub enum StageError {
    /// The archive is missing or cannot be read.
    ArchiveUnavailable(String),
    /// The runtime directory could not be removed or created, or the
    /// marker could not be written.
    StagingIoError(String),
    /// The archive could not be unpacked.
    ExtractionFailed(String),
}

/// The marker text of an optional marker read.
pub open spec fn marker_view(marker: Option<String>) -> Option<Seq<char>> {
    match marker {
        Some(s) => Some(s@),
        None => None,
    }
}

/// Whether the runtime directory must be rebuilt for an archive whose stamp
/// is `stamp`: it is missing, its marker could not be read, or the marker
/// does not record that stamp.
pub open spec fn is_stale(dir_exists: bool, marker: Option<Seq<char>>, stamp: Seq<char>) -> bool {
    !dir_exists || marker is None || !records_stamp(marker->0, stamp)
}

/// The steps that bring the runtime directory up to date with an archive
/// modified at `mtime`: none where it is current; otherwise remove it (where
/// it exists), create it, unpack the archive, and write the marker last.
pub open spec fn staging_plan(dir_exists: bool, marker: Option<Seq<char>>, mtime: nat) -> Seq<StepModel> {
    let stamp = decimal(mtime);
    if !is_stale(dir_exists, marker, stamp) {
        seq![]
    } else if dir_exists {
        seq![StepModel::RemoveDir, StepModel::CreateDir, StepModel::Extract, StepModel::WriteMarker(stamp)]
    } else {
        seq![StepModel::CreateDir, StepModel::Extract, StepModel::WriteMarker(stamp)]
    }
}

/// Whether the runtime directory must be rebuilt, from whether it exists and
/// what its marker file held (`None` where it could not be read).
pub fn needs_unpack(dir_exists: bool, marker: &Option<String>, stamp: &str) -> (r: bool)
    ensures
        r == is_stale(dir_exists, marker_view(*marker), stamp@),
{
    if !dir_exists {
        return true;
    }
    match marker {
        Some(content) => !marker_matches(content.as_str(), stamp),
        None => true,
    }
}

/// The steps that stage an archive modified `archive_mtime` seconds after the
/// epoch, given whether the runtime directory exists and what its marker held.
pub fn plan_staging(dir_exists: bool, marker: &Option<String>, archive_mtime: u64) -> (r: Vec<StageStep>)
    ensures
        r@.map_values(|s: StageStep| s@) == staging_plan(dir_exists, marker_view(*marker), archive_mtime as nat),
{
    let stamp = archive_stamp(archive_mtime);
    let mut steps: Vec<StageStep> = Vec::new();
    if needs_unpack(dir_exists, marker, stamp.as_str()) {
        if dir_exists {
            steps.push(StageStep::RemoveDir);
        }
        steps.push(StageStep::CreateDir);
        steps.push(StageStep::Extract);
        steps.push(StageStep::WriteMarker(stamp));
    }
    assert(steps@.map_values(|s: StageStep| s@)
        =~= staging_plan(dir_exists, marker_view(*marker), archive_mtime as nat));
    steps
}

/// The error that the failure of `step` ends staging with.
pub fn step_error(step: &StageStep, cause: String) -> (r: StageError)
    ensures
        r == (match step {
            StageStep::Extract => StageError::ExtractionFailed(cause),
            _ => StageError::StagingIoError(cause),
        }),
{
    match step {
        StageStep::Extract => StageError::ExtractionFailed(cause),
        _ => StageError::StagingIoError(cause),
    }
}

/// The runtime directory as staging sees it.
pub struct DirState {
    /// Whether the directory exists.
    pub exists: bool,
    /// The marker text, where a marker that can be read is present.
    pub marker: Option<Seq<char>>,
    /// Whether the directory holds changes made after the last extraction.
    pub local_edits: bool,
    /// How many times the archive has been unpacked into it.
    pub extractions: nat,
}

/// A directory that does not exist has no marker.
pub open spec fn dir_wf(d: DirState) -> bool {
    !d.exists ==> d.marker is None
}

/// What one step does to the directory.
pub open spec fn apply_step(d: DirState, step: StepModel) -> DirState {
    match step {
        StepModel::RemoveDir => DirState { exists: false, marker: None, local_edits: false, ..d },
        StepModel::CreateDir => DirState { exists: true, ..d },
        StepModel::Extract => DirState { local_edits: false, extractions: d.extractions + 1, ..d },
        StepModel::WriteMarker(text) => DirState { marker: Some(text), ..d },
    }
}

/// What a sequence of steps, performed in order, does to the directory.
pub open spec fn apply_steps(d: DirState, steps: Seq<StepModel>) -> DirState
    decreases steps.len(),
{
    if steps.len() == 0 {
        d
    } else {
        apply_steps(apply_step(d, steps[0]), steps.drop_first())
    }
}

/// The plan for directory `d` and an archive modified at `mtime`.
pub open spec fn plan_for(d: DirState, mtime: nat) -> Seq<StepModel> {
    staging_plan(d.exists, d.marker, mtime)
}

/// The directory after a complete staging run for an archive modified at `mtime`.
pub open spec fn stage(d: DirState, mtime: nat) -> DirState {
    apply_steps(d, plan_for(d, mtime))
}

proof fn lemma_run_rebuilds(d: DirState, mtime: nat)
    requires
        dir_wf(d),
        is_stale(d.exists, d.marker, decimal(mtime)),
    ensures
        stage(d, mtime) == (DirState {
            exists: true,
            marker: Some(decimal(mtime)),
            local_edits: false,
            extractions: d.extractions + 1,
        }),
{
    let stamp = decimal(mtime);
    let plan = plan_for(d, mtime);
    let tail = seq![StepModel::CreateDir, StepModel::Extract, StepModel::WriteMarker(stamp)];
    let d0 = if d.exists { apply_step(d, StepModel::RemoveDir) } else { d };
    if d.exists {
        assert(plan.drop_first() =~= tail);
    } else {
        assert(plan =~= tail);
    }
    assert(apply_steps(d, plan) == apply_steps(d0, tail));
    let d1 = apply_step(d0, StepModel::CreateDir);
    let d2 = apply_step(d1, StepModel::Extract);
    let d3 = apply_step(d2, StepModel::WriteMarker(stamp));
    let t1 = seq![StepModel::Extract, StepModel::WriteMarker(stamp)];
    let t2 = seq![StepModel::WriteMarker(stamp)];
    assert(tail.drop_first() =~= t1);
    assert(t1.drop_first() =~= t2);
    assert(t2.drop_first() =~= Seq::<StepModel>::empty());
    assert(apply_steps(d3, Seq::<StepModel>::empty()) == d3);
    assert(apply_steps(d2, t2) == d3);
    assert(apply_steps(d1, t1) == d3);
    assert(apply_steps(d0, tail) == d3);
}

/// Staging is idempotent: after one complete run the directory is current,
/// so a second run with the same archive plans no step and changes nothing.
/// Over the two runs the archive is unpacked at most once, and exactly once
/// where the directory was stale to begin with.
pub proof fn lemma_staging_idempotent(d: DirState, mtime: u64)
    requires
        dir_wf(d),
    ensures
        plan_for(stage(d, mtime as nat), mtime as nat) == Seq::<StepModel>::empty(),
        stage(stage(d, mtime as nat), mtime as nat) == stage(d, mtime as nat),
        stage(d, mtime as nat).exists,
        is_stale(d.exists, d.marker, decimal(mtime as nat))
            ==> stage(d, mtime as nat).extractions == d.extractions + 1,
        !is_stale(d.exists, d.marker, decimal(mtime as nat)) ==> stage(d, mtime as nat) == d,
{
    let t = mtime as nat;
    lemma_marker_round_trip(mtime);
    if is_stale(d.exists, d.marker, decimal(t)) {
        lemma_run_rebuilds(d, t);
    }
    let d1 = stage(d, t);
    assert(!is_stale(d1.exists, d1.marker, decimal(t)));
    assert(apply_steps(d1, Seq::<StepModel>::empty()) == d1);
}

/// A directory whose marker records another timestamp is removed and fully
/// rebuilt, edits made to it since are gone, and the marker afterwards
/// records the new timestamp.
pub proof fn lemma_stale_marker_restages(d: DirState, old_mtime: u64, mtime: u64)
    requires
        d.exists,
        d.marker == Some(decimal(old_mtime as nat)),
        old_mtime != mtime,
    ensures
        plan_for(d, mtime as nat) == seq![
            StepModel::RemoveDir,
            StepModel::CreateDir,
            StepModel::Extract,
            StepModel::WriteMarker(decimal(mtime as nat)),
        ],
        stage(d, mtime as nat).marker == Some(decimal(mtime as nat)),
        !stage(d, mtime as nat).local_edits,
        stage(d, mtime as nat).extractions == d.extractions + 1,
{
    lemma_marker_round_trip(old_mtime);
    lemma_decimal_injective(old_mtime as nat, mtime as nat);
    lemma_run_rebuilds(d, mtime as nat);
}

/// A directory without a readable marker is stale whatever it holds: it is
/// removed and fully rebuilt, and the marker afterwards records the timestamp.
pub proof fn lemma_missing_marker_restages(d: DirState, mtime: u64)
    requires
        d.exists,
        d.marker is None,
    ensures
        plan_for(d, mtime as nat) == seq![
            StepModel::RemoveDir,
            StepModel::CreateDir,
            StepModel::Extract,
            StepModel::WriteMarker(decimal(mtime as nat)),
        ],
        stage(d, mtime as nat).marker == Some(decimal(mtime as nat)),
        !stage(d, mtime as nat).local_edits,
        stage(d, mtime as nat).extractions == d.extractions + 1,
{
    lemma_run_rebuilds(d, mtime as nat);
}

/// A run cut short after any proper prefix of its steps leaves the directory
/// stale, so the next run rebuilds it: the marker is written last.
pub proof fn lemma_interrupted_staging_stays_stale(d: DirState, mtime: u64, done: int)
    requires
        dir_wf(d),
        0 <= done < plan_for(d, mtime as nat).len(),
    ensures
        is_stale(
            apply_steps(d, plan_for(d, mtime as nat).take(done)).exists,
            apply_steps(d, plan_for(d, mtime as nat).take(done)).marker,
            decimal(mtime as nat),
        ),
{
    let plan = plan_for(d, mtime as nat);
    let prefix = plan.take(done);
    if done == 0 {
        assert(prefix =~= Seq::<StepModel>::empty());
    } else if d.exists {
        let rest = prefix.drop_first();
        assert(forall|i: int| 0 <= i < rest.len() ==> rest[i] == plan[i + 1]);
        lemma_no_marker_write(apply_step(d, StepModel::RemoveDir), rest);
    } else {
        lemma_no_marker_write(d, prefix);
    }
}

proof fn lemma_no_marker_write(d: DirState, steps: Seq<StepModel>)
    requires
        d.marker is None,
        forall|i: int| 0 <= i < steps.len() ==> !(#[trigger] steps[i] is WriteMarker),
    ensures
        apply_steps(d, steps).marker is None,
    decreases steps.len(),
{
    if steps.len() > 0 {
        let rest = steps.drop_first();
        assert(forall|i: int| 0 <= i < rest.len() ==> rest[i] == steps[i + 1]);
        lemma_no_marker_write(apply_step(d, steps[0]), rest);
    }
}

} // verus!
