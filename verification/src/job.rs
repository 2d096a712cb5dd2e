//! Extraction jobs: how one is planned for a take and a track, what is
//! handed to the encoder, and how its outcome is recorded.

use crate::data::{Session, SessionView, Take, TakeView, TrackView};
use crate::path::{extension, extension_spec, join, join_spec};
use crate::text::{append_decimal, decimal, same_text};
use crate::timestamp::{canonical_text, Timestamp};
use vstd::prelude::*;
use vstd::string::*;

verus! {

/// How the encoder treats the streams of an input file.
#[derive(Debug, Clone, Copy, PartialEq, Eq, Structural)]
pub enum CodecProfile {
    /// Every stream is copied as it is into the new container.
    Remux,
    /// The audio is copied and the video is encoded anew.
    Transcode,
}

/// The profile for an input file with the extension `ext`: `mp4` files are
/// transcoded, all others remuxed.
pub open spec fn profile_for(ext: Seq<char>) -> CodecProfile {
    if ext == "mp4"@ {
        CodecProfile::Transcode
    } else {
        CodecProfile::Remux
    }
}

/// The encoder arguments that copy every stream.
pub open spec fn remux_args() -> Seq<Seq<char>> {
    seq!["-c"@, "copy"@]
}

/// The encoder arguments that copy the audio and leave the video to be encoded.
pub open spec fn transcode_args() -> Seq<Seq<char>> {
    seq!["-c:a"@, "copy"@]
}

/// The encoder arguments of `profile`.
pub open spec fn profile_args(profile: CodecProfile) -> Seq<Seq<char>> {
    match profile {
        CodecProfile::Remux => remux_args(),
        CodecProfile::Transcode => transcode_args(),
    }
}

/// The texts of `args`, in order.
pub open spec fn arg_views(args: Seq<String>) -> Seq<Seq<char>> {
    args.map_values(|a: String| a@)
}

/// The encoder arguments that copy every stream.
pub fn ffmpeg_args_remux() -> (args: Vec<String>)
    ensures
        arg_views(args@) == remux_args(),
{
    let mut args: Vec<String> = Vec::new();
    args.push("-c".to_owned());
    args.push("copy".to_owned());
    assert(arg_views(args@) =~= remux_args());
    args
}

/// The encoder arguments that copy the audio and leave the video to be encoded.
pub fn ffmpeg_args_transcode() -> (args: Vec<String>)
    ensures
        arg_views(args@) == transcode_args(),
{
    let mut args: Vec<String> = Vec::new();
    args.push("-c:a".to_owned());
    args.push("copy".to_owned());
    assert(arg_views(args@) =~= transcode_args());
    args
}

/// Why one job gave no output.
#[derive(Debug)]
pub enum EncodeError {
    /// The track's file has no extension to name the output by.
    NoExtension,
    /// A take boundary moved by the track's offset is more than a timestamp
    /// can hold.
    TimeOverflow,
    /// The encoder ran and reported a failure; this is what it wrote to its
    /// error stream.
    ExitFailure(String),
    /// The encoder could not be started; this is the reason given.
    SpawnFailure(String),
}

/// What an `EncodeError` holds, as plain values.
pub enum EncodeErrorView {
    NoExtension,
    TimeOverflow,
    ExitFailure(Seq<char>),
    SpawnFailure(Seq<char>),
}

impl View for EncodeError {
    type V = EncodeErrorView;

    open spec fn view(&self) -> EncodeErrorView {
        match self {
            EncodeError::NoExtension => EncodeErrorView::NoExtension,
            EncodeError::TimeOverflow => EncodeErrorView::TimeOverflow,
            EncodeError::ExitFailure(stderr) => EncodeErrorView::ExitFailure(stderr@),
            EncodeError::SpawnFailure(reason) => EncodeErrorView::SpawnFailure(reason@),
        }
    }
}

/// One request to the encoder: a slice of one track for one take.
#[derive(Debug)]
pub struct Job {
    /// The position of the take in its session's list of takes.
    pub take_index: usize,
    /// The position of the track in its session's list of tracks.
    pub track_index: usize,
    /// The file to extract from.
    pub input: String,
    /// Where the slice starts in the input file.
    pub start: Timestamp,
    /// Where the slice ends in the input file.
    pub end: Timestamp,
    /// How the encoder treats the streams.
    pub profile: CodecProfile,
    /// The file to write.
    pub output: String,
}

/// What a `Job` holds, as plain values.
pub struct JobView {
    pub take_index: nat,
    pub track_index: nat,
    pub input: Seq<char>,
    pub start: nat,
    pub end: nat,
    pub profile: CodecProfile,
    pub output: Seq<char>,
}

impl View for Job {
    type V = JobView;

    open spec fn view(&self) -> JobView {
        JobView {
            take_index: self.take_index as nat,
            track_index: self.track_index as nat,
            input: self.input@,
            start: self.start@,
            end: self.end@,
            profile: self.profile,
            output: self.output@,
        }
    }
}

/// The view of a planned job, or of the reason why there is none.
pub open spec fn planned_view(planned: Result<Job, EncodeError>) -> Result<
    JobView,
    EncodeErrorView,
> {
    match planned {
        Ok(job) => Ok(job@),
        Err(e) => Err(e@),
    }
}

/// The views of `plan`, in order.
pub open spec fn plan_views(plan: Seq<Result<Job, EncodeError>>) -> Seq<
    Result<JobView, EncodeErrorView>,
> {
    plan.map_values(|p: Result<Job, EncodeError>| planned_view(p))
}

/// The name of the file that holds the slice of track `track_index` for take
/// `take_index`.
pub open spec fn output_name(
    chunk_id: Seq<char>,
    take_index: nat,
    track_index: nat,
    mark: Seq<char>,
    ext: Seq<char>,
) -> Seq<char> {
    "chunk-"@ + chunk_id + "-take-"@ + decimal(take_index) + "-track-"@ + decimal(track_index)
        + "-"@ + mark + "."@ + ext
}

/// The job that extracts `take` from `track` into the directory `dir`, or the
/// reason why there is none: both take boundaries are moved by the track's
/// offset, and the output is named by the chunk, the two positions, the mark
/// and the input's extension.
pub open spec fn plan_track(
    take: TakeView,
    take_index: nat,
    track: TrackView,
    track_index: nat,
    dir: Seq<char>,
) -> Result<JobView, EncodeErrorView> {
    match extension_spec(track.file) {
        None => Err(EncodeErrorView::NoExtension),
        Some(ext) => {
            if take.start + track.sync_offset > u64::MAX || take.end + track.sync_offset
                > u64::MAX {
                Err(EncodeErrorView::TimeOverflow)
            } else {
                Ok(
                    JobView {
                        take_index,
                        track_index,
                        input: track.file,
                        start: take.start + track.sync_offset,
                        end: take.end + track.sync_offset,
                        profile: profile_for(ext),
                        output: join_spec(
                            dir,
                            output_name(take.chunk_id, take_index, track_index, take.mark, ext),
                        ),
                    },
                )
            }
        },
    }
}

/// The jobs of one take: one for each track of its session, in order.
pub open spec fn plan_take(session: SessionView, take: TakeView, take_index: nat, dir: Seq<char>)
    -> Seq<Result<JobView, EncodeErrorView>> {
    Seq::new(
        session.tracks.len(),
        |k: int| plan_track(take, take_index, session.tracks[k], k as nat, dir),
    )
}

/// The name of the file that holds the slice of track `track_index` for take
/// `take_index`.
pub fn output_file_name(
    chunk_id: &str,
    take_index: usize,
    track_index: usize,
    mark: &str,
    ext: &str,
) -> (name: String)
    ensures
        name@ == output_name(chunk_id@, take_index as nat, track_index as nat, mark@, ext@),
{
    let mut name = "chunk-".to_owned();
    name.append(chunk_id);
    name.append("-take-");
    append_decimal(&mut name, take_index as u64);
    name.append("-track-");
    append_decimal(&mut name, track_index as u64);
    name.append("-");
    name.append(mark);
    name.append(".");
    name.append(ext);
    name
}

/// Plans the jobs of one take: for each track of `session`, the slice moved
/// by the track's offset, the output file in `output_dir`, and the codec
/// profile that the input's extension asks for.
pub fn slice_take(session: &Session, index: usize, take: &Take, output_dir: &str) -> (jobs: Vec<
    Result<Job, EncodeError>,
>)
    ensures
        plan_views(jobs@) == plan_take(session@, take@, index as nat, output_dir@),
{
    let mut jobs: Vec<Result<Job, EncodeError>> = Vec::new();
    let mut track_idx: usize = 0;
    while track_idx < session.tracks.len()
        invariant
            track_idx <= session.tracks.len(),
            jobs.len() == track_idx,
            forall|k: int|
                0 <= k < track_idx ==> planned_view(#[trigger] jobs[k]) == plan_track(
                    take@,
                    index as nat,
                    session.tracks[k]@,
                    k as nat,
                    output_dir@,
                ),
        decreases session.tracks.len() - track_idx,
    {
        let track = &session.tracks[track_idx];
        let planned = match extension(track.file.as_str()) {
            None => Err(EncodeError::NoExtension),
            Some(ext) => {
                match (take.start.add(track.sync_offset), take.end.add(track.sync_offset)) {
                    (Ok(start), Ok(end)) => {
                        let file_name = output_file_name(
                            take.chunk_id.as_str(),
                            index,
                            track_idx,
                            take.mark.as_str(),
                            ext.as_str(),
                        );
                        let profile = if same_text(ext.as_str(), "mp4") {
                            CodecProfile::Transcode
                        } else {
                            CodecProfile::Remux
                        };
                        Ok(
                            Job {
                                take_index: index,
                                track_index: track_idx,
                                input: track.file.clone(),
                                start,
                                end,
                                profile,
                                output: join(output_dir, file_name.as_str()),
                            },
                        )
                    },
                    _ => Err(EncodeError::TimeOverflow),
                }
            },
        };
        jobs.push(planned);
        track_idx = track_idx + 1;
    }
    assert(plan_views(jobs@) =~= plan_take(session@, take@, index as nat, output_dir@));
    jobs
}

impl Clone for EncodeError {
    fn clone(&self) -> (copy: EncodeError)
        ensures
            copy@ == self@,
    {
        match self {
            EncodeError::NoExtension => EncodeError::NoExtension,
            EncodeError::TimeOverflow => EncodeError::TimeOverflow,
            EncodeError::ExitFailure(stderr) => EncodeError::ExitFailure(stderr.clone()),
            EncodeError::SpawnFailure(reason) => EncodeError::SpawnFailure(reason.clone()),
        }
    }
}

/// The arguments that the encoder is started with for `job`: the input, the
/// two ends of the slice, one thread, the arguments of the codec profile, and
/// the output.
pub open spec fn job_arguments(job: JobView) -> Seq<Seq<char>> {
    seq![
        "-i"@,
        job.input,
        "-ss"@,
        canonical_text(job.start),
        "-to"@,
        canonical_text(job.end),
        "-threads"@,
        "1"@,
    ] + profile_args(job.profile) + seq![job.output]
}

impl Job {
    /// The arguments that the encoder is started with for this job.
    pub fn arguments(&self) -> (args: Vec<String>)
        ensures
            arg_views(args@) == job_arguments(self@),
    {
        let mut args: Vec<String> = Vec::new();
        args.push("-i".to_owned());
        args.push(self.input.clone());
        args.push("-ss".to_owned());
        args.push(self.start.format());
        args.push("-to".to_owned());
        args.push(self.end.format());
        args.push("-threads".to_owned());
        args.push("1".to_owned());
        let ghost fixed = args@;
        let mut codec = match self.profile {
            CodecProfile::Remux => ffmpeg_args_remux(),
            CodecProfile::Transcode => ffmpeg_args_transcode(),
        };
        let ghost chosen = codec@;
        args.append(&mut codec);
        args.push(self.output.clone());
        assert(args@ =~= (fixed + chosen).push(args@.last()));
        assert(arg_views(args@) =~= arg_views(fixed) + arg_views(chosen) + seq![self.output@]);
        assert(arg_views(fixed) =~= seq![
            "-i"@,
            self.input@,
            "-ss"@,
            canonical_text(self.start@),
            "-to"@,
            canonical_text(self.end@),
            "-threads"@,
            "1"@,
        ]);
        args
    }
}

/// Where one job stands.
#[derive(Debug)]
pub enum JobState {
    /// Nothing was done yet.
    Pending,
    /// The output was there already; the encoder is not started.
    Skipped,
    /// The output was not there; the encoder is to run, or runs.
    Dispatched,
    /// The encoder ran and reported success.
    Succeeded,
    /// The job gave no output, for this reason.
    Failed(EncodeError),
}

/// What a `JobState` holds, as plain values.
pub enum JobStateView {
    Pending,
    Skipped,
    Dispatched,
    Succeeded,
    Failed(EncodeErrorView),
}

impl View for JobState {
    type V = JobStateView;

    open spec fn view(&self) -> JobStateView {
        match self {
            JobState::Pending => JobStateView::Pending,
            JobState::Skipped => JobStateView::Skipped,
            JobState::Dispatched => JobStateView::Dispatched,
            JobState::Succeeded => JobStateView::Succeeded,
            JobState::Failed(e) => JobStateView::Failed(e@),
        }
    }
}

/// What was seen of one job.
#[derive(Debug)]
pub enum JobEvent {
    /// The output file was looked for and is there.
    OutputExists,
    /// The output file was looked for and is not there.
    OutputAbsent,
    /// The encoder ran to its end; `success` says whether it reported
    /// success, and `stderr` is what it wrote to its error stream.
    Exited { success: bool, stderr: String },
    /// The encoder could not be started, for the reason given.
    SpawnFailed(String),
}

/// What a `JobEvent` holds, as plain values.
pub enum JobEventView {
    OutputExists,
    OutputAbsent,
    Exited { success: bool, stderr: Seq<char> },
    SpawnFailed(Seq<char>),
}

impl View for JobEvent {
    type V = JobEventView;

    open spec fn view(&self) -> JobEventView {
        match self {
            JobEvent::OutputExists => JobEventView::OutputExists,
            JobEvent::OutputAbsent => JobEventView::OutputAbsent,
            JobEvent::Exited { success, stderr } => JobEventView::Exited {
                success: *success,
                stderr: stderr@,
            },
            JobEvent::SpawnFailed(reason) => JobEventView::SpawnFailed(reason@),
        }
    }
}

/// The state in which a planned job starts: pending where there is a job,
/// failed where the planning gave a reason instead.
pub open spec fn initial_state(planned: Result<JobView, EncodeErrorView>) -> JobStateView {
    match planned {
        Ok(_) => JobStateView::Pending,
        Err(e) => JobStateView::Failed(e),
    }
}

/// The state that follows `state` on `event`. A pending job is skipped where
/// its output exists and dispatched where it does not; a dispatched job
/// succeeds or fails with the encoder. Every other pair leaves the state as it
/// is: the states skipped, succeeded and failed are final.
pub open spec fn step_spec(state: JobStateView, event: JobEventView) -> JobStateView {
    match (state, event) {
        (JobStateView::Pending, JobEventView::OutputExists) => JobStateView::Skipped,
        (JobStateView::Pending, JobEventView::OutputAbsent) => JobStateView::Dispatched,
        (JobStateView::Dispatched, JobEventView::Exited { success, stderr }) => {
            if success {
                JobStateView::Succeeded
            } else {
                JobStateView::Failed(EncodeErrorView::ExitFailure(stderr))
            }
        },
        (JobStateView::Dispatched, JobEventView::SpawnFailed(reason)) => JobStateView::Failed(
            EncodeErrorView::SpawnFailure(reason),
        ),
        (state, _) => state,
    }
}

impl JobState {
    /// The state in which the planned job starts.
    pub fn initial(planned: &Result<Job, EncodeError>) -> (state: JobState)
        ensures
            state@ == initial_state(planned_view(*planned)),
    {
        match planned {
            Ok(_) => JobState::Pending,
            Err(e) => JobState::Failed(e.clone()),
        }
    }

    /// The state that follows this one on `event`.
    pub fn step(self, event: JobEvent) -> (next: JobState)
        ensures
            next@ == step_spec(self@, event@),
    {
        match self {
            JobState::Pending => match event {
                JobEvent::OutputExists => JobState::Skipped,
                JobEvent::OutputAbsent => JobState::Dispatched,
                _ => JobState::Pending,
            },
            JobState::Dispatched => match event {
                JobEvent::Exited { success, stderr } => {
                    if success {
                        JobState::Succeeded
                    } else {
                        JobState::Failed(EncodeError::ExitFailure(stderr))
                    }
                },
                JobEvent::SpawnFailed(reason) => JobState::Failed(
                    EncodeError::SpawnFailure(reason),
                ),
                _ => JobState::Dispatched,
            },
            other => other,
        }
    }
}

/// A job that gave no output, and why.
#[derive(Debug)]
pub struct JobFailure {
    /// The position of the job in the plan.
    pub job: usize,
    /// Why it gave no output.
    pub error: EncodeError,
}

/// What became of the jobs of one run.
#[derive(Debug)]
pub struct BatchReport {
    /// How many jobs the encoder completed.
    pub succeeded: usize,
    /// How many jobs were skipped because their output was there already.
    pub skipped: usize,
    /// How many jobs were still pending or dispatched when they were counted.
    pub unfinished: usize,
    /// The jobs that failed, in the order of the plan.
    pub failed: Vec<JobFailure>,
}

/// What a `BatchReport` holds, as plain values.
pub struct BatchReportView {
    pub succeeded: nat,
    pub skipped: nat,
    pub unfinished: nat,
    pub failed: Seq<(nat, EncodeErrorView)>,
}

impl View for BatchReport {
    type V = BatchReportView;

    open spec fn view(&self) -> BatchReportView {
        BatchReportView {
            succeeded: self.succeeded as nat,
            skipped: self.skipped as nat,
            unfinished: self.unfinished as nat,
            failed: self.failed@.map_values(|f: JobFailure| (f.job as nat, f.error@)),
        }
    }
}

/// The views of `states`, in order.
pub open spec fn state_views(states: Seq<JobState>) -> Seq<JobStateView> {
    states.map_values(|s: JobState| s@)
}

/// `report` with the job at position `job` counted by its `state`.
pub open spec fn record_spec(report: BatchReportView, job: nat, state: JobStateView)
    -> BatchReportView {
    match state {
        JobStateView::Succeeded => BatchReportView {
            succeeded: report.succeeded + 1,
            ..report
        },
        JobStateView::Skipped => BatchReportView { skipped: report.skipped + 1, ..report },
        JobStateView::Failed(e) => BatchReportView {
            failed: report.failed.push((job, e)),
            ..report
        },
        _ => BatchReportView { unfinished: report.unfinished + 1, ..report },
    }
}

/// The report on jobs that ended in `states`: each job is counted once, by
/// its own state, at its position in the plan.
pub open spec fn report_of(states: Seq<JobStateView>) -> BatchReportView
    decreases states.len(),
{
    if states.len() == 0 {
        BatchReportView { succeeded: 0, skipped: 0, unfinished: 0, failed: Seq::empty() }
    } else {
        record_spec(report_of(states.drop_last()), (states.len() - 1) as nat, states.last())
    }
}

impl BatchReport {
    /// The report on jobs that ended in `outcomes`, given in the order of the
    /// plan.
    pub fn collect(outcomes: &Vec<JobState>) -> (report: BatchReport)
        ensures
            report@ == report_of(state_views(outcomes@)),
    {
        let mut report = BatchReport {
            succeeded: 0,
            skipped: 0,
            unfinished: 0,
            failed: Vec::new(),
        };
        let mut i: usize = 0;
        assert(report@.failed =~= Seq::empty());
        while i < outcomes.len()
            invariant
                i <= outcomes.len(),
                report@ == report_of(state_views(outcomes@).subrange(0, i as int)),
                report.succeeded + report.skipped + report.unfinished + report.failed.len() == i,
            decreases outcomes.len() - i,
        {
            let ghost before = report@;
            let ghost seen = state_views(outcomes@).subrange(0, i as int);
            let ghost next = state_views(outcomes@).subrange(0, i + 1);
            assert(next.drop_last() =~= seen);
            assert(next.last() == outcomes[i as int]@);
            match &outcomes[i] {
                JobState::Succeeded => {
                    report.succeeded = report.succeeded + 1;
                },
                JobState::Skipped => {
                    report.skipped = report.skipped + 1;
                },
                JobState::Failed(e) => {
                    report.failed.push(JobFailure { job: i, error: e.clone() });
                    assert(report@.failed =~= before.failed.push((i as nat, e@)));
                },
                _ => {
                    report.unfinished = report.unfinished + 1;
                },
            }
            assert(report@.failed =~= record_spec(before, i as nat, outcomes[i as int]@).failed);
            i = i + 1;
        }
        assert(state_views(outcomes@).subrange(0, i as int) =~= state_views(outcomes@));
        report
    }
}

/// The report counts each job by its own state alone: where the state of one
/// job is replaced, the counts change by what that job gave to them, and by
/// nothing else.
pub proof fn lemma_report_counts_each_job(states: Seq<JobStateView>, i: int, other: JobStateView)
    requires
        0 <= i < states.len(),
    ensures
        report_of(states.update(i, other)).succeeded + (if states[i] is Succeeded {
            1nat
        } else {
            0nat
        }) == report_of(states).succeeded + (if other is Succeeded {
            1nat
        } else {
            0nat
        }),
        report_of(states.update(i, other)).skipped + (if states[i] is Skipped {
            1nat
        } else {
            0nat
        }) == report_of(states).skipped + (if other is Skipped {
            1nat
        } else {
            0nat
        }),
    decreases states.len(),
{
    let changed = states.update(i, other);
    if i == states.len() - 1 {
        assert(changed.drop_last() =~= states.drop_last());
    } else {
        lemma_report_counts_each_job(states.drop_last(), i, other);
        assert(changed.drop_last() =~= states.drop_last().update(i, other));
    }
}

/// The report lists the failed jobs and no others: a job stands in the list
/// with a reason if and only if it failed for that reason.
pub proof fn lemma_report_lists_failures(states: Seq<JobStateView>, job: nat, e: EncodeErrorView)
    ensures
        report_of(states).failed.contains((job, e)) <==> job < states.len() && states[job as int]
            == JobStateView::Failed(e),
    decreases states.len(),
{
    if states.len() > 0 {
        let head = states.drop_last();
        let last = (states.len() - 1) as nat;
        lemma_report_lists_failures(head, job, e);
        let before = report_of(head).failed;
        let after = report_of(states).failed;
        match states.last() {
            JobStateView::Failed(reason) => {
                assert(after == before.push((last, reason)));
                if before.contains((job, e)) {
                    let k = choose|k: int| 0 <= k < before.len() && before[k] == (job, e);
                    assert(after[k] == (job, e));
                }
                if job == last && reason == e {
                    assert(after[after.len() - 1] == (job, e));
                }
                if after.contains((job, e)) {
                    let k = choose|k: int| 0 <= k < after.len() && after[k] == (job, e);
                    if k < before.len() {
                        assert(before[k] == (job, e));
                    }
                }
            },
            _ => {
                assert(after == before);
            },
        }
        if job < head.len() {
            assert(head[job as int] == states[job as int]);
        }
    } else {
        assert(!report_of(states).failed.contains((job, e)));
    }
}

} // verus!
