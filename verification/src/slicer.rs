//! The registry of sessions and the plan of all extraction jobs.

use crate::data::{
    first_take_error, lemma_no_take_error, take_error, take_views, IntoSession, LoadError,
    Session, SessionView, Take, TakeView, Track, TrackView,
};
use crate::job::{
    initial_state, plan_take, plan_track, plan_views, slice_take, step_spec, EncodeError, EncodeErrorView, Job,
    JobEventView, JobStateView, JobView,
};
use crate::text::same_text;
use vstd::prelude::*;
use vstd::string::*;

verus! {

/// The sessions of a run with their takes, and the name of the encoder.
#[derive(Debug)]
pub struct Slicer {
    encoder: String,
    sessions: Vec<Session>,
    takes: Vec<Vec<Take>>,
}

/// What a `Slicer` holds, as plain values: the sessions in the order of
/// their registration, and at the same positions their takes.
pub struct SlicerView {
    pub encoder: Seq<char>,
    pub sessions: Seq<SessionView>,
    pub takes: Seq<Seq<TakeView>>,
}

/// The views of `sessions`, in order.
pub open spec fn session_views(sessions: Seq<Session>) -> Seq<SessionView> {
    sessions.map_values(|s: Session| s@)
}

/// The views of the lists of takes in `takes`, in order.
pub open spec fn take_list_views(takes: Seq<Vec<Take>>) -> Seq<Seq<TakeView>> {
    takes.map_values(|t: Vec<Take>| take_views(t@))
}

/// The first position at or after `from` where `sessions` holds a session
/// with the id `id`, or the length of `sessions` where it holds none.
pub open spec fn position_from(sessions: Seq<SessionView>, id: Seq<char>, from: int) -> int
    decreases sessions.len() - from,
{
    if from < 0 || from >= sessions.len() {
        sessions.len() as int
    } else if sessions[from].session_id == id {
        from
    } else {
        position_from(sessions, id, from + 1)
    }
}

/// The position of the session with the id `id`, or the number of sessions
/// where none has it.
pub open spec fn position(sessions: Seq<SessionView>, id: Seq<char>) -> int {
    position_from(sessions, id, 0)
}

/// Whether the registry is sound: each session has its list of takes, no two
/// sessions share an id, and every take names its session and ends after it
/// starts.
pub open spec fn registry_wf(v: SlicerView) -> bool {
    &&& v.sessions.len() == v.takes.len()
    &&& forall|i: int, j: int|
        0 <= i < j < v.sessions.len() ==> (#[trigger] v.sessions[i]).session_id != (
        #[trigger] v.sessions[j]).session_id
    &&& forall|i: int, k: int|
        0 <= i < v.takes.len() && 0 <= k < v.takes[i].len() ==> take_error(
            #[trigger] v.takes[i][k],
            v.sessions[i].session_id,
            k,
        ) is None
}

/// The registry after `session` was registered with `takes`: where a session
/// with the same id is there, the new one takes its place and its takes; else
/// it is added at the end.
pub open spec fn with_session(v: SlicerView, session: SessionView, takes: Seq<TakeView>)
    -> SlicerView {
    let at = position(v.sessions, session.session_id);
    if at < v.sessions.len() {
        SlicerView {
            encoder: v.encoder,
            sessions: v.sessions.update(at, session),
            takes: v.takes.update(at, takes),
        }
    } else {
        SlicerView {
            encoder: v.encoder,
            sessions: v.sessions.push(session),
            takes: v.takes.push(takes),
        }
    }
}

/// The registry after `track` was attached to the session with the id `id`;
/// the registry itself where no session has that id.
pub open spec fn with_track(v: SlicerView, id: Seq<char>, track: TrackView) -> SlicerView {
    let at = position(v.sessions, id);
    if at < v.sessions.len() {
        SlicerView {
            encoder: v.encoder,
            sessions: v.sessions.update(
                at,
                SessionView {
                    session_id: v.sessions[at].session_id,
                    tracks: v.sessions[at].tracks.push(track),
                },
            ),
            takes: v.takes,
        }
    } else {
        v
    }
}

/// The jobs of the first `count` takes of a session, take by take.
pub open spec fn plan_takes(session: SessionView, takes: Seq<TakeView>, dir: Seq<char>, count: nat)
    -> Seq<Result<JobView, EncodeErrorView>>
    decreases count,
{
    if count == 0 {
        Seq::empty()
    } else {
        plan_takes(session, takes, dir, (count - 1) as nat) + plan_take(
            session,
            takes[count - 1],
            (count - 1) as nat,
            dir,
        )
    }
}

/// The jobs of the first `count` sessions of the registry, session by session.
pub open spec fn plan_sessions(v: SlicerView, dir: Seq<char>, count: nat) -> Seq<
    Result<JobView, EncodeErrorView>,
>
    decreases count,
{
    if count == 0 {
        Seq::empty()
    } else {
        plan_sessions(v, dir, (count - 1) as nat) + plan_takes(
            v.sessions[count - 1],
            v.takes[count - 1],
            dir,
            v.takes[count - 1].len(),
        )
    }
}

/// The plan of a run that writes into the directory `dir`: for every session
/// in the order of registration, for every take of it in order, one job for
/// each of the session's tracks in order. A take is numbered by its position
/// among the takes of its session.
pub open spec fn plan(v: SlicerView, dir: Seq<char>) -> Seq<Result<JobView, EncodeErrorView>> {
    plan_sessions(v, dir, v.sessions.len())
}

/// `position_from` stops at the first session with the id and not before.
pub proof fn lemma_position_bounds(sessions: Seq<SessionView>, id: Seq<char>, from: int)
    requires
        0 <= from <= sessions.len(),
    ensures
        from <= position_from(sessions, id, from) <= sessions.len(),
        position_from(sessions, id, from) < sessions.len() ==> sessions[position_from(
            sessions,
            id,
            from,
        )].session_id == id,
        forall|i: int|
            from <= i < position_from(sessions, id, from) ==> (#[trigger] sessions[i]).session_id
                != id,
    decreases sessions.len() - from,
{
    if from < sessions.len() && sessions[from].session_id != id {
        lemma_position_bounds(sessions, id, from + 1);
    }
}

/// The session was refused where no session has the given id.
#[derive(Debug, Clone, Copy, PartialEq, Eq, Structural)]
pub struct UnknownSession;

impl View for Slicer {
    type V = SlicerView;

    closed spec fn view(&self) -> SlicerView {
        SlicerView {
            encoder: self.encoder@,
            sessions: session_views(self.sessions@),
            takes: take_list_views(self.takes@),
        }
    }
}

impl Slicer {
    /// Whether the registry is sound.
    pub open spec fn wf(&self) -> bool {
        registry_wf(self@)
    }

    /// An empty registry whose encoder is called `ffmpeg`.
    pub fn new() -> (slicer: Slicer)
        ensures
            slicer.wf(),
            slicer@.encoder == "ffmpeg"@,
            slicer@.sessions.len() == 0,
    {
        Slicer::with_ffmpeg("ffmpeg")
    }

    /// An empty registry whose encoder is the program at `path`.
    pub fn with_ffmpeg(path: &str) -> (slicer: Slicer)
        ensures
            slicer.wf(),
            slicer@.encoder == path@,
            slicer@.sessions.len() == 0,
    {
        Slicer { encoder: path.to_owned(), sessions: Vec::new(), takes: Vec::new() }
    }

    /// The name of the encoder.
    pub fn encoder(&self) -> (name: &str)
        ensures
            name@ == self@.encoder,
    {
        self.encoder.as_str()
    }

    /// The sessions in the order of their registration.
    pub fn sessions(&self) -> (sessions: &Vec<Session>)
        ensures
            session_views(sessions@) == self@.sessions,
    {
        &self.sessions
    }

    /// The lists of takes, each at the position of its session.
    pub fn takes(&self) -> (takes: &Vec<Vec<Take>>)
        ensures
            take_list_views(takes@) == self@.takes,
    {
        &self.takes
    }

    /// The position of the session with the id `session_id`.
    pub fn find_session(&self, session_id: &str) -> (found: Option<usize>)
        ensures
            match found {
                Some(at) => at < self@.sessions.len() && position(self@.sessions, session_id@)
                    == at,
                None => position(self@.sessions, session_id@) == self@.sessions.len(),
            },
    {
        let mut at: usize = 0;
        while at < self.sessions.len()
            invariant
                at <= self.sessions.len(),
                position(self@.sessions, session_id@) == position_from(
                    self@.sessions,
                    session_id@,
                    at as int,
                ),
            decreases self.sessions.len() - at,
        {
            if same_text(self.sessions[at].session_id.as_str(), session_id) {
                return Some(at);
            }
            at = at + 1;
        }
        None
    }

    /// Registers `session` with `takes` under the session's id. A session that
    /// was registered under the same id before is replaced, with its takes.
    /// Where a take names another session or does not end after it starts,
    /// nothing is registered and the first such take is reported.
    pub fn register(&mut self, session: Session, takes: Vec<Take>) -> (result: Result<
        (),
        LoadError,
    >)
        requires
            old(self).wf(),
        ensures
            final(self).wf(),
            match result {
                Ok(()) => first_take_error(take_views(takes@), session@.session_id, 0) is None
                    && final(self)@ == with_session(old(self)@, session@, take_views(takes@)),
                Err(e) => first_take_error(take_views(takes@), session@.session_id, 0) == Some(e)
                    && final(self)@ == old(self)@,
            },
    {
        let ghost new_takes = take_views(takes@);
        let ghost new_session = session@;
        let ghost id = new_session.session_id;
        let mut row: usize = 0;
        while row < takes.len()
            invariant
                self@ == old(self)@,
                self.wf(),
                row <= takes.len(),
                take_views(takes@) == new_takes,
                session@ == new_session,
                id == new_session.session_id,
                first_take_error(new_takes, id, 0) == first_take_error(new_takes, id, row as int),
            decreases takes.len() - row,
        {
            let take = &takes[row];
            assert(new_takes[row as int] == take@);
            if !same_text(take.session_id.as_str(), session.session_id.as_str()) {
                return Err(LoadError::ForeignTake(row));
            }
            if take.end.as_millis() <= take.start.as_millis() {
                return Err(LoadError::EmptyTake(row));
            }
            row = row + 1;
        }
        proof {
            lemma_no_take_error(new_takes, id, 0);
            lemma_position_bounds(self@.sessions, id, 0);
        }
        match self.find_session(session.session_id.as_str()) {
            Some(at) => {
                self.sessions[at] = session;
                self.takes[at] = takes;
                assert(self@.sessions =~= old(self)@.sessions.update(at as int, new_session));
                assert(self@.takes =~= old(self)@.takes.update(at as int, new_takes));
            },
            None => {
                self.sessions.push(session);
                self.takes.push(takes);
                assert(self@.sessions =~= old(self)@.sessions.push(new_session));
                assert(self@.takes =~= old(self)@.takes.push(new_takes));
            },
        }
        Ok(())
    }

    /// Asks `source` for its takes and then for its session, and registers
    /// them as `register` does: the outcome is that of `register` on a
    /// session and on takes that the two methods of the source hand out, by
    /// the contracts that the source gives them.
    pub fn register_session<S: IntoSession>(&mut self, source: S) -> (result: Result<
        (),
        LoadError,
    >)
        requires
            old(self).wf(),
        ensures
            final(self).wf(),
            exists|session: Session, takes: Vec<Take>|
                {
                    &&& #[trigger] call_ensures(S::takes, (&source,), takes)
                    &&& #[trigger] call_ensures(S::into_session, (source,), session)
                    &&& registration(
                        old(self)@,
                        session@,
                        take_views(takes@),
                        result,
                        final(self)@,
                    )
                },
    {
        let takes = source.takes();
        let session = source.into_session();
        self.register(session, takes)
    }

    /// Attaches `track` as the last track of the session with the id
    /// `session_id`. Where no session has that id, nothing changes.
    pub fn add_track(&mut self, session_id: &str, track: Track) -> (result: Result<
        (),
        UnknownSession,
    >)
        requires
            old(self).wf(),
        ensures
            final(self).wf(),
            final(self)@ == with_track(old(self)@, session_id@, track@),
            result is Ok <==> position(old(self)@.sessions, session_id@) < old(self)@.sessions.len(),
    {
        proof {
            lemma_position_bounds(self@.sessions, session_id@, 0);
        }
        match self.find_session(session_id) {
            Some(at) => {
                self.sessions[at].tracks.push(track);
                assert(self@.sessions =~= with_track(
                    old(self)@,
                    session_id@,
                    track@,
                ).sessions) by {
                    assert(self.sessions[at as int]@.tracks =~= old(self)@.sessions[at as int].tracks.push(track@));
                }
                assert(self@.takes =~= old(self)@.takes);
                Ok(())
            },
            None => Err(UnknownSession),
        }
    }

    /// Plans every job of the run that writes into `output_dir`: one for each
    /// take and each track of the take's session.
    pub fn perform_slicing(&self, output_dir: &str) -> (jobs: Vec<Result<Job, EncodeError>>)
        requires
            self.wf(),
        ensures
            plan_views(jobs@) == plan(self@, output_dir@),
    {
        let mut jobs: Vec<Result<Job, EncodeError>> = Vec::new();
        let mut at: usize = 0;
        assert(plan_views(jobs@) =~= plan_sessions(self@, output_dir@, 0));
        while at < self.sessions.len()
            invariant
                self.wf(),
                at <= self.sessions.len(),
                plan_views(jobs@) == plan_sessions(self@, output_dir@, at as nat),
            decreases self.sessions.len() - at,
        {
            let session = &self.sessions[at];
            let takes = &self.takes[at];
            let ghost done = plan_views(jobs@);
            let mut index: usize = 0;
            assert(plan_views(jobs@) =~= done + plan_takes(
                session@,
                take_views(takes@),
                output_dir@,
                0,
            ));
            while index < takes.len()
                invariant
                    index <= takes.len(),
                    plan_views(jobs@) == done + plan_takes(
                        session@,
                        take_views(takes@),
                        output_dir@,
                        index as nat,
                    ),
                decreases takes.len() - index,
            {
                let ghost before = jobs@;
                let mut more = slice_take(session, index, &takes[index], output_dir);
                let ghost added = more@;
                jobs.append(&mut more);
                assert(plan_views(jobs@) =~= plan_views(before) + plan_views(added));
                assert(take_views(takes@)[index as int] == takes[index as int]@);
                index = index + 1;
            }
            assert(self@.sessions[at as int] == session@);
            assert(self@.takes[at as int] == take_views(takes@));
            at = at + 1;
        }
        jobs
    }
}

/// A position that holds the id, or the end, with no session of that id
/// between `from` and it, is what `position_from` gives.
pub proof fn lemma_position_at(sessions: Seq<SessionView>, id: Seq<char>, from: int, at: int)
    requires
        0 <= from <= at <= sessions.len(),
        forall|i: int| from <= i < at ==> (#[trigger] sessions[i]).session_id != id,
        at < sessions.len() ==> sessions[at].session_id == id,
    ensures
        position_from(sessions, id, from) == at,
    decreases at - from,
{
    if from < at {
        lemma_position_at(sessions, id, from + 1, at);
    }
}

/// Registering a session again under the same id replaces what was
/// registered first: the registry is as if only the second registration had
/// been made, and holds the id once.
pub proof fn lemma_register_twice(
    v: SlicerView,
    first: SessionView,
    first_takes: Seq<TakeView>,
    second: SessionView,
    second_takes: Seq<TakeView>,
)
    requires
        v.sessions.len() == v.takes.len(),
        first.session_id == second.session_id,
    ensures
        with_session(with_session(v, first, first_takes), second, second_takes) == with_session(
            v,
            second,
            second_takes,
        ),
        with_session(with_session(v, first, first_takes), second, second_takes).sessions.len()
            == with_session(v, first, first_takes).sessions.len(),
{
    let id = first.session_id;
    let at = position(v.sessions, id);
    let once = with_session(v, first, first_takes);
    lemma_position_bounds(v.sessions, id, 0);
    lemma_position_at(once.sessions, id, 0, at);
    let twice = with_session(once, second, second_takes);
    let only = with_session(v, second, second_takes);
    assert(twice.sessions =~= only.sessions);
    assert(twice.takes =~= only.takes);
}

/// What looking for the output of `job` among the files `existing` gives.
pub open spec fn probe(job: JobView, existing: Set<Seq<char>>) -> JobEventView {
    if existing.contains(job.output) {
        JobEventView::OutputExists
    } else {
        JobEventView::OutputAbsent
    }
}

/// The state of a planned job after its output was looked for among the
/// files `existing`.
pub open spec fn probed_state(planned: Result<JobView, EncodeErrorView>, existing: Set<Seq<char>>)
    -> JobStateView {
    match planned {
        Ok(job) => step_spec(initial_state(planned), probe(job, existing)),
        Err(_) => initial_state(planned),
    }
}

/// A run over an output directory that holds the output of every job of the
/// plan starts the encoder for none: each job is skipped, and stays skipped
/// whatever is reported of it afterwards.
pub proof fn lemma_rerun_dispatches_nothing(
    v: SlicerView,
    dir: Seq<char>,
    existing: Set<Seq<char>>,
    i: int,
    later: JobEventView,
)
    requires
        0 <= i < plan(v, dir).len(),
        forall|k: int|
            0 <= k < plan(v, dir).len() && (#[trigger] plan(v, dir)[k]) is Ok
                ==> existing.contains(plan(v, dir)[k]->Ok_0.output),
    ensures
        probed_state(plan(v, dir)[i], existing) != JobStateView::Dispatched,
        plan(v, dir)[i] is Ok ==> probed_state(plan(v, dir)[i], existing) == JobStateView::Skipped,
        step_spec(probed_state(plan(v, dir)[i], existing), later) == probed_state(
            plan(v, dir)[i],
            existing,
        ),
{
}

/// The plan of a session holds one job for each take and each track.
pub proof fn lemma_plan_takes_len(
    session: SessionView,
    takes: Seq<TakeView>,
    dir: Seq<char>,
    count: nat,
)
    ensures
        plan_takes(session, takes, dir, count).len() == count * session.tracks.len(),
    decreases count,
{
    let tracks = session.tracks.len();
    if count > 0 {
        lemma_plan_takes_len(session, takes, dir, (count - 1) as nat);
        assert((count - 1) * tracks + tracks == count * tracks) by (nonlinear_arith);
    } else {
        assert(0 * tracks == 0) by (nonlinear_arith);
    }
}

/// In the plan of a session the job of the take at position `take` and the
/// track at position `track` stands behind the jobs of the takes before it,
/// and is the job of that take and that track alone: no other take or track
/// has a part in it.
pub proof fn lemma_plan_takes_at(
    session: SessionView,
    takes: Seq<TakeView>,
    dir: Seq<char>,
    count: nat,
    take: int,
    track: int,
)
    requires
        0 <= take < count,
        0 <= track < session.tracks.len(),
    ensures
        0 <= take * session.tracks.len() + track < plan_takes(session, takes, dir, count).len(),
        plan_takes(session, takes, dir, count)[take * session.tracks.len() + track] == plan_track(
            takes[take],
            take as nat,
            session.tracks[track],
            track as nat,
            dir,
        ),
    decreases count,
{
    let tracks = session.tracks.len() as int;
    let before = plan_takes(session, takes, dir, (count - 1) as nat);
    lemma_plan_takes_len(session, takes, dir, (count - 1) as nat);
    lemma_plan_takes_len(session, takes, dir, count);
    assert(0 <= take * tracks) by (nonlinear_arith)
        requires
            0 <= take,
            0 <= tracks,
    ;
    if take < count - 1 {
        lemma_plan_takes_at(session, takes, dir, (count - 1) as nat, take, track);
    } else {
        assert(take * tracks + track - before.len() == track);
    }
}

/// Whether a planned job asks for a slice that ends after it starts; a
/// rejection asks for none.
pub open spec fn is_forward(planned: Result<JobView, EncodeErrorView>) -> bool {
    match planned {
        Ok(job) => job.start < job.end,
        Err(_) => true,
    }
}

/// The jobs of takes that end after they start ask for slices that end after
/// they start.
pub proof fn lemma_plan_takes_forward(
    session: SessionView,
    takes: Seq<TakeView>,
    dir: Seq<char>,
    count: nat,
    i: int,
)
    requires
        count <= takes.len(),
        forall|k: int| 0 <= k < takes.len() ==> (#[trigger] takes[k]).start < takes[k].end,
        0 <= i < plan_takes(session, takes, dir, count).len(),
    ensures
        is_forward(plan_takes(session, takes, dir, count)[i]),
    decreases count,
{
    if count > 0 {
        let before = plan_takes(session, takes, dir, (count - 1) as nat);
        if i < before.len() {
            lemma_plan_takes_forward(session, takes, dir, (count - 1) as nat, i);
        } else {
            assert(takes[count - 1].start < takes[count - 1].end);
        }
    }
}

/// Every job that a sound registry plans asks for a slice that ends after it
/// starts.
pub proof fn lemma_plan_is_forward(v: SlicerView, dir: Seq<char>, count: nat, i: int)
    requires
        registry_wf(v),
        count <= v.sessions.len(),
        0 <= i < plan_sessions(v, dir, count).len(),
    ensures
        is_forward(plan_sessions(v, dir, count)[i]),
    decreases count,
{
    if count > 0 {
        let before = plan_sessions(v, dir, (count - 1) as nat);
        if i < before.len() {
            lemma_plan_is_forward(v, dir, (count - 1) as nat, i);
        } else {
            let takes = v.takes[count - 1];
            assert forall|k: int| 0 <= k < takes.len() implies (#[trigger] takes[k]).start
                < takes[k].end by {
                assert(take_error(v.takes[count - 1][k], v.sessions[count - 1].session_id, k)
                    is None);
            }
            lemma_plan_takes_forward(
                v.sessions[count - 1],
                takes,
                dir,
                takes.len(),
                i - before.len(),
            );
        }
    }
}

/// Whether `result` and the registry `after` are what registering `session`
/// with `takes` in the registry `before` comes to: where no take has a
/// fault, success and the registry with the session in its place; else the
/// fault of the first take that has one, and the registry as it was.
pub open spec fn registration(
    before: SlicerView,
    session: SessionView,
    takes: Seq<TakeView>,
    result: Result<(), LoadError>,
    after: SlicerView,
) -> bool {
    match first_take_error(takes, session.session_id, 0) {
        None => result is Ok && after == with_session(before, session, takes),
        Some(e) => result == Err::<(), LoadError>(e) && after == before,
    }
}

} // verus!
