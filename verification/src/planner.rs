//! Synchronising one artifact: what to do next, given what was found.
//!
//! The caller does the work (reading the sidecar, hashing, fetching,
//! writing) and reports each result as an [`Event`]; [`ArtifactSync::step`]
//! answers with the next [`Action`]. The checksum that upstream declares is
//! compared first with the sidecar, and only where there is no sidecar with
//! the digest of the local file. A fetch is followed by a check of what was
//! fetched. The sidecar is written after every fetch and where it was
//! missing.

use vstd::prelude::*;
use crate::error::SyncError;

verus! {

/// Where the synchronisation of an artifact stands.
#[derive(Clone, Copy, Debug, PartialEq, Eq, Structural)]
pub enum State {
    /// The sidecar is being read.
    ReadingSidecar,
    /// There is no sidecar; the local file is being hashed.
    HashingFile,
    /// The artifact is being fetched.
    Fetching,
    /// The sidecar is being written.
    WritingSidecar,
    /// The artifact is in place, with its sidecar.
    Finished,
    /// The synchronisation has failed.
    Failed(SyncError),
}

/// What the caller found.
pub enum Event {
    /// What the sidecar holds; `None` where there is no sidecar.
    Sidecar(Option<String>),
    /// The digest of the local file; `None` where there is no file.
    FileHash(Option<String>),
    /// The fetch ended; the digest of the local file as it is now, `None`
    /// where there is no file.
    Fetched(Option<String>),
    /// The fetch failed.
    FetchFailed,
    /// The sidecar has been written.
    SidecarWritten,
}

/// What the caller is to do next.
pub enum Action {
    ReadSidecar,
    HashFile,
    Fetch,
    /// Write the sidecar with this content.
    WriteSidecar(String),
    /// Nothing is left to do.
    Done,
    /// Give up with this error.
    Abort(SyncError),
}

/// The mathematical value of an [`Event`].
pub enum EventView {
    Sidecar(Option<Seq<char>>),
    FileHash(Option<Seq<char>>),
    Fetched(Option<Seq<char>>),
    FetchFailed,
    SidecarWritten,
}

/// The mathematical value of an [`Action`].
pub enum ActionView {
    ReadSidecar,
    HashFile,
    Fetch,
    WriteSidecar(Seq<char>),
    Done,
    Abort(SyncError),
}

/// The view of an optional string.
pub open spec fn text_of(s: Option<String>) -> Option<Seq<char>> {
    match s {
        Some(t) => Some(t@),
        None => None,
    }
}

impl View for Event {
    type V = EventView;

    open spec fn view(&self) -> EventView {
        match self {
            Event::Sidecar(s) => EventView::Sidecar(text_of(*s)),
            Event::FileHash(s) => EventView::FileHash(text_of(*s)),
            Event::Fetched(s) => EventView::Fetched(text_of(*s)),
            Event::FetchFailed => EventView::FetchFailed,
            Event::SidecarWritten => EventView::SidecarWritten,
        }
    }
}

impl View for Action {
    type V = ActionView;

    open spec fn view(&self) -> ActionView {
        match self {
            Action::ReadSidecar => ActionView::ReadSidecar,
            Action::HashFile => ActionView::HashFile,
            Action::Fetch => ActionView::Fetch,
            Action::WriteSidecar(s) => ActionView::WriteSidecar(s@),
            Action::Done => ActionView::Done,
            Action::Abort(e) => ActionView::Abort(*e),
        }
    }
}

/// What is to be done in `state`, for an artifact whose declared checksum
/// is `upstream`.
pub open spec fn pending(upstream: Seq<char>, state: State) -> ActionView {
    match state {
        State::ReadingSidecar => ActionView::ReadSidecar,
        State::HashingFile => ActionView::HashFile,
        State::Fetching => ActionView::Fetch,
        State::WritingSidecar => ActionView::WriteSidecar(upstream),
        State::Finished => ActionView::Done,
        State::Failed(e) => ActionView::Abort(e),
    }
}

/// The state that follows `state` on `event`. An event that does not
/// answer what was asked for in `state` changes nothing.
pub open spec fn next_state(upstream: Seq<char>, state: State, event: EventView) -> State {
    match (state, event) {
        (State::ReadingSidecar, EventView::Sidecar(Some(cached))) => if cached == upstream {
            State::Finished
        } else {
            State::Fetching
        },
        (State::ReadingSidecar, EventView::Sidecar(None)) => State::HashingFile,
        (State::HashingFile, EventView::FileHash(Some(local))) => if local == upstream {
            State::WritingSidecar
        } else {
            State::Fetching
        },
        (State::HashingFile, EventView::FileHash(None)) => State::Fetching,
        (State::Fetching, EventView::Fetched(Some(fresh))) => if fresh == upstream {
            State::WritingSidecar
        } else {
            State::Failed(SyncError::Integrity)
        },
        (State::Fetching, EventView::Fetched(None)) => State::Failed(SyncError::Integrity),
        (State::Fetching, EventView::FetchFailed) => State::Failed(SyncError::Transfer),
        (State::WritingSidecar, EventView::SidecarWritten) => State::Finished,
        _ => state,
    }
}

/// The synchronisation of one artifact.
pub struct ArtifactSync {
    upstream: String,
    state: State,
}

impl ArtifactSync {
    /// The checksum that upstream declares for the artifact.
    pub closed spec fn upstream(&self) -> Seq<char> {
        self.upstream@
    }

    /// Where the synchronisation stands.
    pub closed spec fn state(&self) -> State {
        self.state
    }

    /// Starts the synchronisation of an artifact whose declared checksum is
    /// `upstream`. The first thing to do is to read the sidecar.
    pub fn begin(upstream: &str) -> (r: ArtifactSync)
        ensures
            r.upstream() == upstream@,
            r.state() == State::ReadingSidecar,
    {
        ArtifactSync { upstream: upstream.to_owned(), state: State::ReadingSidecar }
    }

    /// Where the synchronisation stands.
    pub fn current(&self) -> (s: State)
        ensures
            s == self.state(),
    {
        self.state
    }

    /// What is to be done now.
    pub fn action(&self) -> (a: Action)
        ensures
            a@ == pending(self.upstream(), self.state()),
    {
        match self.state {
            State::ReadingSidecar => Action::ReadSidecar,
            State::HashingFile => Action::HashFile,
            State::Fetching => Action::Fetch,
            State::WritingSidecar => Action::WriteSidecar(self.upstream.clone()),
            State::Finished => Action::Done,
            State::Failed(e) => Action::Abort(e),
        }
    }

    /// Takes note of `event` and says what is to be done next.
    pub fn step(&mut self, event: &Event) -> (a: Action)
        ensures
            final(self).upstream() == old(self).upstream(),
            final(self).state() == next_state(old(self).upstream(), old(self).state(), event@),
            a@ == pending(final(self).upstream(), final(self).state()),
    {
        let next = match (self.state, event) {
            (State::ReadingSidecar, Event::Sidecar(Some(cached))) => if *cached == self.upstream {
                State::Finished
            } else {
                State::Fetching
            },
            (State::ReadingSidecar, Event::Sidecar(None)) => State::HashingFile,
            (State::HashingFile, Event::FileHash(Some(local))) => if *local == self.upstream {
                State::WritingSidecar
            } else {
                State::Fetching
            },
            (State::HashingFile, Event::FileHash(None)) => State::Fetching,
            (State::Fetching, Event::Fetched(Some(fresh))) => if *fresh == self.upstream {
                State::WritingSidecar
            } else {
                State::Failed(SyncError::Integrity)
            },
            (State::Fetching, Event::Fetched(None)) => State::Failed(SyncError::Integrity),
            (State::Fetching, Event::FetchFailed) => State::Failed(SyncError::Transfer),
            (State::WritingSidecar, Event::SidecarWritten) => State::Finished,
            (s, _) => s,
        };
        self.state = next;
        self.action()
    }
}

/// What an artifact's synchronisation finds around it.
pub struct World {
    /// What the sidecar holds, if there is one.
    pub sidecar: Option<Seq<char>>,
    /// The digest of the local file, if there is one.
    pub file: Option<Seq<char>>,
    /// The digest of what a fetch would put in the file's place; `None`
    /// where the fetch would fail.
    pub served: Option<Seq<char>>,
}

/// How a synchronisation went.
pub struct Run {
    /// Whether the artifact was fetched.
    pub fetched: bool,
    /// Whether the sidecar was written.
    pub sidecar_written: bool,
    /// The state in which it ended.
    pub end: State,
    /// What is there afterwards.
    pub after: World,
}

/// What the caller reports in `state`, in the world `w`.
pub open spec fn report(state: State, w: World) -> EventView {
    match state {
        State::ReadingSidecar => EventView::Sidecar(w.sidecar),
        State::HashingFile => EventView::FileHash(w.file),
        State::Fetching => match w.served {
            Some(h) => EventView::Fetched(Some(h)),
            None => EventView::FetchFailed,
        },
        _ => EventView::SidecarWritten,
    }
}

/// The world after the caller has done what `state` asks for.
pub open spec fn effect(upstream: Seq<char>, state: State, w: World) -> World {
    match state {
        State::Fetching => match w.served {
            Some(h) => World { file: Some(h), ..w },
            None => w,
        },
        State::WritingSidecar => World { sidecar: Some(upstream), ..w },
        _ => w,
    }
}

/// The synchronisation of an artifact from `state` on, in the world `w`,
/// for at most `fuel` steps: the caller does what is asked, reports it, and
/// goes on until nothing is left to do.
pub open spec fn run_from(upstream: Seq<char>, state: State, w: World, fuel: nat) -> Run
    decreases fuel,
{
    if fuel == 0 || state is Finished || state is Failed {
        Run { fetched: false, sidecar_written: false, end: state, after: w }
    } else {
        let rest = run_from(
            upstream,
            next_state(upstream, state, report(state, w)),
            effect(upstream, state, w),
            (fuel - 1) as nat,
        );
        Run {
            fetched: rest.fetched || (state is Fetching && w.served is Some),
            sidecar_written: rest.sidecar_written || state is WritingSidecar,
            end: rest.end,
            after: rest.after,
        }
    }
}

/// The whole synchronisation of an artifact in the world `w`. Four steps
/// are the most that it takes.
pub open spec fn run(upstream: Seq<char>, w: World) -> Run {
    run_from(upstream, State::ReadingSidecar, w, 4)
}

/// Every synchronisation ends, finished or failed, within four steps.
pub proof fn lemma_run_ends(upstream: Seq<char>, w: World)
    ensures
        run(upstream, w).end is Finished || run(upstream, w).end is Failed,
{
    reveal_with_fuel(run_from, 5);
}

/// An artifact that is up to date is left alone: where the local file has
/// the declared checksum and the sidecar, if there is one, says so, nothing
/// is fetched and a sidecar that is there is not written again.
pub proof fn lemma_up_to_date_is_left_alone(upstream: Seq<char>, w: World)
    requires
        w.file == Some(upstream),
        w.sidecar is Some ==> w.sidecar == Some(upstream),
    ensures
        !run(upstream, w).fetched,
        run(upstream, w).end is Finished,
        w.sidecar is Some ==> !run(upstream, w).sidecar_written && run(upstream, w).after == w,
        run(upstream, w).after.file == w.file,
        run(upstream, w).after.sidecar == Some(upstream),
{
    reveal_with_fuel(run_from, 5);
}

/// What was fetched is checked: a synchronisation that fetched and finished
/// leaves a file with the declared checksum, and one that fetched anything
/// else has failed with `Integrity`.
pub proof fn lemma_fetch_is_verified(upstream: Seq<char>, w: World)
    requires
        run(upstream, w).fetched,
    ensures
        w.served == Some(upstream) ==> run(upstream, w).end is Finished && run(
            upstream,
            w,
        ).after.file == Some(upstream),
        w.served != Some(upstream) ==> run(upstream, w).end == State::Failed(SyncError::Integrity),
{
    reveal_with_fuel(run_from, 5);
}

/// A fetch that fails makes the synchronisation fail with `Transfer`.
pub proof fn lemma_failed_fetch_is_fatal(upstream: Seq<char>, w: World)
    requires
        w.served is None,
        !(w.sidecar == Some(upstream)),
        w.sidecar is None ==> w.file != Some(upstream),
    ensures
        run(upstream, w).end == State::Failed(SyncError::Transfer),
{
    reveal_with_fuel(run_from, 5);
}

/// Running again changes nothing: after a synchronisation that finished, a
/// second one fetches nothing, writes nothing, and finishes.
pub proof fn lemma_second_run_is_idle(upstream: Seq<char>, w: World)
    requires
        run(upstream, w).end is Finished,
    ensures
        !run(upstream, run(upstream, w).after).fetched,
        !run(upstream, run(upstream, w).after).sidecar_written,
        run(upstream, run(upstream, w).after).end is Finished,
        run(upstream, run(upstream, w).after).after == run(upstream, w).after,
{
    reveal_with_fuel(run_from, 5);
}

} // verus!
