//! The watch side: what happens next, from the start of a watch to its end.
//!
//! A [`Reloader`] performs no I/O. At any moment [`Reloader::pending`] says what is to be done;
//! whoever drives it does that, and hands what came of it to [`Reloader::step`].

use crate::error::{Error, ErrorView};
use crate::fingerprint::{
    absorbed, found_view, started, Survey, SurveyStep, SurveyStepView, SurveyView,
};
use crate::mount::{
    data_entry_path, data_path, listed_keys, listing_view, snapshot_dir, successes,
    valid_names_kept, DataEntry, DataEntryView, Listing, ListingView, Mount,
};
use crate::path::FilePath;
use crate::watch::{
    after_drain, after_wait, debounce, drain_debounced, wait_for_change, Interval, Waited, Wake,
    Watch, DEBOUNCE_NANOS,
};
use std::sync::Arc;
use vstd::prelude::*;

verus! {

/// What a mount is resolved for.
#[derive(Debug, Clone, Copy, PartialEq, Eq, Structural)]
pub enum Purpose {
    /// To take its content hash.
    Survey,
    /// To parse it; the content hash that was taken before.
    Parse(u64),
}

/// What is to be done next.
pub enum Action {
    /// Create a filesystem watcher on this directory itself, not on what is below it.
    StartWatcher(FilePath),
    /// Look at what stands at this path.
    Probe(FilePath),
    /// List this directory.
    List(FilePath),
    /// Read this file.
    Read(FilePath),
    /// Parse this mount.
    Parse(Mount),
    /// Hand the current value to everyone who holds or awaits it.
    Publish,
    /// Wait for a trigger, no longer than this, or, with `None`, for as long as it takes.
    Wait(Option<Interval>),
    /// Nothing: the watch is over.
    Stop,
}

/// What [`Action`] says.
pub enum ActionView {
    StartWatcher(Seq<u8>),
    Probe(Seq<u8>),
    List(Seq<u8>),
    Read(Seq<u8>),
    Parse(Seq<u8>),
    Publish,
    Wait(Option<Interval>),
    Stop,
}

impl View for Action {
    type V = ActionView;

    open spec fn view(&self) -> ActionView {
        match *self {
            Action::StartWatcher(dir) => ActionView::StartWatcher(dir@),
            Action::Probe(path) => ActionView::Probe(path@),
            Action::List(dir) => ActionView::List(dir@),
            Action::Read(path) => ActionView::Read(path@),
            Action::Parse(mount) => ActionView::Parse(mount@),
            Action::Publish => ActionView::Publish,
            Action::Wait(timeout) => ActionView::Wait(timeout),
            Action::Stop => ActionView::Stop,
        }
    }
}

/// What came of an [`Action`].
pub enum Event<T, E> {
    /// The filesystem watcher was created and registered, or not.
    Watching(Result<(), E>),
    /// What stands at the path that was looked at.
    Probed(DataEntry),
    /// What listing the directory gave.
    Listed(Listing),
    /// What reading the file gave.
    Found(Result<Vec<u8>, std::io::Error>),
    /// What the parser made of the mount.
    Parsed(Result<T, E>),
    /// The current value was handed out.
    Published,
    /// How waiting ended.
    Woken(Wake),
}

/// What [`Event`] says.
pub enum EventView<T, E> {
    Watching(Result<(), E>),
    Probed(DataEntryView),
    Listed(ListingView),
    Found(Result<Seq<u8>, std::io::Error>),
    Parsed(Result<T, E>),
    Published,
    Woken(Wake),
}

impl<T, E> View for Event<T, E> {
    type V = EventView<T, E>;

    open spec fn view(&self) -> EventView<T, E> {
        match *self {
            Event::Watching(outcome) => EventView::Watching(outcome),
            Event::Probed(data) => EventView::Probed(data@),
            Event::Listed(listing) => EventView::Listed(listing_view(listing)),
            Event::Found(found) => EventView::Found(found_view(found)),
            Event::Parsed(outcome) => EventView::Parsed(outcome),
            Event::Published => EventView::Published,
            Event::Woken(wake) => EventView::Woken(wake),
        }
    }
}

/// What there is to tell about a step.
#[derive(Debug)]
pub enum Report<E> {
    /// Nothing.
    Nothing,
    /// The first parse succeeded: there is a value.
    Started,
    /// The content changed and was parsed: there is a new value.
    Reloaded,
    /// The mount could not be read; it is tried again on the next trigger.
    Unreadable(Error<E>),
    /// The changed content could not be parsed; the previous value is kept, and the same content
    /// is tried again on the next trigger.
    KeptPrevious(E),
    /// The watch could not be started.
    Failed(Error<E>),
}

/// What [`Report`] says.
pub enum ReportView<E> {
    Nothing,
    Started,
    Reloaded,
    Unreadable(ErrorView<E>),
    KeptPrevious(E),
    Failed(ErrorView<E>),
}

impl<E> View for Report<E> {
    type V = ReportView<E>;

    open spec fn view(&self) -> ReportView<E> {
        match *self {
            Report::Nothing => ReportView::Nothing,
            Report::Started => ReportView::Started,
            Report::Reloaded => ReportView::Reloaded,
            Report::Unreadable(error) => ReportView::Unreadable(error@),
            Report::KeptPrevious(error) => ReportView::KeptPrevious(error),
            Report::Failed(error) => ReportView::Failed(error@),
        }
    }
}

/// Where a watch stands.
enum Phase {
    Starting,
    Probing(Purpose),
    Listing(Mount),
    Reading(Survey),
    Parsing(u64, Mount),
    Announcing,
    Waiting,
    Draining,
    Stopped,
}

/// Where a watch stands: each phase waits for one thing to be done.
pub enum PhaseView {
    /// The filesystem watcher is being created.
    Starting,
    /// The `..data` entry is being looked at.
    Probing(Purpose),
    /// This snapshot directory is being listed.
    Listing(Seq<u8>),
    /// The keys of a snapshot are being read.
    Reading(SurveyView),
    /// The snapshot in this directory is being parsed; the content hash that was taken before.
    Parsing(u64, Seq<u8>),
    /// The current value is being handed out.
    Announcing,
    /// Nothing is going on.
    Waiting,
    /// Something happened, and the filesystem is not quiet yet.
    Draining,
    /// The watch is over.
    Stopped,
}

impl View for Phase {
    type V = PhaseView;

    closed spec fn view(&self) -> PhaseView {
        match *self {
            Phase::Starting => PhaseView::Starting,
            Phase::Probing(purpose) => PhaseView::Probing(purpose),
            Phase::Listing(mount) => PhaseView::Listing(mount@),
            Phase::Reading(survey) => PhaseView::Reading(survey@),
            Phase::Parsing(hash, mount) => PhaseView::Parsing(hash, mount@),
            Phase::Announcing => PhaseView::Announcing,
            Phase::Waiting => PhaseView::Waiting,
            Phase::Draining => PhaseView::Draining,
            Phase::Stopped => PhaseView::Stopped,
        }
    }
}

/// The state of a watch.
#[verifier::ext_equal]
pub struct ReloaderView<T> {
    /// The mount directory.
    pub root: Seq<u8>,
    /// The fallback poll cadence, or none.
    pub fallback_poll: Option<Interval>,
    /// The content hash that was taken before the current value was parsed.
    pub last_hash: u64,
    /// The current value; none until the first parse.
    pub current: Option<T>,
    /// What is going on.
    pub phase: PhaseView,
}

impl<T> ReloaderView<T> {
    /// The same watch in another phase.
    pub open spec fn in_phase(self, phase: PhaseView) -> ReloaderView<T> {
        ReloaderView { phase, ..self }
    }
}

/// A watch that was just begun.
pub open spec fn begun<T>(root: Seq<u8>, fallback_poll: Option<Interval>) -> ReloaderView<T> {
    ReloaderView { root, fallback_poll, last_hash: 0, current: None, phase: PhaseView::Starting }
}

/// What is to be done next in a watch.
pub open spec fn pending_action<T>(watch: ReloaderView<T>) -> ActionView {
    match watch.phase {
        PhaseView::Starting => ActionView::StartWatcher(watch.root),
        PhaseView::Probing(_) => ActionView::Probe(data_path(watch.root)),
        PhaseView::Listing(dir) => ActionView::List(dir),
        PhaseView::Reading(survey) => ActionView::Read(survey.wanted_file()),
        PhaseView::Parsing(_, dir) => ActionView::Parse(dir),
        PhaseView::Announcing => ActionView::Publish,
        PhaseView::Waiting => ActionView::Wait(watch.fallback_poll),
        PhaseView::Draining => ActionView::Wait(Some(debounce())),
        PhaseView::Stopped => ActionView::Stop,
    }
}

/// What the watcher's creation leads to. The watcher comes before everything else, so that a
/// rotation that races the start is not missed.
pub open spec fn on_watching<T, E>(watch: ReloaderView<T>, outcome: Result<(), E>) -> (
    ReloaderView<T>,
    ReportView<E>,
) {
    match outcome {
        Ok(_) => (watch.in_phase(PhaseView::Probing(Purpose::Survey)), ReportView::Nothing),
        Err(error) => (
            watch.in_phase(PhaseView::Stopped),
            ReportView::Failed(ErrorView::Watch(error)),
        ),
    }
}

/// What a resolved mount leads to.
pub open spec fn on_probed<T>(
    watch: ReloaderView<T>,
    purpose: Purpose,
    data: DataEntryView,
) -> ReloaderView<T> {
    let dir = snapshot_dir(watch.root, data);
    match purpose {
        Purpose::Survey => watch.in_phase(PhaseView::Listing(dir)),
        Purpose::Parse(hash) => watch.in_phase(PhaseView::Parsing(hash, dir)),
    }
}

/// What a step of a survey leads to.
///
/// The first survey only takes the hash to start from, zero where it fails, and the mount is
/// parsed in any case. After that, a hash that differs from the last one leads to a parse, the
/// same hash to nothing, and a failure is told and tried again on the next trigger.
pub open spec fn on_surveyed<T, E>(watch: ReloaderView<T>, step: SurveyStepView<E>) -> (
    ReloaderView<T>,
    ReportView<E>,
) {
    match step {
        SurveyStepView::Read(survey) => (
            watch.in_phase(PhaseView::Reading(survey)),
            ReportView::Nothing,
        ),
        SurveyStepView::Done(hash) => if watch.current is Some && hash == watch.last_hash {
            (watch.in_phase(PhaseView::Waiting), ReportView::Nothing)
        } else {
            (watch.in_phase(PhaseView::Probing(Purpose::Parse(hash))), ReportView::Nothing)
        },
        SurveyStepView::Failed(error) => if watch.current is Some {
            (watch.in_phase(PhaseView::Waiting), ReportView::Unreadable(error))
        } else {
            (watch.in_phase(PhaseView::Probing(Purpose::Parse(0))), ReportView::Nothing)
        },
    }
}

/// What a parse leads to: a new value together with its content hash, or, on a failure, the end
/// of a watch that has no value yet and no change to one that has.
pub open spec fn on_parsed<T, E>(watch: ReloaderView<T>, hash: u64, outcome: Result<T, E>) -> (
    ReloaderView<T>,
    ReportView<E>,
) {
    match outcome {
        Ok(value) => (
            ReloaderView {
                last_hash: hash,
                current: Some(value),
                phase: PhaseView::Announcing,
                ..watch
            },
            if watch.current is Some {
                ReportView::Reloaded
            } else {
                ReportView::Started
            },
        ),
        Err(error) => if watch.current is Some {
            (watch.in_phase(PhaseView::Waiting), ReportView::KeptPrevious(error))
        } else {
            (watch.in_phase(PhaseView::Stopped), ReportView::Failed(ErrorView::Parse(error)))
        },
    }
}

/// The phase that a decision after waiting leads to.
pub open spec fn phase_after(next: Waited) -> PhaseView {
    match next {
        Waited::Exit => PhaseView::Stopped,
        Waited::Drain => PhaseView::Draining,
        Waited::Check => PhaseView::Probing(Purpose::Survey),
    }
}

/// What an event leads to. An event that does not answer what is pending changes nothing.
pub open spec fn next<T, E>(watch: ReloaderView<T>, event: EventView<T, E>) -> (
    ReloaderView<T>,
    ReportView<E>,
) {
    match (watch.phase, event) {
        (PhaseView::Starting, EventView::Watching(outcome)) => on_watching(watch, outcome),
        (PhaseView::Probing(purpose), EventView::Probed(data)) => (
            on_probed(watch, purpose, data),
            ReportView::Nothing,
        ),
        (PhaseView::Listing(dir), EventView::Listed(listing)) => on_surveyed(
            watch,
            started::<E>(dir, listed_keys::<E>(dir, listing)),
        ),
        (PhaseView::Reading(survey), EventView::Found(found)) => on_surveyed(
            watch,
            absorbed::<E>(survey, found),
        ),
        (PhaseView::Parsing(hash, _), EventView::Parsed(outcome)) => on_parsed(
            watch,
            hash,
            outcome,
        ),
        (PhaseView::Announcing, EventView::Published) => (
            watch.in_phase(PhaseView::Waiting),
            ReportView::Nothing,
        ),
        (PhaseView::Waiting, EventView::Woken(wake)) => (
            watch.in_phase(phase_after(after_wait(wake))),
            ReportView::Nothing,
        ),
        (PhaseView::Draining, EventView::Woken(wake)) => (
            watch.in_phase(phase_after(after_drain(wake))),
            ReportView::Nothing,
        ),
        _ => (watch, ReportView::Nothing),
    }
}

/// What a watch holds whatever it is doing.
struct Holding<T> {
    root: FilePath,
    fallback_poll: Option<Interval>,
    last_hash: u64,
    current: Option<Arc<T>>,
}

/// A watch on a mounted volume and the value derived from it.
pub struct Reloader<T> {
    holding: Holding<T>,
    phase: Phase,
}

impl<T> Holding<T> {
    /// The watch that holds this, in the given phase.
    spec fn watch(self, phase: PhaseView) -> ReloaderView<T> {
        ReloaderView {
            root: self.root@,
            fallback_poll: self.fallback_poll,
            last_hash: self.last_hash,
            current: match self.current {
                Some(value) => Some(*value),
                None => None,
            },
            phase,
        }
    }

    /// Enters a phase.
    fn enter(self, phase: Phase) -> (watch: Reloader<T>)
        ensures
            watch@ == self.watch(phase@),
    {
        Reloader { holding: self, phase }
    }

    /// Goes on from the watcher's creation.
    fn watching<E>(self, outcome: Result<(), E>) -> (next: (Reloader<T>, Report<E>))
        ensures
            forall|phase: PhaseView|
                (next.0@, next.1@) == #[trigger] on_watching(self.watch(phase), outcome),
    {
        match outcome {
            Ok(_) => (self.enter(Phase::Probing(Purpose::Survey)), Report::Nothing),
            Err(error) => (self.enter(Phase::Stopped), Report::Failed(Error::Watch(error))),
        }
    }

    /// Goes on from what stands at the `..data` entry.
    fn probed(self, purpose: Purpose, data: DataEntry) -> (next: Reloader<T>)
        ensures
            forall|phase: PhaseView|
                next@ == #[trigger] on_probed(self.watch(phase), purpose, data@),
    {
        let mount = Mount::resolve(&self.root, data);
        match purpose {
            Purpose::Survey => self.enter(Phase::Listing(mount)),
            Purpose::Parse(hash) => self.enter(Phase::Parsing(hash, mount)),
        }
    }

    /// Goes on from a step of a survey.
    fn surveyed<E>(self, step: SurveyStep<E>) -> (next: (Reloader<T>, Report<E>))
        ensures
            forall|phase: PhaseView|
                (next.0@, next.1@) == #[trigger] on_surveyed(self.watch(phase), step@),
    {
        let running = self.current.is_some();
        match step {
            SurveyStep::Read(survey) => (self.enter(Phase::Reading(survey)), Report::Nothing),
            SurveyStep::Done(hash) => {
                if running && hash == self.last_hash {
                    (self.enter(Phase::Waiting), Report::Nothing)
                } else {
                    (self.enter(Phase::Probing(Purpose::Parse(hash))), Report::Nothing)
                }
            },
            SurveyStep::Failed(error) => {
                if running {
                    (self.enter(Phase::Waiting), Report::Unreadable(error))
                } else {
                    (self.enter(Phase::Probing(Purpose::Parse(0))), Report::Nothing)
                }
            },
        }
    }

    /// Goes on from what the parser made of the mount.
    fn parsed<E>(self, hash: u64, outcome: Result<T, E>) -> (next: (Reloader<T>, Report<E>))
        ensures
            forall|phase: PhaseView|
                (next.0@, next.1@) == #[trigger] on_parsed(self.watch(phase), hash, outcome),
    {
        let running = self.current.is_some();
        match outcome {
            Ok(value) => {
                let holding = Holding {
                    last_hash: hash,
                    current: Some(Arc::new(value)),
                    ..self
                };
                let report = if running {
                    Report::Reloaded
                } else {
                    Report::Started
                };
                (holding.enter(Phase::Announcing), report)
            },
            Err(error) => {
                if running {
                    (self.enter(Phase::Waiting), Report::KeptPrevious(error))
                } else {
                    (self.enter(Phase::Stopped), Report::Failed(Error::Parse(error)))
                }
            },
        }
    }

    /// Goes on from a decision after waiting.
    fn waited(self, next: Waited) -> (watch: Reloader<T>)
        ensures
            watch@ == self.watch(phase_after(next)),
    {
        match next {
            Waited::Exit => self.enter(Phase::Stopped),
            Waited::Drain => self.enter(Phase::Draining),
            Waited::Check => self.enter(Phase::Probing(Purpose::Survey)),
        }
    }
}

impl<T> View for Reloader<T> {
    type V = ReloaderView<T>;

    closed spec fn view(&self) -> ReloaderView<T> {
        self.holding.watch(self.phase@)
    }
}

impl Watch {
    /// Begins to derive a value from the mount and to keep it fresh.
    ///
    /// The mount is parsed once at the start; where that fails, or where the filesystem watcher
    /// cannot be created, the watch is over. After that, whenever the content of the mount
    /// changes, it is parsed again and the new value is published. Where that fails, the
    /// previous value is kept.
    pub fn spawn<T>(self) -> (reloader: Reloader<T>)
        ensures
            reloader@ == begun::<T>(self@.dir, self@.fallback_poll),
    {
        let (root, fallback_poll) = self.into_parts();
        let holding = Holding { root, fallback_poll, last_hash: 0, current: None };
        holding.enter(Phase::Starting)
    }
}

impl<T> Reloader<T> {
    /// What is to be done next.
    pub fn pending(&self) -> (action: Action)
        ensures
            action@ == pending_action(self@),
    {
        match &self.phase {
            Phase::Starting => Action::StartWatcher(self.holding.root.clone()),
            Phase::Probing(_) => Action::Probe(data_entry_path(&self.holding.root)),
            Phase::Listing(mount) => Action::List(mount.data_dir().clone()),
            Phase::Reading(survey) => Action::Read(survey.wanted()),
            Phase::Parsing(_, mount) => Action::Parse(mount.clone()),
            Phase::Announcing => Action::Publish,
            Phase::Waiting => Action::Wait(self.holding.fallback_poll),
            Phase::Draining => Action::Wait(Some(Interval { secs: 0, nanos: DEBOUNCE_NANOS })),
            Phase::Stopped => Action::Stop,
        }
    }

    /// The current value: the freshest one that was parsed.
    pub fn current(&self) -> (value: Option<&Arc<T>>)
        ensures
            self@.current is Some <==> value is Some,
            value matches Some(value) ==> self@.current == Some(**value),
    {
        self.holding.current.as_ref()
    }

    /// Takes what came of the pending action, and says what there is to tell about it. An event
    /// that does not answer the pending action changes nothing.
    pub fn step<E>(self, event: Event<T, E>) -> (outcome: (Reloader<T>, Report<E>))
        ensures
            (outcome.0@, outcome.1@) == next(self@, event@),
            match (self@.phase, event@) {
                (PhaseView::Listing(dir), EventView::Listed(listing)) => listed_keys::<E>(
                    dir,
                    listing,
                ) is Ok ==> valid_names_kept(successes(listing->Ok_0)),
                _ => true,
            },
    {
        let Reloader { holding, phase } = self;
        match (phase, event) {
            (Phase::Starting, Event::Watching(outcome)) => holding.watching(outcome),
            (Phase::Probing(purpose), Event::Probed(data)) => {
                (holding.probed(purpose, data), Report::Nothing)
            },
            (Phase::Listing(mount), Event::Listed(listing)) => {
                holding.surveyed(mount.fingerprint(listing))
            },
            (Phase::Reading(survey), Event::Found(found)) => {
                holding.surveyed(survey.absorb(found))
            },
            (Phase::Parsing(hash, _), Event::Parsed(outcome)) => holding.parsed(hash, outcome),
            (Phase::Announcing, Event::Published) => {
                (holding.enter(Phase::Waiting), Report::Nothing)
            },
            (Phase::Waiting, Event::Woken(wake)) => {
                (holding.waited(wait_for_change(wake)), Report::Nothing)
            },
            (Phase::Draining, Event::Woken(wake)) => {
                (holding.waited(drain_debounced(wake)), Report::Nothing)
            },
            (phase, _) => (holding.enter(phase), Report::Nothing),
        }
    }
}

} // verus!
