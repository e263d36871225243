//! What holds of every single step of a watch.

use crate::error::ErrorView;
use crate::mount::data_path;
use crate::reloader::{
    begun, next, pending_action, ActionView, EventView, PhaseView, Purpose, ReloaderView,
    ReportView,
};
use crate::watch::{Interval, Trigger, Wake};
use vstd::prelude::*;

verus! {

/// Whether an event is the outcome of an action.
pub open spec fn answers<T, E>(action: ActionView, event: EventView<T, E>) -> bool {
    match event {
        EventView::Watching(_) => action is StartWatcher,
        EventView::Probed(_) => action is Probe,
        EventView::Listed(_) => action is List,
        EventView::Found(_) => action is Read,
        EventView::Parsed(_) => action is Parse,
        EventView::Published => action is Publish,
        EventView::Woken(_) => action is Wait,
    }
}

/// An event that is not the outcome of what is pending changes nothing, and there is nothing to
/// tell about it.
pub proof fn a_stray_event_changes_nothing<T, E>(watch: ReloaderView<T>, event: EventView<T, E>)
    requires
        !answers(pending_action(watch), event),
    ensures
        next(watch, event).0 == watch,
        next(watch, event).1 is Nothing,
{
}

/// A watch begins with nothing but what it was asked to watch.
pub proof fn a_watch_begins_without_a_value<T>(root: Seq<u8>, fallback_poll: Option<Interval>)
    ensures
        begun::<T>(root, fallback_poll).root == root,
        begun::<T>(root, fallback_poll).fallback_poll == fallback_poll,
        begun::<T>(root, fallback_poll).current is None,
        begun::<T>(root, fallback_poll).phase is Starting,
{
}

/// A watch in another phase is otherwise the same.
pub proof fn a_phase_is_all_that_changes<T>(watch: ReloaderView<T>, phase: PhaseView)
    ensures
        watch.in_phase(phase).phase == phase,
        watch.in_phase(phase).root == watch.root,
        watch.in_phase(phase).fallback_poll == watch.fallback_poll,
        watch.in_phase(phase).last_hash == watch.last_hash,
        watch.in_phase(phase).current == watch.current,
{
}

/// The value and its hash change together, and by nothing but a parse that succeeds: to what was
/// parsed, and to the hash that was taken before.
pub proof fn only_a_parse_changes_the_value<T, E>(watch: ReloaderView<T>, event: EventView<T, E>)
    ensures
        match (watch.phase, event) {
            (PhaseView::Parsing(hash, _), EventView::Parsed(Ok(value))) => {
                &&& next(watch, event).0.current == Some(value)
                &&& next(watch, event).0.last_hash == hash
            },
            _ => {
                &&& next(watch, event).0.current == watch.current
                &&& next(watch, event).0.last_hash == watch.last_hash
            },
        },
        next(watch, event).0.root == watch.root,
        next(watch, event).0.fallback_poll == watch.fallback_poll,
{
}

/// What is told of the watcher and of a parse, and that nothing is told of what is no failure and
/// no parse.
pub proof fn parses_and_failures_are_told<T, E>(watch: ReloaderView<T>, event: EventView<T, E>)
    requires
        answers(pending_action(watch), event),
    ensures
        event matches EventView::Watching(Ok(_)) ==> next(watch, event).1 is Nothing,
        event matches EventView::Watching(Err(cause)) ==> next(watch, event).1
            == ReportView::Failed(ErrorView::Watch(cause)),
        event is Probed ==> next(watch, event).1 is Nothing,
        event matches EventView::Found(Ok(_)) ==> next(watch, event).1 is Nothing,
        event matches EventView::Parsed(Ok(_)) ==> if watch.current is Some {
            next(watch, event).1 is Reloaded
        } else {
            next(watch, event).1 is Started
        },
        event matches EventView::Parsed(Err(cause)) ==> next(watch, event).1
            == if watch.current is Some {
            ReportView::KeptPrevious(cause)
        } else {
            ReportView::Failed(ErrorView::Parse(cause))
        },
        event is Published ==> next(watch, event).1 is Nothing,
        event is Woken ==> next(watch, event).1 is Nothing,
{
}

/// What follows the creation of the watcher: the look at `..data` for the first hash, or the end.
pub proof fn the_watcher_comes_first<T, E>(watch: ReloaderView<T>, outcome: Result<(), E>)
    requires
        pending_action(watch) is StartWatcher,
    ensures
        ({
            let after = next(watch, EventView::<T, E>::Watching(outcome)).0;
            match outcome {
                Ok(_) => {
                    &&& after.phase == PhaseView::Probing(Purpose::Survey)
                    &&& pending_action(after) == ActionView::Probe(data_path(watch.root))
                },
                Err(_) => pending_action(after) is Stop,
            }
        }),
{
}

/// What follows a parse: the new value is handed out and then the watch waits; a failure ends a
/// watch without a value, and leaves one with a value waiting.
pub proof fn a_parse_is_followed_up<T, E>(watch: ReloaderView<T>, outcome: Result<T, E>)
    requires
        pending_action(watch) is Parse,
    ensures
        ({
            let after = next(watch, EventView::<T, E>::Parsed(outcome)).0;
            match outcome {
                Ok(_) => {
                    &&& pending_action(after) is Publish
                    &&& next(after, EventView::<T, E>::Published).0.phase is Waiting
                    &&& pending_action(next(after, EventView::<T, E>::Published).0)
                        == ActionView::Wait(watch.fallback_poll)
                },
                Err(_) => if watch.current is Some {
                    &&& after.phase is Waiting
                    &&& pending_action(after) == ActionView::Wait(watch.fallback_poll)
                } else {
                    pending_action(after) is Stop
                },
            }
        }),
{
}

/// What an idle watch does when it wakes up: without further triggers it ends; on a request it
/// looks at `..data` at once; on a filesystem event, or when the poll is due, it waits until
/// nothing comes for 200 milliseconds.
pub proof fn an_idle_watch_wakes_up<T, E>(watch: ReloaderView<T>, wake: Wake)
    requires
        watch.phase is Waiting,
    ensures
        ({
            let after = next(watch, EventView::<T, E>::Woken(wake)).0;
            match wake {
                Wake::Closed => pending_action(after) is Stop,
                Wake::Event(Trigger::Nudge) => {
                    &&& after.phase == PhaseView::Probing(Purpose::Survey)
                    &&& pending_action(after) == ActionView::Probe(data_path(watch.root))
                },
                Wake::Event(Trigger::Filesystem) | Wake::Elapsed => {
                    &&& after.phase is Draining
                    &&& pending_action(after) == ActionView::Wait(
                        Some(Interval { secs: 0, nanos: 200_000_000 }),
                    )
                },
            }
        }),
{
}

/// What a watch that waits for quiet does when it wakes up: on a filesystem event it goes on
/// waiting, as long again; on anything else it looks at `..data`.
pub proof fn a_draining_watch_wakes_up<T, E>(watch: ReloaderView<T>, wake: Wake)
    requires
        watch.phase is Draining,
    ensures
        ({
            let after = next(watch, EventView::<T, E>::Woken(wake)).0;
            if wake == Wake::Event(Trigger::Filesystem) {
                &&& after == watch
                &&& pending_action(after) == ActionView::Wait(
                    Some(Interval { secs: 0, nanos: 200_000_000 }),
                )
            } else {
                &&& after.phase == PhaseView::Probing(Purpose::Survey)
                &&& pending_action(after) == ActionView::Probe(data_path(watch.root))
            }
        }),
{
}

} // verus!
