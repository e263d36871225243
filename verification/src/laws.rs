//! What holds of every watch, whatever happens to it.

use crate::content::{
    a_whole_survey_gives_the_content_hash, surveys_of_different_content_hash_different_bytes,
};
use crate::error::ErrorView;
use crate::fingerprint::{content_hash, surveyed};
use crate::mount::{
    data_path, first_failure, key_file, key_names, snapshot_dir, successes, DataEntryView,
    ListingView,
};
use crate::reloader::{
    begun, next, on_surveyed, pending_action, ActionView, EventView, PhaseView, Purpose,
    ReloaderView, ReportView,
};
use crate::watch::{after_drain, after_wait, debounce, Interval, Trigger, Waited, Wake};
use std::collections::hash_map::DefaultHasher;
use vstd::prelude::*;
use vstd::std_specs::hash::DefaultHasherAdditionalSpecFns;

verus! {

/// The watch after a series of events.
pub open spec fn run<T, E>(watch: ReloaderView<T>, events: Seq<EventView<T, E>>) -> ReloaderView<T>
    decreases events.len(),
{
    if events.len() == 0 {
        watch
    } else {
        next(run(watch, events.drop_last()), events.last()).0
    }
}

/// A value that was handed out, and the content hash that was taken before it was parsed.
pub struct Publication<T> {
    pub hash: u64,
    pub value: T,
}

/// The values that a watch hands out in the course of a series of events, oldest first: those of
/// its successful parses.
pub open spec fn publications<T, E>(
    watch: ReloaderView<T>,
    events: Seq<EventView<T, E>>,
) -> Seq<Publication<T>>
    decreases events.len(),
{
    if events.len() == 0 {
        Seq::empty()
    } else {
        let earlier = publications(watch, events.drop_last());
        match (run(watch, events.drop_last()).phase, events.last()) {
            (PhaseView::Parsing(hash, _), EventView::Parsed(Ok(value))) => earlier.push(
                Publication { hash, value },
            ),
            _ => earlier,
        }
    }
}

/// What holds of a watch at every moment: while it waits there is a value; a mount that is to be
/// parsed again has a hash that differs from the last one; and a survey that reads has a key
/// left to read.
pub open spec fn sound<T>(watch: ReloaderView<T>) -> bool {
    match watch.phase {
        PhaseView::Starting => watch.current is None,
        PhaseView::Probing(Purpose::Survey) => true,
        PhaseView::Probing(Purpose::Parse(hash)) => watch.current is Some ==> hash
            != watch.last_hash,
        PhaseView::Listing(_) => true,
        PhaseView::Reading(survey) => survey.values.len() < survey.keys.len(),
        PhaseView::Parsing(hash, _) => watch.current is Some ==> hash != watch.last_hash,
        PhaseView::Announcing => watch.current is Some,
        PhaseView::Waiting => watch.current is Some,
        PhaseView::Draining => watch.current is Some,
        PhaseView::Stopped => true,
    }
}

/// A watch that was just begun is sound, and no event makes a sound watch unsound.
pub proof fn every_watch_is_sound<T, E>(
    root: Seq<u8>,
    fallback_poll: Option<Interval>,
    events: Seq<EventView<T, E>>,
)
    ensures
        sound(run(begun::<T>(root, fallback_poll), events)),
    decreases events.len(),
{
    if events.len() > 0 {
        let before = run(begun::<T>(root, fallback_poll), events.drop_last());
        every_watch_is_sound(root, fallback_poll, events.drop_last());
        lemma_next_is_sound(before, events.last());
    }
}

proof fn lemma_next_is_sound<T, E>(watch: ReloaderView<T>, event: EventView<T, E>)
    requires
        sound(watch),
    ensures
        sound(next(watch, event).0),
{
}

/// Nothing changes what is watched: the directory and the fallback poll cadence stay as they
/// were.
pub proof fn the_watched_directory_is_fixed<T, E>(
    watch: ReloaderView<T>,
    events: Seq<EventView<T, E>>,
)
    ensures
        run(watch, events).root == watch.root,
        run(watch, events).fallback_poll == watch.fallback_poll,
    decreases events.len(),
{
    if events.len() > 0 {
        the_watched_directory_is_fixed(watch, events.drop_last());
    }
}

/// The watcher is asked for once: on the mount directory, exactly while the watch is starting; any
/// answer ends the start, and nothing that happens later leads back to it.
pub proof fn the_watcher_is_asked_for_once<T, E>(
    root: Seq<u8>,
    fallback_poll: Option<Interval>,
    events: Seq<EventView<T, E>>,
    outcome: Result<(), E>,
    later: Seq<EventView<T, E>>,
)
    ensures
        ({
            let watch = begun::<T>(root, fallback_poll);
            let now = run(watch, events);
            let answered = next(now, EventView::<T, E>::Watching(outcome)).0;
            &&& pending_action(watch) == ActionView::StartWatcher(root)
            &&& now.phase is Starting <==> pending_action(now) == ActionView::StartWatcher(root)
            &&& now.phase is Starting <==> pending_action(now) is StartWatcher
            &&& pending_action(answered) !is StartWatcher
            &&& pending_action(now) !is StartWatcher ==> pending_action(
                run(watch, events + later),
            ) !is StartWatcher
        }),
{
    let watch = begun::<T>(root, fallback_poll);
    the_watched_directory_is_fixed(watch, events);
    lemma_run_concat(watch, events, later);
    if run(watch, events).phase !is Starting {
        lemma_never_starts_again(run(watch, events), later);
    }
}

proof fn lemma_never_starts_again<T, E>(watch: ReloaderView<T>, events: Seq<EventView<T, E>>)
    requires
        watch.phase !is Starting,
    ensures
        run(watch, events).phase !is Starting,
    decreases events.len(),
{
    if events.len() > 0 {
        lemma_never_starts_again(watch, events.drop_last());
    }
}

/// The current value is always the freshest one: the last that was handed out, with the hash
/// that was taken before it was parsed. In particular a value is never taken away, and nothing
/// but a successful parse replaces it.
pub proof fn the_current_value_is_the_last_published<T, E>(
    watch: ReloaderView<T>,
    events: Seq<EventView<T, E>>,
)
    ensures
        ({
            let published = publications(watch, events);
            let after = run(watch, events);
            if published.len() == 0 {
                after.current == watch.current && after.last_hash == watch.last_hash
            } else {
                after.current == Some(published.last().value) && after.last_hash
                    == published.last().hash
            }
        }),
    decreases events.len(),
{
    if events.len() > 0 {
        the_current_value_is_the_last_published(watch, events.drop_last());
    }
}

/// A value is replaced only on a change: any two values handed out one after the other were
/// parsed from content with different hashes.
pub proof fn successive_publications_differ_in_hash<T, E>(
    root: Seq<u8>,
    fallback_poll: Option<Interval>,
    events: Seq<EventView<T, E>>,
    i: int,
)
    requires
        0 < i < publications(begun::<T>(root, fallback_poll), events).len(),
    ensures
        ({
            let published = publications(begun::<T>(root, fallback_poll), events);
            published[i - 1].hash != published[i].hash
        }),
    decreases events.len(),
{
    let watch = begun::<T>(root, fallback_poll);
    let earlier = events.drop_last();
    let before = publications(watch, earlier);
    if i < before.len() {
        successive_publications_differ_in_hash(root, fallback_poll, earlier, i);
    } else {
        every_watch_is_sound(root, fallback_poll, earlier);
        the_current_value_is_the_last_published(watch, earlier);
    }
}

/// Each publication is announced: a successful parse is followed by handing out the new value,
/// and nothing else is.
pub proof fn values_are_handed_out_exactly_when_parsed<T, E>(
    watch: ReloaderView<T>,
    event: EventView<T, E>,
)
    requires
        pending_action(watch) !is Publish,
    ensures
        pending_action(next(watch, event).0) is Publish <==> (watch.phase is Parsing
            && event matches EventView::Parsed(Ok(_))),
        pending_action(next(watch, event).0) is Publish ==> next(watch, event).0.current == Some(
            event->Parsed_0->Ok_0,
        ),
{
}

/// A failure never takes the value away: whenever a step tells of an unreadable mount or of a
/// failed re-parse, the value and its hash stay as they were, and the watch waits for the next
/// trigger.
pub proof fn failures_keep_the_previous_value<T, E>(
    watch: ReloaderView<T>,
    event: EventView<T, E>,
)
    requires
        next(watch, event).1 is Unreadable || next(watch, event).1 is KeptPrevious,
    ensures
        watch.current is Some,
        next(watch, event).0 == watch.in_phase(PhaseView::Waiting),
{
}

/// What an event does to fail the start of a watch.
pub open spec fn start_failure<T, E>(watch: ReloaderView<T>, event: EventView<T, E>) -> Option<
    ErrorView<E>,
> {
    match (watch.phase, event) {
        (PhaseView::Starting, EventView::Watching(Err(cause))) => Some(ErrorView::Watch(cause)),
        (PhaseView::Parsing(_, _), EventView::Parsed(Err(cause))) => if watch.current is None {
            Some(ErrorView::Parse(cause))
        } else {
            None
        },
        _ => None,
    }
}

/// The start fails in exactly two ways: the filesystem watcher cannot be had, or the first parse
/// fails. Either way the watch is over and has no value.
pub proof fn only_the_watcher_or_the_first_parse_fails_the_start<T, E>(
    watch: ReloaderView<T>,
    event: EventView<T, E>,
)
    requires
        sound(watch),
    ensures
        match start_failure(watch, event) {
            Some(error) => {
                &&& next(watch, event).1 == ReportView::Failed(error)
                &&& next(watch, event).0.phase is Stopped
                &&& next(watch, event).0.current is None
            },
            None => next(watch, event).1 !is Failed,
        },
{
}

/// A watch that is over stays over: it hands out nothing more.
pub proof fn a_stopped_watch_stays_stopped<T, E>(
    watch: ReloaderView<T>,
    events: Seq<EventView<T, E>>,
)
    requires
        watch.phase is Stopped,
    ensures
        run(watch, events) == watch,
        publications(watch, events).len() == 0,
        pending_action(watch) is Stop,
    decreases events.len(),
{
    if events.len() > 0 {
        a_stopped_watch_stays_stopped(watch, events.drop_last());
    }
}

/// A watch with a value ends only when no trigger can come any more.
pub proof fn a_running_watch_ends_only_without_triggers<T, E>(
    watch: ReloaderView<T>,
    event: EventView<T, E>,
)
    requires
        watch.current is Some,
        watch.phase !is Starting,
        watch.phase !is Stopped,
    ensures
        next(watch, event).0.phase is Stopped <==> (watch.phase is Waiting && event
            == EventView::<T, E>::Woken(Wake::Closed)),
{
}

/// A series of events in two parts is one part after the other.
proof fn lemma_run_concat<T, E>(
    watch: ReloaderView<T>,
    first: Seq<EventView<T, E>>,
    second: Seq<EventView<T, E>>,
)
    ensures
        run(watch, first + second) == run(run(watch, first), second),
        publications(watch, first + second) == publications(watch, first) + publications(
            run(watch, first),
            second,
        ),
    decreases second.len(),
{
    if second.len() == 0 {
        assert(first + second =~= first);
    } else {
        assert((first + second).drop_last() =~= first + second.drop_last());
        lemma_run_concat(watch, first, second.drop_last());
        assert(publications(watch, first + second) =~= publications(watch, first) + publications(
            run(watch, first),
            second,
        ));
    }
}

/// The listing of a directory that holds entries of the given names.
pub open spec fn listing_of(names: Seq<Seq<u8>>) -> ListingView {
    Ok(names.map_values(|name: Seq<u8>| Ok::<Seq<u8>, std::io::Error>(name)))
}

/// The events of reading files that hold the given values.
pub open spec fn reads_of<T, E>(values: Seq<Seq<u8>>) -> Seq<EventView<T, E>> {
    values.map_values(|value: Seq<u8>| EventView::<T, E>::Found(Ok(value)))
}

/// The events of one look at a mount: what stands at `..data`, a listing with the given names,
/// and the values of the keys, in their order.
pub open spec fn look<T, E>(
    data: DataEntryView,
    names: Seq<Seq<u8>>,
    values: Seq<Seq<u8>>,
) -> Seq<EventView<T, E>> {
    seq![EventView::Probed(data), EventView::Listed(listing_of(names))] + reads_of(values)
}

/// The events of a successful parse: what stands at `..data`, the value, and its handing out.
pub open spec fn parse<T, E>(data: DataEntryView, value: T) -> Seq<EventView<T, E>> {
    seq![EventView::Probed(data), EventView::Parsed(Ok(value)), EventView::Published]
}

/// The events of a successful start: the watcher, a look at the mount, and the first parse.
pub open spec fn start<T, E>(
    data: DataEntryView,
    names: Seq<Seq<u8>>,
    values: Seq<Seq<u8>>,
    data_parsed: DataEntryView,
    value: T,
) -> Seq<EventView<T, E>> {
    seq![EventView::Watching(Ok(()))] + look(data, names, values) + parse(data_parsed, value)
}

/// A list of outcomes without an error.
proof fn lemma_listing_of(names: Seq<Seq<u8>>)
    ensures
        first_failure(listing_of(names)->Ok_0) is None,
        successes(listing_of(names)->Ok_0) == names,
    decreases names.len(),
{
    let entries = listing_of(names)->Ok_0;
    assert(successes(entries) =~= names);
    if names.len() > 0 {
        lemma_listing_of(names.drop_first());
        assert(entries.drop_first() =~= listing_of(names.drop_first())->Ok_0);
    }
}

/// Where a look at a mount stands once the given values are read.
proof fn lemma_look<T, E>(
    watch: ReloaderView<T>,
    data: DataEntryView,
    names: Seq<Seq<u8>>,
    values: Seq<Seq<u8>>,
)
    requires
        watch.phase == PhaseView::Probing(Purpose::Survey),
        values.len() <= key_names(names).len(),
    ensures
        run(watch, look::<T, E>(data, names, values)) == on_surveyed(
            watch,
            surveyed::<E>(snapshot_dir(watch.root, data), key_names(names), values),
        ).0,
        publications(watch, look::<T, E>(data, names, values)).len() == 0,
    decreases values.len(),
{
    let events = look::<T, E>(data, names, values);
    let dir = snapshot_dir(watch.root, data);
    if values.len() == 0 {
        let probed = seq![EventView::<T, E>::Probed(data)];
        assert(events.drop_last() =~= probed);
        assert(probed.drop_last() =~= Seq::empty());
        lemma_listing_of(names);
        reveal_with_fuel(run, 3);
        reveal_with_fuel(publications, 3);
        assert(values =~= Seq::empty());
    } else {
        lemma_look::<T, E>(watch, data, names, values.drop_last());
        assert(events.drop_last() =~= look::<T, E>(data, names, values.drop_last()));
        assert(events.last() == EventView::<T, E>::Found(Ok(values.last())));
        assert(values.drop_last().push(values.last()) =~= values);
    }
}

/// A look at a mount leads to a parse exactly when the content changed.
///
/// The content is the sorted keys with their values; where the `..data` symlink points does not
/// matter. If a watch with a value finds the content hash that it last saw, it goes back to
/// waiting, and has parsed nothing and handed out nothing. Otherwise it goes on to parse the
/// mount.
pub proof fn only_changed_content_is_parsed<T, E>(
    watch: ReloaderView<T>,
    data: DataEntryView,
    names: Seq<Seq<u8>>,
    values: Seq<Seq<u8>>,
)
    requires
        watch.phase == PhaseView::Probing(Purpose::Survey),
        values.len() == key_names(names).len(),
    ensures
        ({
            let hash = content_hash(key_names(names), values);
            run(watch, look::<T, E>(data, names, values)) == watch.in_phase(
                if watch.current is Some && hash == watch.last_hash {
                    PhaseView::Waiting
                } else {
                    PhaseView::Probing(Purpose::Parse(hash))
                },
            )
        }),
        publications(watch, look::<T, E>(data, names, values)).len() == 0,
{
    lemma_look::<T, E>(watch, data, names, values);
}

/// One look reads one snapshot: once `..data` is resolved, the directory it stood for is listed,
/// and the key files are read from that directory, in the order of the keys.
pub proof fn a_look_reads_one_snapshot<T, E>(
    watch: ReloaderView<T>,
    data: DataEntryView,
    names: Seq<Seq<u8>>,
    values: Seq<Seq<u8>>,
)
    requires
        watch.phase == PhaseView::Probing(Purpose::Survey),
        values.len() < key_names(names).len(),
    ensures
        ({
            let dir = snapshot_dir(watch.root, data);
            let probed = next(watch, EventView::<T, E>::Probed(data)).0;
            &&& pending_action(watch) == ActionView::Probe(data_path(watch.root))
            &&& pending_action(probed) == ActionView::List(dir)
            &&& pending_action(run(watch, look::<T, E>(data, names, values))) == ActionView::Read(
                key_file(dir, key_names(names)[values.len() as int]),
            )
        }),
{
    lemma_look::<T, E>(watch, data, names, values);
}

/// One parse sees one snapshot: `..data` is resolved once before it, the parser is handed the
/// directory it stood for, and only the parser's answer ends the parse.
pub proof fn a_parse_sees_one_snapshot<T, E>(
    watch: ReloaderView<T>,
    hash: u64,
    data: DataEntryView,
    event: EventView<T, E>,
)
    requires
        watch.phase == PhaseView::Probing(Purpose::Parse(hash)),
    ensures
        ({
            let resolved = next(watch, EventView::<T, E>::Probed(data)).0;
            &&& pending_action(watch) == ActionView::Probe(data_path(watch.root))
            &&& pending_action(resolved) == ActionView::Parse(snapshot_dir(watch.root, data))
            &&& if event is Parsed {
                pending_action(next(resolved, event).0) !is Parse
            } else {
                next(resolved, event).0 == resolved
            }
        }),
{
}

/// Where a look at an unreadable mount leaves a watch: waiting, or, where there is no value yet,
/// at its first parse.
pub open spec fn after_unreadable<T>(watch: ReloaderView<T>) -> ReloaderView<T> {
    watch.in_phase(
        if watch.current is Some {
            PhaseView::Waiting
        } else {
            PhaseView::Probing(Purpose::Parse(0))
        },
    )
}

/// What is told about an unreadable mount: the error, once there is a value.
pub open spec fn told_unreadable<T, E>(watch: ReloaderView<T>, error: ErrorView<E>) -> ReportView<
    E,
> {
    if watch.current is Some {
        ReportView::Unreadable(error)
    } else {
        ReportView::Nothing
    }
}

/// A key that cannot be read ends the look at a mount, and nothing is handed out: a watch with a
/// value keeps it, tells of that key and waits for the next trigger; one that has none yet goes on
/// to its first parse.
pub proof fn an_unreadable_key_ends_the_look<T, E>(
    watch: ReloaderView<T>,
    data: DataEntryView,
    names: Seq<Seq<u8>>,
    values: Seq<Seq<u8>>,
    source: std::io::Error,
)
    requires
        watch.phase == PhaseView::Probing(Purpose::Survey),
        values.len() < key_names(names).len(),
    ensures
        ({
            let so_far = look::<T, E>(data, names, values);
            let unread = EventView::<T, E>::Found(Err(source));
            let key = key_names(names)[values.len() as int];
            &&& run(watch, so_far.push(unread)) == after_unreadable(watch)
            &&& run(watch, so_far.push(unread)) == (ReloaderView {
                phase: if watch.current is Some {
                    PhaseView::Waiting
                } else {
                    PhaseView::Probing(Purpose::Parse(0))
                },
                ..watch
            })
            &&& next(run(watch, so_far), unread).1 == told_unreadable::<T, E>(
                watch,
                ErrorView::Key { key, source },
            )
            &&& next(run(watch, so_far), unread).1 == if watch.current is Some {
                ReportView::Unreadable(ErrorView::<E>::Key { key, source })
            } else {
                ReportView::Nothing
            }
            &&& publications(watch, so_far.push(unread)).len() == 0
        }),
{
    let events = look::<T, E>(data, names, values).push(EventView::Found(Err(source)));
    lemma_look::<T, E>(watch, data, names, values);
    assert(events.drop_last() =~= look::<T, E>(data, names, values));
}

/// A directory that cannot be listed, or an entry of it that cannot be read, ends the look at a
/// mount in the same way; what is told is the first failure, with the directory.
pub proof fn an_unreadable_directory_ends_the_look<T, E>(
    watch: ReloaderView<T>,
    data: DataEntryView,
    listing: ListingView,
)
    requires
        watch.phase == PhaseView::Probing(Purpose::Survey),
        listing matches Ok(entries) ==> first_failure(entries) is Some,
    ensures
        ({
            let probed = EventView::<T, E>::Probed(data);
            let unlisted = EventView::<T, E>::Listed(listing);
            let path = snapshot_dir(watch.root, data);
            let source = match listing {
                Ok(entries) => first_failure(entries)->0,
                Err(source) => source,
            };
            &&& run(watch, seq![probed, unlisted]) == after_unreadable(watch)
            &&& run(watch, seq![probed, unlisted]) == (ReloaderView {
                phase: if watch.current is Some {
                    PhaseView::Waiting
                } else {
                    PhaseView::Probing(Purpose::Parse(0))
                },
                ..watch
            })
            &&& next(run(watch, seq![probed]), unlisted).1 == told_unreadable::<T, E>(
                watch,
                ErrorView::Mount { path, source },
            )
            &&& next(run(watch, seq![probed]), unlisted).1 == if watch.current is Some {
                ReportView::Unreadable(ErrorView::<E>::Mount { path, source })
            } else {
                ReportView::Nothing
            }
            &&& publications(watch, seq![probed, unlisted]).len() == 0
        }),
{
    let events = seq![EventView::<T, E>::Probed(data), EventView::Listed(listing)];
    assert(events.drop_last() =~= seq![events[0]]);
    assert(seq![events[0]].drop_last() =~= Seq::empty());
    reveal_with_fuel(run, 3);
    reveal_with_fuel(publications, 3);
}

/// The start of a watch: the watcher, a look at the mount, and the first parse. The hash to
/// compare with is the one taken before the parse, so content that changes between the two is
/// noticed at the next look.
pub proof fn the_start_hashes_before_it_parses<T, E>(
    root: Seq<u8>,
    fallback_poll: Option<Interval>,
    data: DataEntryView,
    names: Seq<Seq<u8>>,
    values: Seq<Seq<u8>>,
    data_parsed: DataEntryView,
    value: T,
)
    requires
        values.len() == key_names(names).len(),
    ensures
        run(
            begun::<T>(root, fallback_poll),
            start::<T, E>(data, names, values, data_parsed, value),
        ) == (ReloaderView {
            root,
            fallback_poll,
            last_hash: content_hash(key_names(names), values),
            current: Some(value),
            phase: PhaseView::Waiting,
        }),
{
    let watch = begun::<T>(root, fallback_poll);
    let watching = seq![EventView::<T, E>::Watching(Ok(()))];
    let look = look::<T, E>(data, names, values);
    let parse = parse::<T, E>(data_parsed, value);
    lemma_run_concat(watch, watching + look, parse);
    lemma_run_concat(watch, watching, look);
    assert(watching.drop_last() =~= Seq::empty());
    reveal_with_fuel(run, 2);
    let surveying = run(watch, watching);
    only_changed_content_is_parsed::<T, E>(surveying, data, names, values);
    lemma_run_three(run(surveying, look), parse[0], parse[1], parse[2]);
}

proof fn lemma_run_three<T, E>(
    watch: ReloaderView<T>,
    first: EventView<T, E>,
    second: EventView<T, E>,
    third: EventView<T, E>,
)
    ensures
        run(watch, seq![first, second, third]) == next(
            next(next(watch, first).0, second).0,
            third,
        ).0,
{
    assert(seq![first, second, third].drop_last() =~= seq![first, second]);
    assert(seq![first, second].drop_last() =~= seq![first]);
    assert(seq![first].drop_last() =~= Seq::empty());
    reveal_with_fuel(run, 4);
}

/// A reload: a look at a mount whose content changed, and a successful parse. The new value
/// replaces the old one, with the hash of the look, and the watch waits again.
pub proof fn changed_content_replaces_the_value<T, E>(
    watch: ReloaderView<T>,
    data: DataEntryView,
    names: Seq<Seq<u8>>,
    values: Seq<Seq<u8>>,
    data_parsed: DataEntryView,
    value: T,
)
    requires
        watch.phase == PhaseView::Probing(Purpose::Survey),
        watch.current is Some,
        values.len() == key_names(names).len(),
        content_hash(key_names(names), values) != watch.last_hash,
    ensures
        run(
            watch,
            look::<T, E>(data, names, values) + parse::<T, E>(data_parsed, value),
        ) == (ReloaderView {
            last_hash: content_hash(key_names(names), values),
            current: Some(value),
            phase: PhaseView::Waiting,
            ..watch
        }),
{
    let look = look::<T, E>(data, names, values);
    let parse = parse::<T, E>(data_parsed, value);
    only_changed_content_is_parsed::<T, E>(watch, data, names, values);
    lemma_run_concat(watch, look, parse);
    lemma_run_three(run(watch, look), parse[0], parse[1], parse[2]);
}

/// Whether waking up like this takes an idle watch to a look at the mount: a request for an
/// immediate check does, and so does anything else that is followed by quiet or by such a
/// request, with any number of filesystem events in between.
pub open spec fn triggering(wakes: Seq<Wake>) -> bool {
    if wakes.len() == 1 {
        after_wait(wakes[0]) == Waited::Check
    } else {
        &&& wakes.len() > 1
        &&& after_wait(wakes[0]) == Waited::Drain
        &&& forall|i: int|
            0 < i < wakes.len() - 1 ==> after_drain(#[trigger] wakes[i]) == Waited::Drain
        &&& after_drain(wakes.last()) == Waited::Check
    }
}

/// What takes an idle watch to a look, wake-up by wake-up: one request for a check; or a filesystem
/// event or the end of the wait, then any number of filesystem events, then anything else.
pub proof fn triggers_are_requests_events_and_polls(wakes: Seq<Wake>)
    ensures
        triggering(wakes) <==> if wakes.len() == 1 {
            wakes[0] == Wake::Event(Trigger::Nudge)
        } else {
            &&& wakes.len() > 1
            &&& wakes[0] == Wake::Event(Trigger::Filesystem) || wakes[0] == Wake::Elapsed
            &&& forall|i: int|
                0 < i < wakes.len() - 1 ==> #[trigger] wakes[i] == Wake::Event(Trigger::Filesystem)
            &&& wakes.last() != Wake::Event(Trigger::Filesystem)
        },
{
}

/// The events of waking up.
pub open spec fn woken<T, E>(wakes: Seq<Wake>) -> Seq<EventView<T, E>> {
    wakes.map_values(|wake: Wake| EventView::<T, E>::Woken(wake))
}

/// Every trigger leads to a look at the mount, and to nothing else.
pub proof fn every_trigger_leads_to_a_look<T, E>(watch: ReloaderView<T>, wakes: Seq<Wake>)
    requires
        watch.phase is Waiting,
        triggering(wakes),
    ensures
        run(watch, woken::<T, E>(wakes)) == watch.in_phase(PhaseView::Probing(Purpose::Survey)),
        publications(watch, woken::<T, E>(wakes)).len() == 0,
{
    let events = woken::<T, E>(wakes);
    if wakes.len() == 1 {
        assert(events.drop_last() =~= Seq::empty());
        reveal_with_fuel(run, 2);
        reveal_with_fuel(publications, 2);
    } else {
        lemma_draining::<T, E>(watch, wakes.drop_last());
        assert(events.drop_last() =~= woken::<T, E>(wakes.drop_last()));
    }
}

proof fn lemma_draining<T, E>(watch: ReloaderView<T>, wakes: Seq<Wake>)
    requires
        watch.phase is Waiting,
        wakes.len() > 0,
        after_wait(wakes[0]) == Waited::Drain,
        forall|i: int| 0 < i < wakes.len() ==> after_drain(#[trigger] wakes[i]) == Waited::Drain,
    ensures
        run(watch, woken::<T, E>(wakes)) == watch.in_phase(PhaseView::Draining),
        publications(watch, woken::<T, E>(wakes)).len() == 0,
    decreases wakes.len(),
{
    let events = woken::<T, E>(wakes);
    if wakes.len() == 1 {
        assert(events.drop_last() =~= Seq::empty());
        reveal_with_fuel(run, 2);
        reveal_with_fuel(publications, 2);
    } else {
        lemma_draining::<T, E>(watch, wakes.drop_last());
        assert(events.drop_last() =~= woken::<T, E>(wakes.drop_last()));
    }
}

/// A failed re-parse is retried: the watch keeps its value and its hash, so on any trigger the
/// same content is parsed again.
pub proof fn a_failed_reparse_is_retried<T, E>(
    watch: ReloaderView<T>,
    data: DataEntryView,
    names: Seq<Seq<u8>>,
    values: Seq<Seq<u8>>,
    data_parsed: DataEntryView,
    cause: E,
    wakes: Seq<Wake>,
    data_again: DataEntryView,
)
    requires
        watch.phase == PhaseView::Probing(Purpose::Survey),
        watch.current is Some,
        values.len() == key_names(names).len(),
        content_hash(key_names(names), values) != watch.last_hash,
        triggering(wakes),
    ensures
        ({
            let failed = run(
                watch,
                look::<T, E>(data, names, values) + seq![
                    EventView::<T, E>::Probed(data_parsed),
                    EventView::Parsed(Err(cause)),
                ],
            );
            &&& failed == watch.in_phase(PhaseView::Waiting)
            &&& run(failed, woken::<T, E>(wakes) + look::<T, E>(data_again, names, values))
                == watch.in_phase(
                PhaseView::Probing(Purpose::Parse(content_hash(key_names(names), values))),
            )
        }),
{
    let first = look::<T, E>(data, names, values);
    let parse = seq![EventView::<T, E>::Probed(data_parsed), EventView::Parsed(Err(cause))];
    only_changed_content_is_parsed::<T, E>(watch, data, names, values);
    lemma_run_concat(watch, first, parse);
    assert(parse.drop_last() =~= seq![parse[0]]);
    assert(seq![parse[0]].drop_last() =~= Seq::empty());
    reveal_with_fuel(run, 3);
    let failed = run(watch, first + parse);
    let again = look::<T, E>(data_again, names, values);
    lemma_run_concat(failed, woken::<T, E>(wakes), again);
    every_trigger_leads_to_a_look::<T, E>(failed, wakes);
    only_changed_content_is_parsed::<T, E>(
        run(failed, woken::<T, E>(wakes)),
        data_again,
        names,
        values,
    );
}

/// A re-sync with identical content wakes nobody: whatever the trigger, the new target of the
/// `..data` symlink, the order of the listing and its internal names, a watch that last saw the
/// same keys with the same values is left as it was, and nothing is handed out.
pub proof fn identical_content_wakes_nobody<T, E>(
    watch: ReloaderView<T>,
    wakes: Seq<Wake>,
    data: DataEntryView,
    names: Seq<Seq<u8>>,
    relisted: Seq<Seq<u8>>,
    values: Seq<Seq<u8>>,
)
    requires
        watch.phase is Waiting,
        watch.current is Some,
        triggering(wakes),
        values.len() == key_names(names).len(),
        watch.last_hash == content_hash(key_names(names), values),
        key_names(relisted) == key_names(names),
    ensures
        run(watch, woken::<T, E>(wakes) + look::<T, E>(data, relisted, values)) == watch,
        publications(
            watch,
            woken::<T, E>(wakes) + look::<T, E>(data, relisted, values),
        ).len() == 0,
{
    lemma_run_concat(watch, woken::<T, E>(wakes), look::<T, E>(data, relisted, values));
    every_trigger_leads_to_a_look::<T, E>(watch, wakes);
    only_changed_content_is_parsed::<T, E>(
        run(watch, woken::<T, E>(wakes)),
        data,
        relisted,
        values,
    );
}

/// A rotation that lands between the first look and the first parse is not missed: whatever the
/// parser saw, the next look compares with the content of the first one, and where the content
/// is another by then, the mount is parsed again.
pub proof fn a_rotation_during_the_start_is_noticed<T, E>(
    root: Seq<u8>,
    fallback_poll: Option<Interval>,
    data: DataEntryView,
    names: Seq<Seq<u8>>,
    values: Seq<Seq<u8>>,
    data_parsed: DataEntryView,
    value: T,
    wakes: Seq<Wake>,
    new_data: DataEntryView,
    new_names: Seq<Seq<u8>>,
    new_values: Seq<Seq<u8>>,
)
    requires
        values.len() == key_names(names).len(),
        triggering(wakes),
        new_values.len() == key_names(new_names).len(),
        content_hash(key_names(names), values) != content_hash(key_names(new_names), new_values),
    ensures
        run(
            begun::<T>(root, fallback_poll),
            start::<T, E>(data, names, values, data_parsed, value) + (woken::<T, E>(wakes) + look::<
                T,
                E,
            >(new_data, new_names, new_values)),
        ).phase == PhaseView::Probing(
            Purpose::Parse(content_hash(key_names(new_names), new_values)),
        ),
{
    let start = start::<T, E>(data, names, values, data_parsed, value);
    let triggered = woken::<T, E>(wakes);
    let new_look = look::<T, E>(new_data, new_names, new_values);
    let watch = begun::<T>(root, fallback_poll);
    the_start_hashes_before_it_parses::<T, E>(
        root,
        fallback_poll,
        data,
        names,
        values,
        data_parsed,
        value,
    );
    let waiting = run(watch, start);
    lemma_run_concat(watch, start, triggered + new_look);
    lemma_run_concat(waiting, triggered, new_look);
    every_trigger_leads_to_a_look::<T, E>(waiting, wakes);
    only_changed_content_is_parsed::<T, E>(
        run(waiting, triggered),
        new_data,
        new_names,
        new_values,
    );
}

/// Only a collision of the hasher hides a change: where a watch has started on one content and a
/// trigger shows it another, in any key or any value, it goes on to parse the mount again, unless
/// the hasher gives one hash to two different byte strings.
pub proof fn only_a_collision_hides_a_change<T, E>(
    root: Seq<u8>,
    fallback_poll: Option<Interval>,
    data: DataEntryView,
    names: Seq<Seq<u8>>,
    values: Seq<Seq<u8>>,
    data_parsed: DataEntryView,
    value: T,
    wakes: Seq<Wake>,
    new_data: DataEntryView,
    new_names: Seq<Seq<u8>>,
    new_values: Seq<Seq<u8>>,
)
    requires
        values.len() == key_names(names).len(),
        triggering(wakes),
        new_values.len() == key_names(new_names).len(),
        forall|i: int| 0 <= i < values.len() ==> (#[trigger] values[i]).len() <= u64::MAX,
        forall|i: int| 0 <= i < new_values.len() ==> (#[trigger] new_values[i]).len() <= u64::MAX,
        key_names(names) != key_names(new_names) || values != new_values,
    ensures
        ({
            let after = run(
                begun::<T>(root, fallback_poll),
                start::<T, E>(data, names, values, data_parsed, value) + (woken::<T, E>(wakes)
                    + look::<T, E>(new_data, new_names, new_values)),
            );
            ||| after.phase is Probing && after.phase->Probing_0 is Parse
            ||| exists|fed: Seq<Seq<u8>>, new_fed: Seq<Seq<u8>>|
                {
                    &&& #[trigger] DefaultHasher::spec_finish(fed)
                        == #[trigger] DefaultHasher::spec_finish(new_fed)
                    &&& fed.flatten() != new_fed.flatten()
                }
        }),
{
    if content_hash(key_names(names), values) != content_hash(key_names(new_names), new_values) {
        a_rotation_during_the_start_is_noticed::<T, E>(
            root,
            fallback_poll,
            data,
            names,
            values,
            data_parsed,
            value,
            wakes,
            new_data,
            new_names,
            new_values,
        );
    } else {
        let dir = snapshot_dir(root, data);
        surveys_of_different_content_hash_different_bytes::<E>(
            dir,
            key_names(names),
            values,
            dir,
            key_names(new_names),
            new_values,
        );
        a_whole_survey_gives_the_content_hash::<E>(dir, key_names(names), values);
        a_whole_survey_gives_the_content_hash::<E>(dir, key_names(new_names), new_values);
    }
}

/// A request for an immediate check bypasses both the fallback poll wait and the debounce: it
/// leads straight to a look at the mount.
pub proof fn a_nudge_is_checked_at_once<T, E>(watch: ReloaderView<T>)
    requires
        watch.phase is Waiting || watch.phase is Draining,
    ensures
        next(watch, EventView::<T, E>::Woken(Wake::Event(Trigger::Nudge))).0 == watch.in_phase(
            PhaseView::Probing(Purpose::Survey),
        ),
{
}

/// A burst of filesystem events leads to one look at the mount: the events only keep the watch
/// waiting for quiet, and the mount is looked at once nothing comes for the length of the
/// debounce.
pub proof fn a_burst_leads_to_one_look<T, E>(watch: ReloaderView<T>, burst: Seq<Wake>)
    requires
        watch.phase is Waiting,
        burst.len() > 0,
        forall|i: int|
            0 <= i < burst.len() ==> #[trigger] burst[i] == Wake::Event(Trigger::Filesystem),
    ensures
        run(watch, woken::<T, E>(burst)) == watch.in_phase(PhaseView::Draining),
        pending_action(run(watch, woken::<T, E>(burst))) == ActionView::Wait(Some(debounce())),
        run(watch, woken::<T, E>(burst.push(Wake::Elapsed))) == watch.in_phase(
            PhaseView::Probing(Purpose::Survey),
        ),
        publications(watch, woken::<T, E>(burst.push(Wake::Elapsed))).len() == 0,
{
    lemma_draining::<T, E>(watch, burst);
    every_trigger_leads_to_a_look::<T, E>(watch, burst.push(Wake::Elapsed));
}

/// The fallback poll bounds how long a change can be missed: an idle watch waits no longer than
/// the cadence, and when that passes it looks at the mount once the filesystem is quiet. Without
/// a cadence it waits for triggers alone.
pub proof fn an_idle_watch_polls_at_the_cadence<T, E>(watch: ReloaderView<T>)
    requires
        watch.phase is Waiting,
    ensures
        pending_action(watch) == ActionView::Wait(watch.fallback_poll),
        run(
            watch,
            seq![EventView::<T, E>::Woken(Wake::Elapsed), EventView::Woken(Wake::Elapsed)],
        ) == watch.in_phase(PhaseView::Probing(Purpose::Survey)),
{
    let elapsed = EventView::<T, E>::Woken(Wake::Elapsed);
    assert(seq![elapsed, elapsed].drop_last() =~= seq![elapsed]);
    assert(seq![elapsed].drop_last() =~= Seq::empty());
    reveal_with_fuel(run, 3);
}

} // verus!
