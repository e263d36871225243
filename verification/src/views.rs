//! What the views show of the values that cross the boundary of the library: all of it, as it is.

use crate::error::{Error, ErrorView};
use crate::fingerprint::{found_view, Survey, SurveyStep, SurveyStepView};
use crate::mount::{keys_view, listing_view, DataEntry, DataEntryView, Listing, Mount};
use crate::path::FilePath;
use crate::reloader::{Action, ActionView, Event, EventView, Report, ReportView};
use crate::watch::{Interval, Wake};
use vstd::prelude::*;

verus! {

/// An error shows as what it is, with its path, its key and its cause.
pub proof fn errors_show_as_they_are<E>(
    path: FilePath,
    key: String,
    source: std::io::Error,
    cause: E,
)
    ensures
        (Error::<E>::Mount { path, source })@ == (ErrorView::<E>::Mount { path: path@, source }),
        (Error::<E>::Key { key, source })@ == (ErrorView::<E>::Key { key: key@, source }),
        (Error::<E>::Utf8 { key })@ == (ErrorView::<E>::Utf8 { key: key@ }),
        Error::<E>::Parse(cause)@ == ErrorView::<E>::Parse(cause),
        Error::<E>::Watch(cause)@ == ErrorView::<E>::Watch(cause),
{
}

/// What stands at `..data` shows as what it is, a symlink with its target.
pub proof fn data_entries_show_as_they_are(target: FilePath)
    ensures
        DataEntry::Absent@ == DataEntryView::Absent,
        DataEntry::Directory@ == DataEntryView::Directory,
        DataEntry::Link(target)@ == DataEntryView::Link(target@),
{
}

/// A listing shows each of its entries in its place, a name by its bytes and an error as it is.
pub proof fn listings_show_every_entry(listing: Listing)
    ensures
        listing matches Err(source) ==> listing_view(listing) == Err::<
            Seq<Result<Seq<u8>, std::io::Error>>,
            std::io::Error,
        >(source),
        listing matches Ok(entries) ==> {
            &&& listing_view(listing) is Ok
            &&& listing_view(listing)->Ok_0.len() == entries@.len()
            &&& forall|i: int|
                0 <= i < entries@.len() ==> match entries@[i] {
                    Ok(name) => #[trigger] listing_view(listing)->Ok_0[i] == Ok::<
                        Seq<u8>,
                        std::io::Error,
                    >(name@),
                    Err(source) => listing_view(listing)->Ok_0[i] == Err::<
                        Seq<u8>,
                        std::io::Error,
                    >(source),
                }
        },
{
}

/// The bytes of a file show as they are, and so does the error of one that could not be read.
pub proof fn files_show_as_they_are(bytes: Vec<u8>, source: std::io::Error)
    ensures
        found_view(Ok(bytes)) == Ok::<Seq<u8>, std::io::Error>(bytes@),
        found_view(Err(source)) == Err::<Seq<u8>, std::io::Error>(source),
{
}

/// Listed keys show each name in its place.
pub proof fn keys_show_every_name<E>(keys: Vec<String>, error: Error<E>)
    ensures
        keys_view(Ok::<Vec<String>, Error<E>>(keys)) is Ok,
        ({
            let shown = keys_view(Ok::<Vec<String>, Error<E>>(keys))->Ok_0;
            &&& shown.len() == keys@.len()
            &&& forall|i: int| 0 <= i < keys@.len() ==> #[trigger] shown[i] == keys@[i]@
        }),
        keys_view(Err::<Vec<String>, Error<E>>(error)) == Err::<Seq<Seq<char>>, ErrorView<E>>(
            error@,
        ),
{
}

/// A step of a survey shows as what it is.
pub proof fn survey_steps_show_as_they_are<E>(survey: Survey, hash: u64, error: Error<E>)
    ensures
        SurveyStep::<E>::Read(survey)@ == SurveyStepView::<E>::Read(survey@),
        SurveyStep::<E>::Done(hash)@ == SurveyStepView::<E>::Done(hash),
        SurveyStep::<E>::Failed(error)@ == SurveyStepView::<E>::Failed(error@),
{
}

/// An action shows as what it is, with its path, its mount or its time.
pub proof fn actions_show_as_they_are(path: FilePath, mount: Mount, timeout: Option<Interval>)
    ensures
        Action::StartWatcher(path)@ == ActionView::StartWatcher(path@),
        Action::Probe(path)@ == ActionView::Probe(path@),
        Action::List(path)@ == ActionView::List(path@),
        Action::Read(path)@ == ActionView::Read(path@),
        Action::Parse(mount)@ == ActionView::Parse(mount@),
        Action::Publish@ == ActionView::Publish,
        Action::Wait(timeout)@ == ActionView::Wait(timeout),
        Action::Stop@ == ActionView::Stop,
{
}

/// An event shows as what it is, with all that it brings.
pub proof fn events_show_as_they_are<T, E>(
    started: Result<(), E>,
    data: DataEntry,
    listing: Listing,
    found: Result<Vec<u8>, std::io::Error>,
    parsed: Result<T, E>,
    wake: Wake,
)
    ensures
        Event::<T, E>::Watching(started)@ == EventView::<T, E>::Watching(started),
        Event::<T, E>::Probed(data)@ == EventView::<T, E>::Probed(data@),
        Event::<T, E>::Listed(listing)@ == EventView::<T, E>::Listed(listing_view(listing)),
        Event::<T, E>::Found(found)@ == EventView::<T, E>::Found(found_view(found)),
        Event::<T, E>::Parsed(parsed)@ == EventView::<T, E>::Parsed(parsed),
        Event::<T, E>::Published@ == EventView::<T, E>::Published,
        Event::<T, E>::Woken(wake)@ == EventView::<T, E>::Woken(wake),
{
}

/// A report shows as what it is, with its error.
pub proof fn reports_show_as_they_are<E>(error: Error<E>, cause: E)
    ensures
        Report::<E>::Nothing@ == ReportView::<E>::Nothing,
        Report::<E>::Started@ == ReportView::<E>::Started,
        Report::<E>::Reloaded@ == ReportView::<E>::Reloaded,
        Report::<E>::Unreadable(error)@ == ReportView::<E>::Unreadable(error@),
        Report::<E>::KeptPrevious(cause)@ == ReportView::<E>::KeptPrevious(cause),
        Report::<E>::Failed(error)@ == ReportView::<E>::Failed(error@),
{
}

} // verus!
