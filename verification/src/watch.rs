//! What to watch and when to look: the watch builder, and the rules for waking up.

use crate::path::FilePath;
use vstd::prelude::*;

verus! {

/// A length of time.
#[derive(Debug, Clone, Copy, PartialEq, Eq, Structural)]
pub struct Interval {
    /// Whole seconds.
    pub secs: u64,
    /// Nanoseconds on top of them.
    pub nanos: u32,
}

/// The length of the debounce, in nanoseconds.
pub const DEBOUNCE_NANOS: u32 = 200_000_000;

/// The default fallback poll cadence, in seconds.
pub const DEFAULT_FALLBACK_POLL_SECS: u64 = 300;

/// How long the filesystem must be quiet after an event before the mount is read again. One
/// volume update produces a burst of events; waiting for its end avoids hashing and parsing
/// several times for one rotation.
pub open spec fn debounce() -> Interval {
    Interval { secs: 0, nanos: DEBOUNCE_NANOS }
}

/// How often the mount is read without an event, unless [`Watch::fallback_poll`] says otherwise:
/// a safety net for a missed event.
pub open spec fn default_fallback_poll() -> Interval {
    Interval { secs: DEFAULT_FALLBACK_POLL_SECS, nanos: 0 }
}

/// What is watched: built by [`watch`], configured, and started with [`Watch::spawn`].
#[derive(Debug)]
pub struct Watch {
    dir: FilePath,
    fallback_poll: Option<Interval>,
}

/// What [`Watch`] says.
#[verifier::ext_equal]
pub struct WatchView {
    /// The mount directory.
    pub dir: Seq<u8>,
    /// The fallback poll cadence, or none.
    pub fallback_poll: Option<Interval>,
}

impl View for Watch {
    type V = WatchView;

    closed spec fn view(&self) -> WatchView {
        WatchView { dir: self.dir@, fallback_poll: self.fallback_poll }
    }
}

impl Clone for Watch {
    fn clone(&self) -> (copy: Watch)
        ensures
            copy@ == self@,
    {
        Watch { dir: self.dir.clone(), fallback_poll: self.fallback_poll }
    }
}

/// Starts to describe a watch on a mounted volume directory: the `mountPath` of a Kubernetes
/// `Secret`, `ConfigMap` or `projected` volume, or any directory.
pub fn watch(dir: FilePath) -> (watch: Watch)
    ensures
        watch@ == (WatchView { dir: dir@, fallback_poll: Some(default_fallback_poll()) }),
        watch@.fallback_poll == Some(Interval { secs: 300, nanos: 0 }),
{
    Watch { dir, fallback_poll: Some(Interval { secs: DEFAULT_FALLBACK_POLL_SECS, nanos: 0 }) }
}

impl Watch {
    /// Sets the fallback poll cadence, or with `None` disables it and relies on events alone.
    #[must_use]
    pub fn fallback_poll(self, interval: Option<Interval>) -> (watch: Watch)
        ensures
            watch@ == (WatchView { dir: self@.dir, fallback_poll: interval }),
    {
        Watch { dir: self.dir, fallback_poll: interval }
    }

    /// The mount directory.
    pub fn dir(&self) -> (dir: &FilePath)
        ensures
            dir@ == self@.dir,
    {
        &self.dir
    }

    /// The mount directory and the fallback poll cadence.
    pub fn into_parts(self) -> (parts: (FilePath, Option<Interval>))
        ensures
            parts.0@ == self@.dir,
            parts.1 == self@.fallback_poll,
    {
        (self.dir, self.fallback_poll)
    }
}

/// Why the mount should be looked at.
#[derive(Debug, Clone, Copy, PartialEq, Eq, Structural)]
pub enum Trigger {
    /// The filesystem watcher reported something; what it reported does not matter.
    Filesystem,
    /// Someone asked for an immediate check.
    Nudge,
}

/// How waiting for a trigger ended.
#[derive(Debug, Clone, Copy, PartialEq, Eq, Structural)]
pub enum Wake {
    /// A trigger came.
    Event(Trigger),
    /// No trigger came in time.
    Elapsed,
    /// No trigger can come any more.
    Closed,
}

/// What to do after waiting.
#[derive(Debug, Clone, Copy, PartialEq, Eq, Structural)]
pub enum Waited {
    /// Stop watching.
    Exit,
    /// Wait for the filesystem to go quiet.
    Drain,
    /// Look at the mount.
    Check,
}

/// What a wake-up of an idle watch leads to: the end when no trigger can come any more, an
/// immediate check when one was asked for, else a check once the filesystem is quiet.
pub open spec fn after_wait(wake: Wake) -> Waited {
    match wake {
        Wake::Closed => Waited::Exit,
        Wake::Event(Trigger::Nudge) => Waited::Check,
        Wake::Event(Trigger::Filesystem) => Waited::Drain,
        Wake::Elapsed => Waited::Drain,
    }
}

/// What a wake-up of a watch that waits for quiet leads to: filesystem events are swallowed, and
/// quiet, a request for an immediate check, or the end of all triggers leads to a check.
pub open spec fn after_drain(wake: Wake) -> Waited {
    match wake {
        Wake::Event(Trigger::Filesystem) => Waited::Drain,
        _ => Waited::Check,
    }
}

/// The times: 200 milliseconds of quiet, and a look every 5 minutes.
pub proof fn the_times_are_those_documented()
    ensures
        debounce().secs == 0,
        debounce().nanos == 200_000_000,
        default_fallback_poll().secs == 5 * 60,
        default_fallback_poll().nanos == 0,
{
}

/// An idle watch ends exactly when no trigger can come any more, and skips the wait for quiet
/// exactly when someone asked for a check; a watch that waits for quiet goes on waiting exactly on
/// a filesystem event, and never ends before it has looked.
pub proof fn wake_ups_lead_where_they_should(wake: Wake)
    ensures
        after_wait(wake) == Waited::Exit <==> wake == Wake::Closed,
        after_wait(wake) == Waited::Check <==> wake == Wake::Event(Trigger::Nudge),
        after_drain(wake) == Waited::Drain <==> wake == Wake::Event(Trigger::Filesystem),
        after_drain(wake) != Waited::Exit,
{
}

/// Decides what a wake-up of an idle watch leads to.
pub fn wait_for_change(wake: Wake) -> (next: Waited)
    ensures
        next == after_wait(wake),
{
    match wake {
        Wake::Closed => Waited::Exit,
        Wake::Event(Trigger::Nudge) => Waited::Check,
        Wake::Event(Trigger::Filesystem) | Wake::Elapsed => Waited::Drain,
    }
}

/// Decides what a wake-up leads to while the burst of events of one rotation is drained.
pub fn drain_debounced(wake: Wake) -> (next: Waited)
    ensures
        next == after_drain(wake),
{
    match wake {
        Wake::Event(Trigger::Filesystem) => Waited::Drain,
        Wake::Event(Trigger::Nudge) | Wake::Elapsed | Wake::Closed => Waited::Check,
    }
}

} // verus!
