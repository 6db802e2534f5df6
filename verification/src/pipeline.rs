//! The pipeline that finds the entries of a store: first every entry that is
//! there, after that every entry that is created.
//!
//! The pipeline itself reads no directory, waits for nothing and sends
//! nothing. It is told what happened (an `Event`) and answers with what is to
//! be done next (an `Action`). Whoever runs it performs the action and comes
//! back with the event that the action led to.

use crate::entry::{entry_of, to_password, Password, PasswordView};
use crate::path::{file_name, join, join_paths};
use vstd::prelude::*;
use vstd::string::StringExecFns;

verus! {

/// How long creations must have settled before they are reported, in seconds.
pub const DEBOUNCE_SECONDS: u64 = 2;

/// What the watch on the root reports.
#[derive(Debug, PartialEq, Eq)]
pub enum WatchEvent {
    /// Something was created at the path.
    Created(String),
    /// What is at the path was changed.
    Modified(String),
    /// What was at the path is gone.
    Removed(String),
    /// The notification was in error; the text says why.
    Error(String),
    /// Anything else.
    Other,
}

/// A `WatchEvent` as plain text.
pub enum WatchEventView {
    Created(Seq<char>),
    Modified(Seq<char>),
    Removed(Seq<char>),
    Error(Seq<char>),
    Other,
}

impl View for WatchEvent {
    type V = WatchEventView;

    open spec fn view(&self) -> WatchEventView {
        match self {
            WatchEvent::Created(path) => WatchEventView::Created(path@),
            WatchEvent::Modified(path) => WatchEventView::Modified(path@),
            WatchEvent::Removed(path) => WatchEventView::Removed(path@),
            WatchEvent::Error(cause) => WatchEventView::Error(cause@),
            WatchEvent::Other => WatchEventView::Other,
        }
    }
}

/// What happened outside the pipeline.
#[derive(Debug, PartialEq, Eq)]
pub enum Event {
    /// The scan found the file at this path.
    Matched(String),
    /// The scan could not read one of its matches; the text says why.
    MatchFailed(String),
    /// The scan has no more matches.
    Exhausted,
    /// The sink took the entry that was sent.
    Delivered,
    /// The sink is closed: nobody receives entries any more.
    SinkClosed,
    /// The root is now watched.
    Subscribed,
    /// The root could not be watched; the text says why.
    SubscribeFailed(String),
    /// The watch reported something.
    Notified(WatchEvent),
}

/// An `Event` as plain text.
pub enum EventView {
    Matched(Seq<char>),
    MatchFailed(Seq<char>),
    Exhausted,
    Delivered,
    SinkClosed,
    Subscribed,
    SubscribeFailed(Seq<char>),
    Notified(WatchEventView),
}

impl View for Event {
    type V = EventView;

    open spec fn view(&self) -> EventView {
        match self {
            Event::Matched(path) => EventView::Matched(path@),
            Event::MatchFailed(cause) => EventView::MatchFailed(cause@),
            Event::Exhausted => EventView::Exhausted,
            Event::Delivered => EventView::Delivered,
            Event::SinkClosed => EventView::SinkClosed,
            Event::Subscribed => EventView::Subscribed,
            Event::SubscribeFailed(cause) => EventView::SubscribeFailed(cause@),
            Event::Notified(notification) => EventView::Notified(notification@),
        }
    }
}

/// Why the pipeline came to an end.
#[derive(Debug, PartialEq, Eq)]
pub enum Failure {
    /// Nobody receives entries any more.
    SinkClosed,
    /// The root could not be watched; the text says why.
    WatchSetup(String),
}

/// A `Failure` as plain text.
pub enum FailureView {
    SinkClosed,
    WatchSetup(Seq<char>),
}

impl View for Failure {
    type V = FailureView;

    open spec fn view(&self) -> FailureView {
        match self {
            Failure::SinkClosed => FailureView::SinkClosed,
            Failure::WatchSetup(cause) => FailureView::WatchSetup(cause@),
        }
    }
}

impl Clone for Failure {
    fn clone(&self) -> (copy: Failure)
        ensures
            copy@ == self@,
    {
        match self {
            Failure::SinkClosed => Failure::SinkClosed,
            Failure::WatchSetup(cause) => Failure::WatchSetup(cause.clone()),
        }
    }
}

/// What is to be done next.
#[derive(Debug, PartialEq, Eq)]
pub enum Action {
    /// Begin to list the files that match the pattern, and fetch the first.
    Scan { pattern: String },
    /// Fetch the next match of the scan.
    NextMatch,
    /// Report that a match could not be read, and fetch the next one.
    SkipMatch(String),
    /// Send the entry to the sink.
    Send(Password),
    /// Watch the root for changes. `debounce_seconds` is how long changes must
    /// have settled before they are reported; `recursive` asks for everything
    /// below the root.
    Subscribe { root: String, debounce_seconds: u64, recursive: bool },
    /// Wait for the next notification of the watch.
    Await,
    /// Report that a notification was in error, and wait for the next one.
    SkipNotification(String),
    /// Give up: the pipeline has failed.
    Stop(Failure),
}

/// An `Action` as plain text.
pub enum ActionView {
    Scan { pattern: Seq<char> },
    NextMatch,
    SkipMatch(Seq<char>),
    Send(PasswordView),
    Subscribe { root: Seq<char>, debounce_seconds: u64, recursive: bool },
    Await,
    SkipNotification(Seq<char>),
    Stop(FailureView),
}

impl View for Action {
    type V = ActionView;

    open spec fn view(&self) -> ActionView {
        match self {
            Action::Scan { pattern } => ActionView::Scan { pattern: pattern@ },
            Action::NextMatch => ActionView::NextMatch,
            Action::SkipMatch(cause) => ActionView::SkipMatch(cause@),
            Action::Send(entry) => ActionView::Send(entry@),
            Action::Subscribe { root, debounce_seconds, recursive } => ActionView::Subscribe {
                root: root@,
                debounce_seconds: *debounce_seconds,
                recursive: *recursive,
            },
            Action::Await => ActionView::Await,
            Action::SkipNotification(cause) => ActionView::SkipNotification(cause@),
            Action::Stop(failure) => ActionView::Stop(failure@),
        }
    }
}

/// How far the pipeline has come.
#[derive(Debug, PartialEq, Eq)]
pub enum Phase {
    /// The entries that are there are being listed.
    Scanning,
    /// The scan is done; the root is not watched yet.
    Subscribing,
    /// The root is watched.
    Watching,
    /// The pipeline has failed and does nothing more.
    Terminated(Failure),
}

/// A `Phase` as plain text.
pub enum PhaseView {
    Scanning,
    Subscribing,
    Watching,
    Terminated(FailureView),
}

impl View for Phase {
    type V = PhaseView;

    open spec fn view(&self) -> PhaseView {
        match self {
            Phase::Scanning => PhaseView::Scanning,
            Phase::Subscribing => PhaseView::Subscribing,
            Phase::Watching => PhaseView::Watching,
            Phase::Terminated(failure) => PhaseView::Terminated(failure@),
        }
    }
}

/// The pipeline: the root of the store, and how far the work has come.
#[derive(Debug, PartialEq, Eq)]
pub struct Pipeline {
    /// The root directory of the store.
    pub root: String,
    /// How far the pipeline has come.
    pub phase: Phase,
}

/// A `Pipeline` as plain text.
pub struct PipelineView {
    pub root: Seq<char>,
    pub phase: PhaseView,
}

impl View for Pipeline {
    type V = PipelineView;

    open spec fn view(&self) -> PipelineView {
        PipelineView { root: self.root@, phase: self.phase@ }
    }
}

/// The pattern of the scan: every file below `root`, at any depth, whose name
/// ends in `.gpg`.
pub open spec fn scan_pattern(root: Seq<char>) -> Seq<char> {
    join(root, "**/*.gpg"@)
}

/// The request to watch `root`: everything below it, with the fixed delay.
pub open spec fn subscription(root: Seq<char>) -> ActionView {
    ActionView::Subscribe { root, debounce_seconds: DEBOUNCE_SECONDS, recursive: true }
}

/// One step of the scan.
///
/// A match becomes an entry that is sent. A match that could not be read is
/// reported and passed over. Once the sink took an entry the next match is
/// fetched. A closed sink ends the pipeline. With no match left the scan is
/// over and the root is to be watched. Whatever else comes has nothing to do
/// with the scan: the next match is asked for again.
pub open spec fn scan_step(root: Seq<char>, event: EventView) -> (PhaseView, ActionView) {
    match event {
        EventView::Matched(path) => (PhaseView::Scanning, ActionView::Send(entry_of(path))),
        EventView::MatchFailed(cause) => (PhaseView::Scanning, ActionView::SkipMatch(cause)),
        EventView::Exhausted => (PhaseView::Subscribing, subscription(root)),
        EventView::SinkClosed => (
            PhaseView::Terminated(FailureView::SinkClosed),
            ActionView::Stop(FailureView::SinkClosed),
        ),
        _ => (PhaseView::Scanning, ActionView::NextMatch),
    }
}

/// One step of the watch; `subscribed` says whether the root is watched yet.
///
/// Before it is: once the watch stands the first notification is awaited; if
/// it cannot be set up the pipeline ends; whatever else comes, the watch is
/// asked for again. After it is: whatever was created becomes an entry that is
/// sent, whether or not its name ends in `.gpg`; a notification in error is
/// reported and passed over; a closed sink ends the pipeline; after anything
/// else the next notification is awaited.
pub open spec fn watch_step(root: Seq<char>, subscribed: bool, event: EventView) -> (
    PhaseView,
    ActionView,
) {
    if subscribed {
        match event {
            EventView::Notified(WatchEventView::Created(path)) => (
                PhaseView::Watching,
                ActionView::Send(entry_of(path)),
            ),
            EventView::Notified(WatchEventView::Error(cause)) => (
                PhaseView::Watching,
                ActionView::SkipNotification(cause),
            ),
            EventView::SinkClosed => (
                PhaseView::Terminated(FailureView::SinkClosed),
                ActionView::Stop(FailureView::SinkClosed),
            ),
            _ => (PhaseView::Watching, ActionView::Await),
        }
    } else {
        match event {
            EventView::Subscribed => (PhaseView::Watching, ActionView::Await),
            EventView::SubscribeFailed(cause) => (
                PhaseView::Terminated(FailureView::WatchSetup(cause)),
                ActionView::Stop(FailureView::WatchSetup(cause)),
            ),
            _ => (PhaseView::Subscribing, subscription(root)),
        }
    }
}

/// One step of the whole pipeline: a step of the scan while it scans, a step
/// of the watch after that. A pipeline that has failed stays as it is and
/// says again why it stopped.
pub open spec fn pipeline_step(pipeline: PipelineView, event: EventView) -> (
    PipelineView,
    ActionView,
) {
    let (phase, action) = match pipeline.phase {
        PhaseView::Scanning => scan_step(pipeline.root, event),
        PhaseView::Subscribing => watch_step(pipeline.root, false, event),
        PhaseView::Watching => watch_step(pipeline.root, true, event),
        PhaseView::Terminated(failure) => (pipeline.phase, ActionView::Stop(failure)),
    };
    (PipelineView { root: pipeline.root, phase }, action)
}

/// The path that a step in `phase` turns into an entry when `event` comes, if
/// it makes an entry at all.
pub open spec fn entry_path(phase: PhaseView, event: EventView) -> Option<Seq<char>> {
    match (phase, event) {
        (PhaseView::Scanning, EventView::Matched(path)) => Some(path),
        (PhaseView::Watching, EventView::Notified(WatchEventView::Created(path))) => Some(path),
        _ => None,
    }
}

/// A pipeline at its start: it scans.
pub open spec fn started(root: Seq<char>) -> PipelineView {
    PipelineView { root, phase: PhaseView::Scanning }
}

/// The request to watch `root`.
fn subscribe_to(root: &str) -> (action: Action)
    ensures
        action@ == subscription(root@),
{
    Action::Subscribe {
        root: String::from_str(root),
        debounce_seconds: DEBOUNCE_SECONDS,
        recursive: true,
    }
}

/// Takes one step of the scan of the store at `root`: says what is to be done
/// after `event`, and in which phase the pipeline is from now on.
pub fn load_passwords(root: &str, event: Event) -> (next: (Phase, Action))
    requires
        event@ matches EventView::Matched(path) ==> file_name(path) is Some,
    ensures
        (next.0@, next.1@) == scan_step(root@, event@),
{
    match event {
        Event::Matched(path) => (Phase::Scanning, Action::Send(to_password(path))),
        Event::MatchFailed(cause) => (Phase::Scanning, Action::SkipMatch(cause)),
        Event::Exhausted => (Phase::Subscribing, subscribe_to(root)),
        Event::SinkClosed => (
            Phase::Terminated(Failure::SinkClosed),
            Action::Stop(Failure::SinkClosed),
        ),
        _ => (Phase::Scanning, Action::NextMatch),
    }
}

/// Takes one step of the watch on the store at `root`: says what is to be done
/// after `event`, and in which phase the pipeline is from now on. `subscribed`
/// says whether the root is watched yet.
pub fn watch_passwords(root: &str, subscribed: bool, event: Event) -> (next: (Phase, Action))
    requires
        subscribed ==> (event@ matches EventView::Notified(WatchEventView::Created(path))
            ==> file_name(path) is Some),
    ensures
        (next.0@, next.1@) == watch_step(root@, subscribed, event@),
{
    if subscribed {
        match event {
            Event::Notified(WatchEvent::Created(path)) => (
                Phase::Watching,
                Action::Send(to_password(path)),
            ),
            Event::Notified(WatchEvent::Error(cause)) => (
                Phase::Watching,
                Action::SkipNotification(cause),
            ),
            Event::SinkClosed => (
                Phase::Terminated(Failure::SinkClosed),
                Action::Stop(Failure::SinkClosed),
            ),
            _ => (Phase::Watching, Action::Await),
        }
    } else {
        match event {
            Event::Subscribed => (Phase::Watching, Action::Await),
            Event::SubscribeFailed(cause) => {
                let failure = Failure::WatchSetup(cause);
                (Phase::Terminated(failure.clone()), Action::Stop(failure))
            },
            _ => (Phase::Subscribing, subscribe_to(root)),
        }
    }
}

impl Pipeline {
    /// Starts the pipeline for the store at `root`: it scans, and the first
    /// thing to do is to list what matches the pattern of the scan.
    pub fn start(root: String) -> (begun: (Pipeline, Action))
        ensures
            begun.0@ == started(root@),
            begun.1@ == (ActionView::Scan { pattern: scan_pattern(root@) }),
    {
        let pattern = join_paths(root.as_str(), "**/*.gpg");
        (Pipeline { root, phase: Phase::Scanning }, Action::Scan { pattern })
    }
}

/// Takes one step of the pipeline: first the scan of what is there, and once
/// that is through, the watch for what is created. Says what is to be done
/// after `event` and moves `pipeline` on.
pub fn load_and_watch_passwords(pipeline: &mut Pipeline, event: Event) -> (action: Action)
    requires
        entry_path(old(pipeline)@.phase, event@) matches Some(path) ==> file_name(path) is Some,
    ensures
        (final(pipeline)@, action@) == pipeline_step(old(pipeline)@, event@),
{
    let (phase, action) = match &pipeline.phase {
        Phase::Scanning => load_passwords(pipeline.root.as_str(), event),
        Phase::Subscribing => watch_passwords(pipeline.root.as_str(), false, event),
        Phase::Watching => watch_passwords(pipeline.root.as_str(), true, event),
        Phase::Terminated(failure) => (
            Phase::Terminated(failure.clone()),
            Action::Stop(failure.clone()),
        ),
    };
    pipeline.phase = phase;
    action
}

} // verus!
