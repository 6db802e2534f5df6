//! What holds of every run of the pipeline.
//!
//! A run is the pipeline fed one event after the other. The laws below speak
//! of the entries that a run sends and of the phase in which it ends.

use crate::entry::{entry_of, law_stripped_name, name_of, strip_suffix, suffix, PasswordView};
use crate::path::{file_name, lemma_last_component_of_join};
use crate::pipeline::{
    pipeline_step, started, subscription, ActionView, EventView, FailureView, PhaseView,
    PipelineView, WatchEventView,
};
use vstd::prelude::*;

verus! {

/// What the scan comes upon: the path of a file, or the reason why a match
/// could not be read.
pub type Match = Result<Seq<char>, Seq<char>>;

/// The pipeline after `events`, one after the other, and what it asked for on
/// the way.
pub open spec fn run(pipeline: PipelineView, events: Seq<EventView>) -> (
    PipelineView,
    Seq<ActionView>,
)
    decreases events.len(),
{
    if events.len() == 0 {
        (pipeline, Seq::empty())
    } else {
        let (before, actions) = run(pipeline, events.drop_last());
        let (after, action) = pipeline_step(before, events.last());
        (after, actions.push(action))
    }
}

/// The entries that `actions` send, in their order.
pub open spec fn sent(actions: Seq<ActionView>) -> Seq<PasswordView>
    decreases actions.len(),
{
    if actions.len() == 0 {
        Seq::empty()
    } else {
        match actions.last() {
            ActionView::Send(entry) => sent(actions.drop_last()).push(entry),
            _ => sent(actions.drop_last()),
        }
    }
}

/// The entries of the files among `matches`, in their order.
pub open spec fn found(matches: Seq<Match>) -> Seq<PasswordView>
    decreases matches.len(),
{
    if matches.len() == 0 {
        Seq::empty()
    } else {
        match matches.last() {
            Ok(path) => found(matches.drop_last()).push(entry_of(path)),
            Err(_) => found(matches.drop_last()),
        }
    }
}

/// The events of a scan that comes upon `matches` while the sink takes every
/// entry: each file is matched and its entry delivered, each match that
/// cannot be read fails.
pub open spec fn scan_events(matches: Seq<Match>) -> Seq<EventView>
    decreases matches.len(),
{
    if matches.len() == 0 {
        Seq::empty()
    } else {
        match matches.last() {
            Ok(path) => scan_events(matches.drop_last()).push(EventView::Matched(path)).push(
                EventView::Delivered,
            ),
            Err(cause) => scan_events(matches.drop_last()).push(EventView::MatchFailed(cause)),
        }
    }
}

/// Every file among `matches` has a file name.
pub open spec fn all_named(matches: Seq<Match>) -> bool {
    forall|i: int|
        0 <= i < matches.len() ==> (#[trigger] matches[i] matches Ok(path) ==> file_name(path)
            is Some)
}

/// The matches of a scan that reads every one of `paths`.
pub open spec fn readable(paths: Seq<Seq<char>>) -> Seq<Match> {
    Seq::new(paths.len(), |i: int| Ok(paths[i]))
}

/// A run goes on from where the run before it ended.
pub proof fn lemma_run_one_more(pipeline: PipelineView, events: Seq<EventView>, event: EventView)
    ensures
        run(pipeline, events.push(event)) == ({
            let (before, actions) = run(pipeline, events);
            let (after, action) = pipeline_step(before, event);
            (after, actions.push(action))
        }),
{
    assert(events.push(event).drop_last() =~= events);
}

/// One more action adds its entry to those sent, if it sends one.
pub proof fn lemma_sent_one_more(actions: Seq<ActionView>, action: ActionView)
    ensures
        sent(actions.push(action)) == match action {
            ActionView::Send(entry) => sent(actions).push(entry),
            _ => sent(actions),
        },
{
    assert(actions.push(action).drop_last() =~= actions);
}

/// A scan sends the entry of every file it comes upon, in the order of the
/// matches, passes over every match that cannot be read, and goes on scanning.
pub proof fn law_scan_sends_what_it_found(root: Seq<char>, matches: Seq<Match>)
    requires
        all_named(matches),
    ensures
        run(started(root), scan_events(matches)).0 == started(root),
        sent(run(started(root), scan_events(matches)).1) == found(matches),
    decreases matches.len(),
{
    if matches.len() > 0 {
        let earlier = matches.drop_last();
        assert forall|i: int| 0 <= i < earlier.len() implies (#[trigger] earlier[i] matches Ok(
            path,
        ) ==> file_name(path) is Some) by {
            assert(earlier[i] == matches[i]);
        }
        law_scan_sends_what_it_found(root, earlier);
        let events = scan_events(earlier);
        let actions = run(started(root), events).1;
        match matches.last() {
            Ok(path) => {
                let matched = EventView::Matched(path);
                lemma_run_one_more(started(root), events, matched);
                lemma_run_one_more(started(root), events.push(matched), EventView::Delivered);
                lemma_sent_one_more(actions, ActionView::Send(entry_of(path)));
                lemma_sent_one_more(
                    actions.push(ActionView::Send(entry_of(path))),
                    ActionView::NextMatch,
                );
            },
            Err(cause) => {
                lemma_run_one_more(started(root), events, EventView::MatchFailed(cause));
                lemma_sent_one_more(actions, ActionView::SkipMatch(cause));
            },
        }
    }
}

/// Every entry that is there is sent before the watch begins: when the scan
/// has come upon all `matches` and finds no more, the entries of the files
/// among them have been sent, and only now the pipeline asks for the watch on
/// the root.
pub proof fn law_scan_precedes_watch(root: Seq<char>, matches: Seq<Match>)
    requires
        all_named(matches),
    ensures
        ({
            let (pipeline, actions) = run(
                started(root),
                scan_events(matches).push(EventView::Exhausted),
            );
            &&& pipeline.phase == PhaseView::Subscribing
            &&& actions.last() == subscription(root)
            &&& sent(actions.drop_last()) == found(matches)
            &&& sent(actions) == found(matches)
        }),
{
    law_scan_sends_what_it_found(root, matches);
    let events = scan_events(matches);
    let actions = run(started(root), events).1;
    lemma_run_one_more(started(root), events, EventView::Exhausted);
    lemma_sent_one_more(actions, subscription(root));
    assert(actions.push(subscription(root)).drop_last() =~= actions);
}

/// A scan that can read all it comes upon finds as many entries as there are
/// files, one for each, in their order.
pub proof fn law_one_entry_for_each_file(paths: Seq<Seq<char>>)
    ensures
        found(readable(paths)).len() == paths.len(),
        forall|i: int|
            0 <= i < paths.len() ==> #[trigger] found(readable(paths))[i] == entry_of(paths[i]),
    decreases paths.len(),
{
    if paths.len() > 0 {
        law_one_entry_for_each_file(paths.drop_last());
        assert(readable(paths).drop_last() =~= readable(paths.drop_last()));
    }
}

/// Every path in `paths` has a file name.
pub open spec fn all_have_names(paths: Seq<Seq<char>>) -> bool {
    forall|i: int| 0 <= i < paths.len() ==> file_name(#[trigger] paths[i]) is Some
}

/// A full scan of a store sends exactly one entry for each of its files, in
/// the order in which it came upon them, each under the name of its file, and
/// all of them before the watch is asked for. For a file `<name>.gpg` the
/// name of the entry, followed by `.gpg`, is the file name.
pub proof fn law_full_scan_sends_every_entry(root: Seq<char>, paths: Seq<Seq<char>>)
    requires
        all_have_names(paths),
    ensures
        ({
            let (pipeline, actions) = run(
                started(root),
                scan_events(readable(paths)).push(EventView::Exhausted),
            );
            &&& pipeline.phase == PhaseView::Subscribing
            &&& actions.last() == subscription(root)
            &&& sent(actions.drop_last()).len() == paths.len()
            &&& forall|i: int|
                0 <= i < paths.len() ==> {
                    &&& (#[trigger] sent(actions.drop_last())[i]).name == name_of(paths[i])
                    &&& sent(actions.drop_last())[i].meta == Seq::<char>::empty()
                    &&& sent(actions.drop_last())[i].filename == paths[i]
                    &&& suffix().is_suffix_of(file_name(paths[i]).unwrap()) ==> sent(
                        actions.drop_last(),
                    )[i].name + suffix() == file_name(paths[i]).unwrap()
                }
        }),
{
    assert(all_named(readable(paths))) by {
        assert forall|i: int| 0 <= i < readable(paths).len() implies (#[trigger] readable(
            paths,
        )[i] matches Ok(path) ==> file_name(path) is Some) by {
            assert(file_name(paths[i]) is Some);
        }
    }
    law_scan_precedes_watch(root, readable(paths));
    law_one_entry_for_each_file(paths);
    assert forall|i: int| 0 <= i < paths.len() implies #[trigger] strip_suffix(
        file_name(paths[i]).unwrap(),
    ).is_prefix_of(file_name(paths[i]).unwrap()) && (suffix().is_suffix_of(
        file_name(paths[i]).unwrap(),
    ) ==> name_of(paths[i]) + suffix() == file_name(paths[i]).unwrap()) by {
        law_stripped_name(file_name(paths[i]).unwrap());
    }
}

/// The file `<stem>.gpg` in a directory gives the name `<stem>`, whatever the
/// stem is, as long as it holds no separator.
pub proof fn law_name_is_stem(dir: Seq<char>, stem: Seq<char>)
    requires
        dir.len() == 0 || dir.last() == '/',
        forall|i: int| 0 <= i < stem.len() ==> stem[i] != '/',
    ensures
        file_name(dir + (stem + suffix())) == Some(stem + suffix()),
        name_of(dir + (stem + suffix())) == stem,
{
    let name = stem + suffix();
    assert(name.len() == stem.len() + 4);
    assert(name.subrange(name.len() - 4, name.len() as int) =~= suffix());
    assert(name.take(name.len() - 4) =~= stem);
    assert forall|i: int| 0 <= i < name.len() implies name[i] != '/' by {
        if i >= stem.len() {
            assert(name[i] == suffix()[i - stem.len()]);
        }
    }
    assert(seq!['.'].len() == 1 && seq!['.', '.'].len() == 2);
    lemma_last_component_of_join(dir, name);
    assert(strip_suffix(name) == stem);
}

/// The name of an entry whose file name ends in `.gpg`, followed by `.gpg`,
/// is that file name.
pub proof fn law_name_and_suffix_make_the_file_name(path: Seq<char>)
    requires
        file_name(path) matches Some(base) && suffix().is_suffix_of(base),
    ensures
        name_of(path) + suffix() == file_name(path).unwrap(),
        name_of(path).len() == file_name(path).unwrap().len() - 4,
{
    law_stripped_name(file_name(path).unwrap());
}

/// One match that cannot be read does not end the scan and costs no entry:
/// the scan goes on, and what it sends is what it would have sent without
/// that match.
pub proof fn law_scan_survives_unreadable_match(
    root: Seq<char>,
    before: Seq<Match>,
    cause: Seq<char>,
    after: Seq<Match>,
)
    requires
        all_named(before),
        all_named(after),
    ensures
        ({
            let with = run(started(root), scan_events(before.push(Err(cause)) + after));
            let without = run(started(root), scan_events(before + after));
            &&& with.0.phase == PhaseView::Scanning
            &&& sent(with.1) == sent(without.1)
            &&& sent(with.1) == found(before + after)
        }),
{
    let with = before.push(Err(cause)) + after;
    let without = before + after;
    assert forall|i: int| 0 <= i < with.len() implies (#[trigger] with[i] matches Ok(path)
        ==> file_name(path) is Some) by {
        if i < before.len() {
            assert(with[i] == before[i]);
        } else if i > before.len() {
            assert(with[i] == after[i - before.len() - 1]);
        }
    }
    assert forall|i: int| 0 <= i < without.len() implies (#[trigger] without[i] matches Ok(
        path,
    ) ==> file_name(path) is Some) by {
        if i < before.len() {
            assert(without[i] == before[i]);
        } else {
            assert(without[i] == after[i - before.len()]);
        }
    }
    law_scan_sends_what_it_found(root, with);
    law_scan_sends_what_it_found(root, without);
    law_unreadable_match_is_passed_over(before, cause, after);
}

/// A match that cannot be read changes nothing in what the scan finds: the
/// entries are those of the matches before it and after it.
pub proof fn law_unreadable_match_is_passed_over(
    before: Seq<Match>,
    cause: Seq<char>,
    after: Seq<Match>,
)
    ensures
        found(before.push(Err(cause)) + after) == found(before + after),
    decreases after.len(),
{
    if after.len() == 0 {
        assert(before.push(Err(cause)) + after =~= before.push(Err(cause)));
        assert(before.push(Err(cause)).drop_last() =~= before);
        assert(before + after =~= before);
    } else {
        law_unreadable_match_is_passed_over(before, cause, after.drop_last());
        let with = before.push(Err(cause)) + after;
        let without = before + after;
        assert(with.drop_last() =~= before.push(Err(cause)) + after.drop_last());
        assert(without.drop_last() =~= before + after.drop_last());
        assert(with.last() == after.last());
        assert(without.last() == after.last());
    }
}

/// What a scan sends depends on its matches alone: two scans that come upon
/// the same matches send the same entries in the same order, whatever the
/// roots of their pipelines.
pub proof fn law_scan_is_repeatable(
    first_root: Seq<char>,
    second_root: Seq<char>,
    matches: Seq<Match>,
)
    requires
        all_named(matches),
    ensures
        sent(run(started(first_root), scan_events(matches)).1) == sent(
            run(started(second_root), scan_events(matches)).1,
        ),
{
    law_scan_sends_what_it_found(first_root, matches);
    law_scan_sends_what_it_found(second_root, matches);
}

/// A pipeline that has failed stays failed: whatever comes, it moves no more,
/// says again why it stopped, and sends nothing.
pub proof fn law_failure_is_final(pipeline: PipelineView, events: Seq<EventView>)
    requires
        pipeline.phase is Terminated,
    ensures
        run(pipeline, events).0 == pipeline,
        run(pipeline, events).1.len() == events.len(),
        forall|i: int|
            0 <= i < events.len() ==> #[trigger] run(pipeline, events).1[i] == ActionView::Stop(
                pipeline.phase->Terminated_0,
            ),
        sent(run(pipeline, events).1) == Seq::<PasswordView>::empty(),
    decreases events.len(),
{
    if events.len() > 0 {
        let earlier = events.drop_last();
        law_failure_is_final(pipeline, earlier);
        lemma_run_one_more(pipeline, earlier, events.last());
        assert(earlier.push(events.last()) =~= events);
        lemma_sent_one_more(
            run(pipeline, earlier).1,
            ActionView::Stop(pipeline.phase->Terminated_0),
        );
    }
}

/// A sink that closes ends the scan: when the entry of a match cannot be
/// delivered, the pipeline fails with `SinkClosed`, and nothing that comes
/// after makes it fetch a match, watch the root or send an entry.
pub proof fn law_closed_sink_ends_scan(
    root: Seq<char>,
    matches: Seq<Match>,
    path: Seq<char>,
    later: Seq<EventView>,
)
    requires
        all_named(matches),
        file_name(path) is Some,
    ensures
        ({
            let until_closed = scan_events(matches).push(EventView::Matched(path)).push(
                EventView::SinkClosed,
            );
            let (pipeline, actions) = run(started(root), until_closed);
            &&& pipeline.phase == PhaseView::Terminated(FailureView::SinkClosed)
            &&& actions.last() == ActionView::Stop(FailureView::SinkClosed)
            &&& run(pipeline, later).0 == pipeline
            &&& forall|i: int|
                0 <= i < later.len() ==> #[trigger] run(pipeline, later).1[i] == ActionView::Stop(
                    FailureView::SinkClosed,
                )
        }),
{
    law_scan_sends_what_it_found(root, matches);
    let events = scan_events(matches);
    let matched = EventView::Matched(path);
    lemma_run_one_more(started(root), events, matched);
    lemma_run_one_more(started(root), events.push(matched), EventView::SinkClosed);
    let pipeline = run(started(root), events.push(matched).push(EventView::SinkClosed)).0;
    law_failure_is_final(pipeline, later);
}

/// While the root is watched, a creation sends exactly one entry, that of the
/// path created, and the watch goes on once the sink took it; no other
/// notification sends anything.
pub proof fn law_watch_sends_creations_only(root: Seq<char>, notification: WatchEventView)
    ensures
        ({
            let watching = PipelineView { root, phase: PhaseView::Watching };
            let (pipeline, actions) = run(
                watching,
                seq![EventView::Notified(notification), EventView::Delivered],
            );
            &&& pipeline == watching
            &&& sent(actions) == match notification {
                WatchEventView::Created(path) => seq![entry_of(path)],
                _ => Seq::empty(),
            }
        }),
{
    let watching = PipelineView { root, phase: PhaseView::Watching };
    let first = EventView::Notified(notification);
    let events = seq![first, EventView::Delivered];
    assert(events =~= Seq::<EventView>::empty().push(first).push(EventView::Delivered));
    lemma_run_one_more(watching, Seq::empty(), first);
    lemma_run_one_more(watching, Seq::<EventView>::empty().push(first), EventView::Delivered);
    let (_, action) = pipeline_step(watching, first);
    lemma_sent_one_more(Seq::empty(), action);
    lemma_sent_one_more(Seq::<ActionView>::empty().push(action), ActionView::Await);
    match notification {
        WatchEventView::Created(path) => {
            assert(sent(Seq::<ActionView>::empty()).push(entry_of(path)) =~= seq![entry_of(path)]);
        },
        _ => {},
    }
}

} // verus!
