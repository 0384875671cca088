//! What the handlers promise together, over any order of their events.

#[allow(unused_imports)]
use crate::pane::{
    apply_write, apply_writes, apply_writes_in_batches, set_to, unset, value_of, OptionMap,
    PaneOption, WriteView,
};
#[allow(unused_imports)]
use crate::roster::{
    append_keeps_other_children, empty_roster_tracks_no_child, entry, fields, has_comma,
    ids_are_told_apart, is_tracked, removal_keeps_other_children, removal_undoes_append,
    removed_child_is_not_tracked, tracks, with_subagent, without_subagent,
};
#[allow(unused_imports)]
use crate::subagent::{
    clear_run_state_writes, drains, roster, settle_options, settle_writes, settles, shell_is_live,
    start_options, start_writes, stop_notification, stop_options, stop_writes, DueNotification,
};
#[allow(unused_imports)]
use crate::teardown::{
    drain_options, drain_writes, has_subagents, without_worktree, worktree_is_gone,
    worktree_remove_options, worktree_remove_pending, worktree_remove_writes,
    worktree_teardown_writes,
};
use vstd::prelude::*;

verus! {

/// An event that a handler answers.
pub ghost enum HookEvent {
    Start { agent_type: Seq<char>, id: Option<Seq<char>> },
    Stop { id: Option<Seq<char>>, children_may_outlive_turn: bool },
    WorktreeRemove,
}

/// The writes that answer an event.
pub open spec fn event_writes(options: OptionMap, event: HookEvent) -> Seq<WriteView> {
    match event {
        HookEvent::Start { agent_type, id } => start_writes(options, agent_type, id),
        HookEvent::Stop { id, children_may_outlive_turn } => stop_writes(
            options,
            id,
            children_may_outlive_turn,
        ),
        HookEvent::WorktreeRemove => worktree_remove_writes(options),
    }
}

/// The options after an event.
pub open spec fn after_event(options: OptionMap, event: HookEvent) -> OptionMap {
    match event {
        HookEvent::Start { agent_type, id } => start_options(options, agent_type, id),
        HookEvent::Stop { id, children_may_outlive_turn } => stop_options(
            options,
            id,
            children_may_outlive_turn,
        ),
        HookEvent::WorktreeRemove => worktree_remove_options(options),
    }
}

/// The options after a run of events.
pub open spec fn after_events(options: OptionMap, events: Seq<HookEvent>) -> OptionMap
    decreases events.len(),
{
    if events.len() == 0 {
        options
    } else {
        after_event(after_events(options, events.drop_last()), events.last())
    }
}

proof fn lemma_apply_one(options: OptionMap, a: WriteView)
    ensures
        apply_writes(options, seq![a]) == apply_write(options, a),
{
    reveal_with_fuel(apply_writes, 2);
    assert(seq![a].drop_last() =~= Seq::<WriteView>::empty());
}

proof fn lemma_apply_two(options: OptionMap, a: WriteView, b: WriteView)
    ensures
        apply_writes(options, seq![a, b]) == apply_write(apply_write(options, a), b),
{
    lemma_apply_one(options, a);
    assert(seq![a, b].drop_last() =~= seq![a]);
}

proof fn lemma_apply_three(options: OptionMap, a: WriteView, b: WriteView, c: WriteView)
    ensures
        apply_writes(options, seq![a, b, c]) == apply_write(
            apply_write(apply_write(options, a), b),
            c,
        ),
{
    lemma_apply_two(options, a, b);
    assert(seq![a, b, c].drop_last() =~= seq![a, b]);
}

proof fn lemma_apply_push(options: OptionMap, writes: Seq<WriteView>, last: WriteView)
    ensures
        apply_writes(options, writes.push(last)) == apply_write(apply_writes(options, writes), last),
{
    assert(writes.push(last).drop_last() =~= writes);
}

proof fn lemma_worktree_teardown(options: OptionMap)
    ensures
        apply_writes(options, worktree_teardown_writes()) == without_worktree(options),
{
    lemma_apply_three(
        options,
        unset(PaneOption::WorktreeName),
        unset(PaneOption::WorktreeBranch),
        unset(PaneOption::Cwd),
    );
}

proof fn lemma_settle(before: OptionMap, options: OptionMap)
    requires
        shell_is_live(before) == shell_is_live(options),
    ensures
        apply_writes(options, settle_writes(before)) == settle_options(options),
{
    let calm = seq![unset(PaneOption::Attention)];
    let rest = if shell_is_live(before) {
        seq![unset(PaneOption::WaitReason), set_to(PaneOption::Status, "background"@)]
    } else {
        clear_run_state_writes().push(set_to(PaneOption::Status, "idle"@))
    };
    let o = options.remove(PaneOption::Attention);
    apply_writes_in_batches(options, calm, rest);
    lemma_apply_one(options, unset(PaneOption::Attention));
    if shell_is_live(before) {
        lemma_apply_two(
            o,
            unset(PaneOption::WaitReason),
            set_to(PaneOption::Status, "background"@),
        );
    } else {
        lemma_apply_two(o, unset(PaneOption::StartedAt), unset(PaneOption::WaitReason));
        lemma_apply_push(o, clear_run_state_writes(), set_to(PaneOption::Status, "idle"@));
    }
    assert(apply_writes(options, settle_writes(before)) =~= settle_options(options));
}

proof fn lemma_stop(options: OptionMap, id: Option<Seq<char>>, outlive: bool)
    ensures
        apply_writes(options, stop_writes(options, id, outlive)) == stop_options(
            options,
            id,
            outlive,
        ),
{
    if drains(options, id) {
        let first = seq![
            unset(PaneOption::Subagents),
            unset(PaneOption::PendingStopNotificationBody),
        ];
        let tail = if settles(options, outlive) {
            settle_writes(options)
        } else {
            Seq::empty()
        };
        let bare = options.remove(PaneOption::Subagents).remove(
            PaneOption::PendingStopNotificationBody,
        );
        apply_writes_in_batches(options, first + drain_writes(options), tail);
        apply_writes_in_batches(options, first, drain_writes(options));
        lemma_apply_two(
            options,
            unset(PaneOption::Subagents),
            unset(PaneOption::PendingStopNotificationBody),
        );
        if worktree_remove_pending(options) {
            lemma_worktree_teardown(bare);
            lemma_apply_push(
                bare,
                worktree_teardown_writes(),
                unset(PaneOption::PendingWorktreeRemove),
            );
        }
        lemma_settle(options, drain_options(bare));
    } else if id is Some && is_tracked(roster(options), id->0) {
        lemma_apply_one(
            options,
            set_to(PaneOption::Subagents, without_subagent(roster(options), id->0)),
        );
    }
}

/// Carrying out the writes that answer an event, in order, on the options that
/// the handler saw gives the options after the event.
pub proof fn writes_amount_to_the_options(options: OptionMap, event: HookEvent)
    ensures
        apply_writes(options, event_writes(options, event)) == after_event(options, event),
{
    match event {
        HookEvent::Start { agent_type, id } => {
            if let Some(id) = id {
                lemma_apply_one(
                    options,
                    set_to(PaneOption::Subagents, with_subagent(roster(options), agent_type, id)),
                );
            }
        },
        HookEvent::Stop { id, children_may_outlive_turn } => {
            lemma_stop(options, id, children_may_outlive_turn);
        },
        HookEvent::WorktreeRemove => {
            if has_subagents(options) {
                lemma_apply_one(options, set_to(PaneOption::PendingWorktreeRemove, "1"@));
            } else {
                lemma_worktree_teardown(options);
            }
        },
    }
}

/// An event that names no child changes nothing and notifies nobody.
pub proof fn event_without_id_is_dropped(
    options: OptionMap,
    agent_type: Seq<char>,
    children_may_outlive_turn: bool,
)
    ensures
        start_options(options, agent_type, None) == options,
        stop_options(options, None, children_may_outlive_turn) == options,
        stop_notification(options, None, children_may_outlive_turn) is None,
{
}

/// The stop of a child that is not on the roster changes nothing and notifies
/// nobody: a late or repeated stop is harmless.
pub proof fn stop_of_untracked_child_is_dropped(
    options: OptionMap,
    id: Seq<char>,
    children_may_outlive_turn: bool,
)
    requires
        !is_tracked(roster(options), id),
    ensures
        stop_options(options, Some(id), children_may_outlive_turn) == options,
        stop_notification(options, Some(id), children_may_outlive_turn) is None,
{
}

/// A child that has stopped is on the roster no more, so a second stop of it is
/// dropped.
pub proof fn stopped_child_is_off_the_roster(
    options: OptionMap,
    id: Seq<char>,
    outlive: bool,
    later_outlive: bool,
)
    ensures
        ({
            let stopped = stop_options(options, Some(id), outlive);
            &&& !is_tracked(roster(stopped), id)
            &&& stop_options(stopped, Some(id), later_outlive) == stopped
            &&& stop_notification(stopped, Some(id), later_outlive) is None
        }),
{
    removed_child_is_not_tracked(roster(options), id);
    empty_roster_tracks_no_child(id);
}

/// A child that has started can be stopped: it is on the roster, and its stop
/// gives back the roster that it found, if it was not on it before. With other
/// children live nothing else has changed in between.
pub proof fn stop_undoes_start(
    options: OptionMap,
    agent_type: Seq<char>,
    id: Seq<char>,
    children_may_outlive_turn: bool,
)
    requires
        !has_comma(agent_type),
        !has_comma(id),
        !is_tracked(roster(options), id),
    ensures
        ({
            let started = start_options(options, agent_type, Some(id));
            let stopped = stop_options(started, Some(id), children_may_outlive_turn);
            &&& is_tracked(roster(started), id)
            &&& roster(stopped) == roster(options)
            &&& has_subagents(options) ==> stopped == options
            &&& !has_subagents(options) ==> drains(started, Some(id))
        }),
{
    let started = start_options(options, agent_type, Some(id));
    removal_undoes_append(roster(options), agent_type, id);
    if has_subagents(options) {
        assert(stop_options(started, Some(id), children_may_outlive_turn) =~= options);
    } else {
        assert(roster(options) =~= Seq::<char>::empty());
    }
}

/// Children are told apart: the stop of one leaves every other on the roster or
/// off it as it was, and no stop drains a roster with another child on it. Left
/// out are ids of which one ends in a colon and the other: an entry of the longer
/// reads as one of the shorter.
pub proof fn stop_keeps_the_other_children(
    options: OptionMap,
    id: Seq<char>,
    other: Seq<char>,
    children_may_outlive_turn: bool,
)
    requires
        id != other,
        !tracks(id, other),
        !tracks(other, id),
    ensures
        is_tracked(
            roster(stop_options(options, Some(id), children_may_outlive_turn)),
            other,
        ) <==> is_tracked(roster(options), other),
        is_tracked(roster(options), other) ==> !drains(options, Some(id)),
{
    let list = roster(options);
    removal_keeps_other_children(list, id, other);
    empty_roster_tracks_no_child(other);
    if is_tracked(list, other) {
        let i = choose|i: int|
            0 <= i < fields(list).len() && tracks(#[trigger] fields(list)[i], other);
        if tracks(fields(list)[i], id) {
            ids_are_told_apart(fields(list)[i], id, other);
        }
    }
    if drains(options, Some(id)) {
        assert(without_subagent(list, id) =~= Seq::<char>::empty());
    }
}

/// The start of a child leaves every other on the roster or off it as it was, if
/// what is written for the child does not read as an entry of the other.
pub proof fn start_keeps_the_other_children(
    options: OptionMap,
    agent_type: Seq<char>,
    id: Seq<char>,
    other: Seq<char>,
)
    requires
        !is_tracked(entry(agent_type, id), other),
    ensures
        is_tracked(roster(start_options(options, agent_type, Some(id))), other) <==> is_tracked(
            roster(options),
            other,
        ),
{
    append_keeps_other_children(roster(options), agent_type, id, other);
}

/// While other children are live, a stop changes the roster and nothing else:
/// what was deferred waits for the last child.
pub proof fn stop_before_the_last_touches_the_roster_only(
    options: OptionMap,
    id: Option<Seq<char>>,
    children_may_outlive_turn: bool,
    option: PaneOption,
)
    requires
        !drains(options, id),
        option != PaneOption::Subagents,
    ensures
        ({
            let stopped = stop_options(options, id, children_may_outlive_turn);
            &&& stopped.contains_key(option) == options.contains_key(option)
            &&& value_of(stopped, option) == value_of(options, option)
            &&& has_subagents(stopped) == has_subagents(options)
            &&& stop_notification(options, id, children_may_outlive_turn) is None
        }),
{
    if id is Some && is_tracked(roster(options), id->0) && !has_subagents(options) {
        assert(roster(options) =~= Seq::<char>::empty());
        empty_roster_tracks_no_child(id->0);
    }
}

/// The last child takes with it the roster and the pending notification body,
/// whatever becomes of the parent.
pub proof fn last_stop_consumes_the_pending_notification(
    options: OptionMap,
    id: Option<Seq<char>>,
    children_may_outlive_turn: bool,
)
    requires
        drains(options, id),
    ensures
        ({
            let stopped = stop_options(options, id, children_may_outlive_turn);
            &&& !stopped.contains_key(PaneOption::Subagents)
            &&& !stopped.contains_key(PaneOption::PendingStopNotificationBody)
        }),
{
}

/// No event records a notification body.
proof fn lemma_body_is_never_recorded(options: OptionMap, events: Seq<HookEvent>)
    requires
        !options.contains_key(PaneOption::PendingStopNotificationBody),
    ensures
        !after_events(options, events).contains_key(PaneOption::PendingStopNotificationBody),
    decreases events.len(),
{
    if events.len() > 0 {
        lemma_body_is_never_recorded(options, events.drop_last());
    }
}

/// A pending body is delivered at most once: after the stop that drained the
/// roster no later stop notifies, whatever starts, stops and removals come in
/// between.
pub proof fn pending_notification_is_delivered_at_most_once(
    options: OptionMap,
    id: Option<Seq<char>>,
    outlive: bool,
    events: Seq<HookEvent>,
    later_id: Option<Seq<char>>,
    later_outlive: bool,
)
    requires
        drains(options, id),
    ensures
        stop_notification(
            after_events(stop_options(options, id, outlive), events),
            later_id,
            later_outlive,
        ) is None,
{
    last_stop_consumes_the_pending_notification(options, id, outlive);
    lemma_body_is_never_recorded(stop_options(options, id, outlive), events);
}

/// Without a live shell the last child leaves a done parent `idle`: no run, no
/// wait reason, no attention. A pending body is delivered under the parent's
/// agent.
pub proof fn done_parent_goes_idle(options: OptionMap, id: Option<Seq<char>>, outlive: bool)
    requires
        drains(options, id),
        settles(options, outlive),
        !shell_is_live(options),
    ensures
        ({
            let stopped = stop_options(options, id, outlive);
            &&& stopped.contains_key(PaneOption::Status)
            &&& stopped[PaneOption::Status] == "idle"@
            &&& !stopped.contains_key(PaneOption::Attention)
            &&& !stopped.contains_key(PaneOption::StartedAt)
            &&& !stopped.contains_key(PaneOption::WaitReason)
            &&& value_of(options, PaneOption::PendingStopNotificationBody).len() > 0
                ==> stop_notification(options, id, outlive) == Some(
                DueNotification {
                    agent: value_of(options, PaneOption::Agent),
                    body: value_of(options, PaneOption::PendingStopNotificationBody),
                },
            )
        }),
{
}

/// With a live shell the last child leaves a done parent in `background`, with
/// its run and its shell, and notifies nobody.
pub proof fn done_parent_with_a_shell_goes_to_background(
    options: OptionMap,
    id: Option<Seq<char>>,
    outlive: bool,
)
    requires
        drains(options, id),
        settles(options, outlive),
        shell_is_live(options),
    ensures
        ({
            let stopped = stop_options(options, id, outlive);
            &&& stopped.contains_key(PaneOption::Status)
            &&& stopped[PaneOption::Status] == "background"@
            &&& !stopped.contains_key(PaneOption::Attention)
            &&& !stopped.contains_key(PaneOption::WaitReason)
            &&& stopped.contains_key(PaneOption::StartedAt) == options.contains_key(
                PaneOption::StartedAt,
            )
            &&& value_of(stopped, PaneOption::StartedAt) == value_of(options, PaneOption::StartedAt)
            &&& value_of(stopped, PaneOption::BgCmd) == value_of(options, PaneOption::BgCmd)
            &&& stop_notification(options, id, outlive) is None
        }),
{
}

/// A parent that is not done keeps its status, its attention, its wait reason
/// and its run through every stop, and nobody is notified. That covers a parent
/// in an open turn, one whose children cannot outlive its turn, and one in
/// error.
pub proof fn parent_that_is_not_done_is_left_alone(
    options: OptionMap,
    id: Option<Seq<char>>,
    outlive: bool,
    option: PaneOption,
)
    requires
        !settles(options, outlive),
        option == PaneOption::Status || option == PaneOption::Attention || option
            == PaneOption::WaitReason || option == PaneOption::StartedAt,
    ensures
        ({
            let stopped = stop_options(options, id, outlive);
            &&& stopped.contains_key(option) == options.contains_key(option)
            &&& value_of(stopped, option) == value_of(options, option)
            &&& stop_notification(options, id, outlive) is None
        }),
{
}

/// No event takes a live parent's agent, turn marker or shell off the pane, nor
/// touches a session marker, and none makes its status disappear.
pub proof fn parent_survives_every_event(options: OptionMap, event: HookEvent, option: PaneOption)
    requires
        option == PaneOption::Agent || option == PaneOption::TurnActive || option
            == PaneOption::BgCmd || option == PaneOption::PendingSessionEnd,
    ensures
        ({
            let after = after_event(options, event);
            &&& after.contains_key(option) == options.contains_key(option)
            &&& value_of(after, option) == value_of(options, option)
            &&& options.contains_key(PaneOption::Status) ==> after.contains_key(PaneOption::Status)
        }),
{
}

/// A stop leaves the working directory and the worktree alone unless it drains
/// the roster of a pane with a deferred removal.
pub proof fn stop_keeps_the_worktree_without_a_deferred_removal(
    options: OptionMap,
    id: Option<Seq<char>>,
    outlive: bool,
    option: PaneOption,
)
    requires
        !(drains(options, id) && worktree_remove_pending(options)),
        option == PaneOption::Cwd || option == PaneOption::WorktreeName || option
            == PaneOption::WorktreeBranch,
    ensures
        ({
            let stopped = stop_options(options, id, outlive);
            &&& stopped.contains_key(option) == options.contains_key(option)
            &&& value_of(stopped, option) == value_of(options, option)
        }),
{
}

/// The last child replays a deferred removal: the worktree is gone, and so is
/// the marker.
pub proof fn last_stop_replays_a_deferred_removal(
    options: OptionMap,
    id: Option<Seq<char>>,
    outlive: bool,
)
    requires
        drains(options, id),
        worktree_remove_pending(options),
    ensures
        worktree_is_gone(stop_options(options, id, outlive)),
        !stop_options(options, id, outlive).contains_key(PaneOption::PendingWorktreeRemove),
{
}

/// A worktree removal under live children leaves a marker and the worktree.
pub proof fn removal_under_live_children_is_deferred(options: OptionMap, option: PaneOption)
    requires
        has_subagents(options),
        option != PaneOption::PendingWorktreeRemove,
    ensures
        ({
            let after = after_event(options, HookEvent::WorktreeRemove);
            &&& worktree_remove_pending(after)
            &&& after.contains_key(option) == options.contains_key(option)
            &&& value_of(after, option) == value_of(options, option)
        }),
{
    reveal_strlit("1");
}

/// Whether a removal is still to come or done: it waits for a live child, or
/// the worktree is gone.
pub open spec fn removal_is_safe(options: OptionMap) -> bool {
    ||| worktree_remove_pending(options) && has_subagents(options)
    ||| worktree_is_gone(options)
}

proof fn lemma_removal_stays_safe(options: OptionMap, event: HookEvent)
    requires
        removal_is_safe(options),
    ensures
        removal_is_safe(after_event(options, event)),
{
    reveal_strlit("1");
}

/// A worktree removal is never lost. Whatever starts, stops and removals follow
/// it, the worktree is gone unless a live child still holds it back, and then
/// the marker is there for the last one.
pub proof fn worktree_removal_is_never_lost(options: OptionMap, events: Seq<HookEvent>)
    ensures
        removal_is_safe(after_events(after_event(options, HookEvent::WorktreeRemove), events)),
    decreases events.len(),
{
    if events.len() == 0 {
        reveal_strlit("1");
    } else {
        worktree_removal_is_never_lost(options, events.drop_last());
        lemma_removal_stays_safe(
            after_events(
                after_event(options, HookEvent::WorktreeRemove),
                events.drop_last(),
            ),
            events.last(),
        );
    }
}

/// A marker never outlives the children it waits for, so that no teardown falls
/// on a pane out of turn.
pub proof fn marker_waits_for_live_children(options: OptionMap, events: Seq<HookEvent>)
    requires
        worktree_remove_pending(options) ==> has_subagents(options),
    ensures
        worktree_remove_pending(after_events(options, events)) ==> has_subagents(
            after_events(options, events),
        ),
    decreases events.len(),
{
    if events.len() > 0 {
        marker_waits_for_live_children(options, events.drop_last());
    }
}

} // verus!
