//! The handlers of a child's start and stop.

use crate::pane::{Pane, PaneOption};
#[allow(unused_imports)]
use crate::pane::{set_to, unset, value_of, OptionMap, WriteView};
use crate::roster::{append_subagent, remove_subagent};
#[allow(unused_imports)]
use crate::roster::{is_tracked, with_subagent, without_subagent};
use crate::teardown::drain_pending_teardowns;
#[allow(unused_imports)]
use crate::teardown::{drain_options, drain_writes};
use vstd::prelude::*;

verus! {

/// The completion notification that a stop hands on for delivery: the agent it
/// is labelled with, beside what the pane's options give, the delivery
/// settings, and the body.
pub struct StopNotification<'a, S> {
    pub agent: String,
    pub notifications: &'a S,
    pub body: String,
}

/// What a stop leaves to its caller: the hook's exit code, and a notification
/// that is due once the pane's writes are carried out.
pub struct StopOutcome<'a, S> {
    pub exit_code: i32,
    pub notification: Option<StopNotification<'a, S>>,
}

/// The agent and the body of a due notification.
pub struct DueNotification {
    pub agent: Seq<char>,
    pub body: Seq<char>,
}

/// The roster of the pane.
pub open spec fn roster(options: OptionMap) -> Seq<char> {
    value_of(options, PaneOption::Subagents)
}

/// The id of the child that an event names. An event without one, or with an
/// empty one, names no child and is dropped.
pub open spec fn child_id(agent_id: Option<&str>) -> Option<Seq<char>> {
    match agent_id {
        Some(id) if id@.len() > 0 => Some(id@),
        _ => None,
    }
}

/// The writes of a child's start.
pub open spec fn start_writes(
    options: OptionMap,
    agent_type: Seq<char>,
    id: Option<Seq<char>>,
) -> Seq<WriteView> {
    match id {
        Some(id) => seq![
            set_to(PaneOption::Subagents, with_subagent(roster(options), agent_type, id)),
        ],
        None => Seq::empty(),
    }
}

/// The options after a child's start.
pub open spec fn start_options(
    options: OptionMap,
    agent_type: Seq<char>,
    id: Option<Seq<char>>,
) -> OptionMap {
    match id {
        Some(id) => options.insert(
            PaneOption::Subagents,
            with_subagent(roster(options), agent_type, id),
        ),
        None => options,
    }
}

/// Whether the child `id` is live and the only one: its stop empties the
/// roster.
pub open spec fn drains(options: OptionMap, id: Option<Seq<char>>) -> bool {
    match id {
        Some(id) => is_tracked(roster(options), id) && without_subagent(
            roster(options),
            id,
        ).len() == 0,
        None => false,
    }
}

/// Whether the parent is done once its last child has stopped: its children may
/// outlive its turn, its turn is closed, and its status is neither missing nor
/// an error.
pub open spec fn settles(options: OptionMap, children_may_outlive_turn: bool) -> bool {
    &&& children_may_outlive_turn
    &&& value_of(options, PaneOption::TurnActive).len() == 0
    &&& value_of(options, PaneOption::Status).len() > 0
    &&& value_of(options, PaneOption::Status) != "error"@
}

/// Whether a background shell is live.
pub open spec fn shell_is_live(options: OptionMap) -> bool {
    value_of(options, PaneOption::BgCmd).len() > 0
}

/// The writes that end the current run.
pub open spec fn clear_run_state_writes() -> Seq<WriteView> {
    seq![unset(PaneOption::StartedAt), unset(PaneOption::WaitReason)]
}

/// The writes that settle the parent: it goes back to `background` under a live
/// shell, and to `idle` otherwise.
pub open spec fn settle_writes(options: OptionMap) -> Seq<WriteView> {
    seq![unset(PaneOption::Attention)] + if shell_is_live(options) {
        seq![unset(PaneOption::WaitReason), set_to(PaneOption::Status, "background"@)]
    } else {
        clear_run_state_writes().push(set_to(PaneOption::Status, "idle"@))
    }
}

/// The options after the parent is settled.
pub open spec fn settle_options(options: OptionMap) -> OptionMap {
    let calm = options.remove(PaneOption::Attention).remove(PaneOption::WaitReason);
    if shell_is_live(options) {
        calm.insert(PaneOption::Status, "background"@)
    } else {
        calm.remove(PaneOption::StartedAt).insert(PaneOption::Status, "idle"@)
    }
}

/// The writes of a child's stop. A child that is not on the roster changes
/// nothing. While other children are live only the roster changes. The last
/// child takes the roster and the pending notification with it, replays the
/// deferred teardown, and settles a parent that is done.
pub open spec fn stop_writes(
    options: OptionMap,
    id: Option<Seq<char>>,
    children_may_outlive_turn: bool,
) -> Seq<WriteView> {
    if drains(options, id) {
        seq![unset(PaneOption::Subagents), unset(PaneOption::PendingStopNotificationBody)]
            + drain_writes(options) + if settles(options, children_may_outlive_turn) {
            settle_writes(options)
        } else {
            Seq::empty()
        }
    } else if id is Some && is_tracked(roster(options), id->0) {
        seq![set_to(PaneOption::Subagents, without_subagent(roster(options), id->0))]
    } else {
        Seq::empty()
    }
}

/// The options after a child's stop.
pub open spec fn stop_options(
    options: OptionMap,
    id: Option<Seq<char>>,
    children_may_outlive_turn: bool,
) -> OptionMap {
    if drains(options, id) {
        let drained = drain_options(
            options.remove(PaneOption::Subagents).remove(PaneOption::PendingStopNotificationBody),
        );
        if settles(options, children_may_outlive_turn) {
            settle_options(drained)
        } else {
            drained
        }
    } else if id is Some && is_tracked(roster(options), id->0) {
        options.insert(PaneOption::Subagents, without_subagent(roster(options), id->0))
    } else {
        options
    }
}

/// The notification of a child's stop: that of the last child, where it settles
/// the parent as `idle` and a body is pending.
pub open spec fn stop_notification(
    options: OptionMap,
    id: Option<Seq<char>>,
    children_may_outlive_turn: bool,
) -> Option<DueNotification> {
    let body = value_of(options, PaneOption::PendingStopNotificationBody);
    if drains(options, id) && settles(options, children_may_outlive_turn) && !shell_is_live(options)
        && body.len() > 0 {
        Some(DueNotification { agent: value_of(options, PaneOption::Agent), body })
    } else {
        None
    }
}

/// A child has started. Returns the hook's exit code.
///
/// An event without an id is dropped, so that the roster never gains an entry
/// that no stop could take off it.
pub fn on_subagent_start(pane: &mut Pane, agent_type: &str, agent_id: Option<&str>) -> (code: i32)
    ensures
        code == 0,
        final(pane)@ == old(pane)@.after(
            start_writes(old(pane)@.options(), agent_type@, child_id(agent_id)),
        ),
        final(pane)@.options() == start_options(
            old(pane)@.options(),
            agent_type@,
            child_id(agent_id),
        ),
        agent_id is None || agent_id->0@.len() == 0 ==> final(pane)@ == old(pane)@,
        agent_id is Some && agent_id->0@.len() > 0 ==> ({
            let added = agent_type@ + seq![':'] + agent_id->0@;
            let before = old(pane)@.options();
            let list = if before.contains_key(PaneOption::Subagents)
                && before[PaneOption::Subagents].len() > 0 {
                before[PaneOption::Subagents] + seq![','] + added
            } else {
                added
            };
            &&& final(pane)@.options() == before.insert(PaneOption::Subagents, list)
            &&& final(pane)@.writes == old(pane)@.writes.push(
                WriteView { option: PaneOption::Subagents, value: Some(list) },
            )
        }),
{
    let ghost before = pane@;
    if let Some(id) = agent_id {
        if !id.is_empty() {
            let current = pane.value(PaneOption::Subagents);
            let list = append_subagent(current.as_str(), agent_type, id);
            pane.set(PaneOption::Subagents, list.as_str());
            return 0;
        }
    }
    assert(pane@ =~= before.after(Seq::empty()));
    0
}

/// End the current run.
fn clear_run_state(pane: &mut Pane)
    ensures
        final(pane)@ == old(pane)@.after(clear_run_state_writes()),
        final(pane)@.options() == old(pane)@.options().remove(PaneOption::StartedAt).remove(
            PaneOption::WaitReason,
        ),
{
    let ghost before = pane@;
    pane.unset(PaneOption::StartedAt);
    pane.unset(PaneOption::WaitReason);
    assert(pane@ =~= before.after(clear_run_state_writes()));
}

/// A child has stopped.
///
/// `children_may_outlive_turn` says whether the turn marker tells, for this
/// kind of agent, that the parent is done.
pub fn on_subagent_stop<'a, S>(
    pane: &mut Pane,
    agent_id: Option<&str>,
    children_may_outlive_turn: bool,
    notifications: &'a S,
) -> (outcome: StopOutcome<'a, S>)
    ensures
        outcome.exit_code == 0,
        final(pane)@ == old(pane)@.after(
            stop_writes(old(pane)@.options(), child_id(agent_id), children_may_outlive_turn),
        ),
        final(pane)@.options() == stop_options(
            old(pane)@.options(),
            child_id(agent_id),
            children_may_outlive_turn,
        ),
        match outcome.notification {
            Some(n) => {
                &&& stop_notification(
                    old(pane)@.options(),
                    child_id(agent_id),
                    children_may_outlive_turn,
                ) == Some(DueNotification { agent: n.agent@, body: n.body@ })
                &&& n.notifications == notifications
            },
            None => stop_notification(
                old(pane)@.options(),
                child_id(agent_id),
                children_may_outlive_turn,
            ) is None,
        },
        // An event without an id is dropped.
        agent_id is None || agent_id->0@.len() == 0 ==> final(pane)@ == old(pane)@
            && outcome.notification is None,
        // A body that is handed on is the pending one, whole, under the pane's agent.
        outcome.notification matches Some(n) ==> {
            let before = old(pane)@.options();
            &&& before.contains_key(PaneOption::PendingStopNotificationBody)
            &&& n.body@ == before[PaneOption::PendingStopNotificationBody]
            &&& n.body@.len() > 0
            &&& before.contains_key(PaneOption::Agent) ==> n.agent@ == before[PaneOption::Agent]
            &&& !before.contains_key(PaneOption::Agent) ==> n.agent@.len() == 0
        },
        // A parent that is not done is left alone.
        ({
            let before = old(pane)@.options();
            ||| before.contains_key(PaneOption::TurnActive)
                && before[PaneOption::TurnActive].len() > 0
            ||| !children_may_outlive_turn
            ||| !before.contains_key(PaneOption::Status)
            ||| before[PaneOption::Status].len() == 0
            ||| before[PaneOption::Status] == "error"@
        }) ==> outcome.notification is None && forall|option: PaneOption|
            option == PaneOption::Status || option == PaneOption::Attention || option
                == PaneOption::WaitReason || option == PaneOption::StartedAt ==> {
                &&& (#[trigger] final(pane)@.options().contains_key(option)) == old(
                    pane,
                )@.options().contains_key(option)
                &&& old(pane)@.options().contains_key(option) ==> final(pane)@.options()[option]
                    == old(pane)@.options()[option]
            },
        // Without a deferred removal the worktree stays.
        ({
            let before = old(pane)@.options();
            ||| !before.contains_key(PaneOption::PendingWorktreeRemove)
            ||| before[PaneOption::PendingWorktreeRemove].len() == 0
        }) ==> forall|option: PaneOption|
            option == PaneOption::Cwd || option == PaneOption::WorktreeName || option
                == PaneOption::WorktreeBranch ==> {
                &&& (#[trigger] final(pane)@.options().contains_key(option)) == old(
                    pane,
                )@.options().contains_key(option)
                &&& old(pane)@.options().contains_key(option) ==> final(pane)@.options()[option]
                    == old(pane)@.options()[option]
            },
{
    let ghost before = pane@;
    let ghost options = pane@.options();
    let id = match agent_id {
        Some(id) => id,
        None => {
            assert(pane@ =~= before.after(Seq::empty()));
            return StopOutcome { exit_code: 0, notification: None };
        },
    };
    if id.is_empty() {
        assert(pane@ =~= before.after(Seq::empty()));
        return StopOutcome { exit_code: 0, notification: None };
    }
    let current = pane.value(PaneOption::Subagents);
    let drained_to_empty = match remove_subagent(current.as_str(), id) {
        None => {
            assert(pane@ =~= before.after(Seq::empty()));
            false
        },
        Some(rest) => {
            if rest.as_str().is_empty() {
                pane.unset(PaneOption::Subagents);
                true
            } else {
                pane.set(PaneOption::Subagents, rest.as_str());
                false
            }
        },
    };
    let mut notification: Option<StopNotification<'a, S>> = None;
    if drained_to_empty {
        let agent = pane.value(PaneOption::Agent);
        let parent_turn_settled = children_may_outlive_turn && pane.value(
            PaneOption::TurnActive,
        ).as_str().is_empty();
        let deferred_body = pane.value(PaneOption::PendingStopNotificationBody);
        pane.unset(PaneOption::PendingStopNotificationBody);
        drain_pending_teardowns(pane);

        let status = pane.value(PaneOption::Status);
        let bg_shell_live = !pane.value(PaneOption::BgCmd).as_str().is_empty();
        let ghost drained = pane@;
        assert(drained =~= before.after(
            seq![unset(PaneOption::Subagents), unset(PaneOption::PendingStopNotificationBody)]
                + drain_writes(options),
        ));
        if parent_turn_settled && !status.as_str().is_empty() && status != "error".to_owned() {
            pane.unset(PaneOption::Attention);
            if bg_shell_live {
                pane.unset(PaneOption::WaitReason);
                pane.set(PaneOption::Status, "background");
            } else {
                clear_run_state(pane);
                pane.set(PaneOption::Status, "idle");
                if !deferred_body.as_str().is_empty() {
                    notification = Some(
                        StopNotification { agent, notifications, body: deferred_body },
                    );
                }
            }
            assert(pane@ =~= drained.after(settle_writes(options)));
        } else {
            assert(pane@ =~= drained.after(Seq::empty()));
        }
        assert(pane@ =~= before.after(
            stop_writes(options, child_id(agent_id), children_may_outlive_turn),
        ));
    }
    StopOutcome { exit_code: 0, notification }
}

} // verus!
