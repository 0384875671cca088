//! What the handlers guarantee, read off the pane's options themselves.
//!
//! An option counts as non-empty where it is set to a text with at least one
//! character. A field of the roster is an entry of a child where it ends in a
//! colon and the child's whole id.

#[allow(unused_imports)]
use crate::pane::{OptionMap, PaneOption, WriteView};
#[allow(unused_imports)]
use crate::protocol::{after_events, event_writes, worktree_removal_is_never_lost, HookEvent};
#[allow(unused_imports)]
use crate::roster::{
    comma_free_text_behind_a_comma_is_a_field, comma_free_text_is_one_field, fields, joined,
    removal_takes_the_fields_of_the_child_only, roster_is_empty_when_nothing_is_left,
};
#[allow(unused_imports)]
use crate::subagent::{
    child_id, roster, settles, shell_is_live, start_options, start_writes, stop_notification,
    stop_options, stop_writes,
};
#[allow(unused_imports)]
use crate::teardown::{
    drain_options, drain_writes, has_subagents, worktree_is_gone, worktree_remove_options,
    worktree_remove_pending, worktree_remove_writes,
};
use vstd::prelude::*;

verus! {

/// The child that an event names is its id, whole and unchanged. An event with no
/// id, or an empty one, names none.
pub proof fn event_names_its_whole_id(agent_id: Option<&str>)
    ensures
        agent_id matches Some(id) ==> id@.len() > 0 ==> child_id(agent_id) == Some(id@),
        agent_id matches Some(id) ==> id@.len() == 0 ==> child_id(agent_id) is None,
        agent_id is None ==> child_id(agent_id) is None,
{
}

/// Events with different ids name different children.
pub proof fn different_ids_name_different_children(a: &str, b: &str)
    requires
        a@ != b@,
        a@.len() > 0,
    ensures
        child_id(Some(a)) != child_id(Some(b)),
{
}

/// The conditions that the handlers decide by, on the options themselves.
pub proof fn conditions_are_read_off_the_options(options: OptionMap, outlive: bool)
    ensures
        has_subagents(options) <==> options.contains_key(PaneOption::Subagents)
            && options[PaneOption::Subagents].len() > 0,
        options.contains_key(PaneOption::Subagents) ==> roster(options)
            == options[PaneOption::Subagents],
        !options.contains_key(PaneOption::Subagents) ==> roster(options).len() == 0,
        shell_is_live(options) <==> options.contains_key(PaneOption::BgCmd)
            && options[PaneOption::BgCmd].len() > 0,
        worktree_remove_pending(options) <==> options.contains_key(
            PaneOption::PendingWorktreeRemove,
        ) && options[PaneOption::PendingWorktreeRemove].len() > 0,
        worktree_is_gone(options) <==> !options.contains_key(PaneOption::WorktreeName)
            && !options.contains_key(PaneOption::WorktreeBranch) && !options.contains_key(
            PaneOption::Cwd,
        ),
        settles(options, outlive) <==> {
            &&& outlive
            &&& !(options.contains_key(PaneOption::TurnActive)
                && options[PaneOption::TurnActive].len() > 0)
            &&& options.contains_key(PaneOption::Status)
            &&& options[PaneOption::Status].len() > 0
            &&& options[PaneOption::Status] != "error"@
        },
{
}

/// A start with an id puts the type, a colon and the whole id behind the roster
/// that is there, and changes no other option. A start without one changes
/// nothing.
pub proof fn start_writes_the_whole_entry(
    options: OptionMap,
    agent_type: Seq<char>,
    agent_id: Option<&str>,
)
    ensures
        ({
            let started = start_options(options, agent_type, child_id(agent_id));
            let writes = start_writes(options, agent_type, child_id(agent_id));
            match agent_id {
                Some(id) if id@.len() > 0 => {
                    let added = agent_type + seq![':'] + id@;
                    let list = if options.contains_key(PaneOption::Subagents)
                        && options[PaneOption::Subagents].len() > 0 {
                        options[PaneOption::Subagents] + seq![','] + added
                    } else {
                        added
                    };
                    &&& started == options.insert(PaneOption::Subagents, list)
                    &&& writes == seq![
                        WriteView { option: PaneOption::Subagents, value: Some(list) },
                    ]
                },
                _ => started == options && writes.len() == 0,
            }
        }),
{
}

/// After a start the fields of the roster are the fields that were there, followed
/// by the type, a colon and the whole id.
pub proof fn start_adds_one_field(options: OptionMap, agent_type: Seq<char>, id: &str)
    requires
        id@.len() > 0,
        !id@.contains(','),
        !agent_type.contains(','),
    ensures
        ({
            let started = start_options(options, agent_type, child_id(Some(id)));
            let added = agent_type + seq![':'] + id@;
            &&& started.contains_key(PaneOption::Subagents)
            &&& fields(started[PaneOption::Subagents]) == if options.contains_key(
                PaneOption::Subagents,
            ) && options[PaneOption::Subagents].len() > 0 {
                fields(options[PaneOption::Subagents]).push(added)
            } else {
                seq![added]
            }
        }),
{
    let added = agent_type + seq![':'] + id@;
    assert forall|k: int| 0 <= k < added.len() implies added[k] != ',' by {
        if k < agent_type.len() {
            assert(added[k] == agent_type[k]);
        } else if k > agent_type.len() {
            assert(added[k] == id@[k - agent_type.len() - 1]);
        }
    }
    comma_free_text_is_one_field(added);
    comma_free_text_behind_a_comma_is_a_field(roster(options), added);
}

/// A child that starts on a pane and then stops leaves the roster as it was, and a
/// sibling with another id keeps its field in between and after.
pub proof fn sibling_outlives_a_child(
    options: OptionMap,
    first_type: Seq<char>,
    first: &str,
    second_type: Seq<char>,
    second: &str,
    outlive: bool,
)
    requires
        first@.len() > 0,
        second@.len() > 0,
        !first@.contains(','),
        !second@.contains(','),
        !first_type.contains(','),
        !second_type.contains(','),
        // The entry of the second child does not end in a colon and the first one's id.
        ({
            let field = second_type + seq![':'] + second@;
            !(field.len() > first@.len() && field[field.len() - first@.len() - 1] == ':'
                && field.skip(field.len() - first@.len()) == first@)
        }),
        // The pane had no child.
        !options.contains_key(PaneOption::Subagents),
    ensures
        ({
            let one = start_options(options, first_type, child_id(Some(first)));
            let two = start_options(one, second_type, child_id(Some(second)));
            let left = stop_options(two, child_id(Some(first)), outlive);
            left == options.insert(PaneOption::Subagents, second_type + seq![':'] + second@)
        }),
{
    let one = start_options(options, first_type, child_id(Some(first)));
    let two = start_options(one, second_type, child_id(Some(second)));
    let a = first_type + seq![':'] + first@;
    let b = second_type + seq![':'] + second@;
    let id = first@;
    let by_end = |field: Seq<char>|
        !(field.len() > id.len() && field[field.len() - id.len() - 1] == ':' && field.skip(
            field.len() - id.len(),
        ) == id);
    start_adds_one_field(options, first_type, first);
    start_adds_one_field(one, second_type, second);
    let list = two[PaneOption::Subagents];
    assert(fields(list) =~= seq![a, b]);
    assert(a.skip(a.len() - id.len()) =~= id);
    assert(!by_end(a));
    assert(by_end(b));
    reveal_with_fuel(Seq::filter, 3);
    let kept = fields(list).filter(by_end);
    assert(seq![a, b].drop_last() =~= seq![a]);
    assert(seq![a].drop_last() =~= Seq::<Seq<char>>::empty());
    assert(kept =~= seq![b]);
    removal_takes_the_fields_of_the_child_only(list, id, kept);
    assert(joined(kept) == b);
    assert(stop_options(two, child_id(Some(first)), outlive) =~= options.insert(
        PaneOption::Subagents,
        b,
    ));
}

/// A parent in an open turn, one whose children cannot outlive its turn, and one
/// whose status is missing or an error keeps its status, its attention, its wait
/// reason and its run through the stop of any child, and nobody is notified.
pub proof fn open_turn_is_never_settled(
    options: OptionMap,
    agent_id: Option<&str>,
    outlive: bool,
    option: PaneOption,
)
    requires
        ({
            ||| options.contains_key(PaneOption::TurnActive)
                && options[PaneOption::TurnActive].len() > 0
            ||| !outlive
            ||| !options.contains_key(PaneOption::Status)
            ||| options[PaneOption::Status].len() == 0
            ||| options[PaneOption::Status] == "error"@
        }),
        option == PaneOption::Status || option == PaneOption::Attention || option
            == PaneOption::WaitReason || option == PaneOption::StartedAt,
    ensures
        ({
            let stopped = stop_options(options, child_id(agent_id), outlive);
            &&& stopped.contains_key(option) <==> options.contains_key(option)
            &&& options.contains_key(option) ==> stopped[option] == options[option]
            &&& stop_notification(options, child_id(agent_id), outlive) is None
            &&& forall|i: int|
                0 <= i < stop_writes(options, child_id(agent_id), outlive).len()
                    ==> (#[trigger] stop_writes(options, child_id(agent_id), outlive)[i]).option
                    != option
        }),
{
}

/// A pane on which no removal was deferred keeps its working directory and its
/// worktree through the stop of any child, whatever its other options are.
pub proof fn worktree_stays_unless_its_removal_was_deferred(
    options: OptionMap,
    agent_id: Option<&str>,
    outlive: bool,
    option: PaneOption,
)
    requires
        !options.contains_key(PaneOption::PendingWorktreeRemove)
            || options[PaneOption::PendingWorktreeRemove].len() == 0,
        option == PaneOption::Cwd || option == PaneOption::WorktreeName || option
            == PaneOption::WorktreeBranch || option == PaneOption::PendingWorktreeRemove,
    ensures
        ({
            let stopped = stop_options(options, child_id(agent_id), outlive);
            &&& stopped.contains_key(option) <==> options.contains_key(option)
            &&& options.contains_key(option) ==> stopped[option] == options[option]
            &&& forall|i: int|
                0 <= i < stop_writes(options, child_id(agent_id), outlive).len()
                    ==> (#[trigger] stop_writes(options, child_id(agent_id), outlive)[i]).option
                    != option
        }),
{
}

/// No stop touches the parent's agent, its turn marker, its shell or a session
/// marker.
pub proof fn stop_leaves_the_parent_itself(
    options: OptionMap,
    agent_id: Option<&str>,
    outlive: bool,
    option: PaneOption,
)
    requires
        option == PaneOption::Agent || option == PaneOption::TurnActive || option
            == PaneOption::BgCmd || option == PaneOption::PendingSessionEnd,
    ensures
        ({
            let stopped = stop_options(options, child_id(agent_id), outlive);
            &&& stopped.contains_key(option) <==> options.contains_key(option)
            &&& options.contains_key(option) ==> stopped[option] == options[option]
            &&& forall|i: int|
                0 <= i < stop_writes(options, child_id(agent_id), outlive).len()
                    ==> (#[trigger] stop_writes(options, child_id(agent_id), outlive)[i]).option
                    != option
        }),
{
}

/// A stop without an id, or of a child without an entry, changes nothing, writes
/// nothing and notifies nobody.
pub proof fn stop_without_an_entry_does_nothing(
    options: OptionMap,
    agent_id: Option<&str>,
    outlive: bool,
    list: Seq<char>,
)
    requires
        list == (if options.contains_key(PaneOption::Subagents) {
            options[PaneOption::Subagents]
        } else {
            Seq::empty()
        }),
        agent_id matches Some(id) ==> id@.len() == 0 || forall|i: int|
            0 <= i < fields(list).len() ==> {
                let field = #[trigger] fields(list)[i];
                !(field.len() > id@.len() && field[field.len() - id@.len() - 1] == ':'
                    && field.skip(field.len() - id@.len()) == id@)
            },
    ensures
        stop_options(options, child_id(agent_id), outlive) == options,
        stop_writes(options, child_id(agent_id), outlive).len() == 0,
        stop_notification(options, child_id(agent_id), outlive) is None,
{
    if let Some(id) = agent_id {
        if id@.len() > 0 {
            crate::roster::tracked_child_has_a_field(list, id@);
        }
    }
}

/// While something of the roster is left, the stop of a child rewrites the roster
/// with the fields that are no entry of the child, in their order and unchanged,
/// and that is all: one write, and nobody is notified.
pub proof fn stop_under_live_siblings_takes_its_fields_only(
    options: OptionMap,
    id: &str,
    outlive: bool,
    list: Seq<char>,
    kept: Seq<Seq<char>>,
)
    requires
        id@.len() > 0,
        list == (if options.contains_key(PaneOption::Subagents) {
            options[PaneOption::Subagents]
        } else {
            Seq::empty()
        }),
        kept == fields(list).filter(
            |field: Seq<char>|
                !(field.len() > id@.len() && field[field.len() - id@.len() - 1] == ':'
                    && field.skip(field.len() - id@.len()) == id@),
        ),
        kept.len() < fields(list).len(),
        kept.len() > 1 || (kept.len() == 1 && kept[0].len() > 0),
    ensures
        ({
            let stopped = stop_options(options, child_id(Some(id)), outlive);
            &&& stopped == options.insert(PaneOption::Subagents, joined(kept))
            &&& fields(stopped[PaneOption::Subagents]) == kept
            &&& stop_writes(options, child_id(Some(id)), outlive) == seq![
                WriteView { option: PaneOption::Subagents, value: Some(joined(kept)) },
            ]
            &&& stop_notification(options, child_id(Some(id)), outlive) is None
        }),
{
    let who = id@;
    let by_end = |field: Seq<char>|
        !(field.len() > who.len() && field[field.len() - who.len() - 1] == ':' && field.skip(
            field.len() - who.len(),
        ) == who);
    assert(by_end =~= |field: Seq<char>|
        !(field.len() > id@.len() && field[field.len() - id@.len() - 1] == ':' && field.skip(
            field.len() - id@.len(),
        ) == id@));
    removal_takes_the_fields_of_the_child_only(list, who, kept);
    roster_is_empty_when_nothing_is_left(kept);
}

/// The stop of the last child, on every option. The roster and the pending body
/// go. A deferred removal is carried out, and its marker goes. A parent whose turn
/// is closed, whose children may outlive it and whose status is neither missing
/// nor an error settles: to `background` under a live shell, where its run goes
/// on, and to `idle` otherwise. Then, and only then, a pending body is handed on,
/// whole, under the parent's agent.
pub proof fn last_stop_on_every_option(
    options: OptionMap,
    id: &str,
    outlive: bool,
    list: Seq<char>,
    kept: Seq<Seq<char>>,
    done: bool,
    shell: bool,
    deferred: bool,
)
    requires
        id@.len() > 0,
        list == (if options.contains_key(PaneOption::Subagents) {
            options[PaneOption::Subagents]
        } else {
            Seq::empty()
        }),
        kept == fields(list).filter(
            |field: Seq<char>|
                !(field.len() > id@.len() && field[field.len() - id@.len() - 1] == ':'
                    && field.skip(field.len() - id@.len()) == id@),
        ),
        kept.len() < fields(list).len(),
        kept.len() == 0 || (kept.len() == 1 && kept[0].len() == 0),
        done <==> {
            &&& outlive
            &&& !(options.contains_key(PaneOption::TurnActive)
                && options[PaneOption::TurnActive].len() > 0)
            &&& options.contains_key(PaneOption::Status)
            &&& options[PaneOption::Status].len() > 0
            &&& options[PaneOption::Status] != "error"@
        },
        shell <==> options.contains_key(PaneOption::BgCmd) && options[PaneOption::BgCmd].len() > 0,
        deferred <==> options.contains_key(PaneOption::PendingWorktreeRemove)
            && options[PaneOption::PendingWorktreeRemove].len() > 0,
    ensures
        ({
            let stopped = stop_options(options, child_id(Some(id)), outlive);
            &&& !stopped.contains_key(PaneOption::Subagents)
            &&& !stopped.contains_key(PaneOption::PendingStopNotificationBody)
            &&& done ==> {
                &&& stopped.contains_key(PaneOption::Status)
                &&& stopped[PaneOption::Status] == (if shell {
                    "background"@
                } else {
                    "idle"@
                })
                &&& !stopped.contains_key(PaneOption::Attention)
                &&& !stopped.contains_key(PaneOption::WaitReason)
                &&& !shell ==> !stopped.contains_key(PaneOption::StartedAt)
            }
            &&& deferred ==> {
                &&& !stopped.contains_key(PaneOption::WorktreeName)
                &&& !stopped.contains_key(PaneOption::WorktreeBranch)
                &&& !stopped.contains_key(PaneOption::Cwd)
                &&& !stopped.contains_key(PaneOption::PendingWorktreeRemove)
            }
            // Every option that is not named above stays as it was.
            &&& forall|option: PaneOption|
                {
                    ||| option == PaneOption::Subagents || option
                        == PaneOption::PendingStopNotificationBody
                    ||| done && (option == PaneOption::Status || option == PaneOption::Attention
                        || option == PaneOption::WaitReason || option == PaneOption::StartedAt
                        && !shell)
                    ||| deferred && (option == PaneOption::WorktreeName || option
                        == PaneOption::WorktreeBranch || option == PaneOption::Cwd || option
                        == PaneOption::PendingWorktreeRemove)
                    ||| (#[trigger] stopped.contains_key(option)) == options.contains_key(option)
                        && (options.contains_key(option) ==> stopped[option] == options[option])
                }
        }),
        match stop_notification(options, child_id(Some(id)), outlive) {
            Some(due) => {
                &&& done && !shell
                &&& options.contains_key(PaneOption::PendingStopNotificationBody)
                &&& options[PaneOption::PendingStopNotificationBody].len() > 0
                &&& due.body == options[PaneOption::PendingStopNotificationBody]
                &&& options.contains_key(PaneOption::Agent) ==> due.agent
                    == options[PaneOption::Agent]
                &&& !options.contains_key(PaneOption::Agent) ==> due.agent.len() == 0
            },
            None => !(done && !shell && options.contains_key(
                PaneOption::PendingStopNotificationBody,
            ) && options[PaneOption::PendingStopNotificationBody].len() > 0),
        },
{
    let who = id@;
    let by_end = |field: Seq<char>|
        !(field.len() > who.len() && field[field.len() - who.len() - 1] == ':' && field.skip(
            field.len() - who.len(),
        ) == who);
    assert(by_end =~= |field: Seq<char>|
        !(field.len() > id@.len() && field[field.len() - id@.len() - 1] == ':' && field.skip(
            field.len() - id@.len(),
        ) == id@));
    removal_takes_the_fields_of_the_child_only(list, who, kept);
    roster_is_empty_when_nothing_is_left(kept);
}

/// The writes of the last child's stop, in their order: the roster and the pending
/// body, the deferred teardown with its marker behind it, and the settlement with
/// the status at its end, so that the sidebar never shows a settled status beside
/// what went before it.
pub proof fn last_stop_writes_in_order(
    options: OptionMap,
    id: &str,
    outlive: bool,
    list: Seq<char>,
    kept: Seq<Seq<char>>,
    done: bool,
    shell: bool,
    deferred: bool,
)
    requires
        id@.len() > 0,
        list == (if options.contains_key(PaneOption::Subagents) {
            options[PaneOption::Subagents]
        } else {
            Seq::empty()
        }),
        kept == fields(list).filter(
            |field: Seq<char>|
                !(field.len() > id@.len() && field[field.len() - id@.len() - 1] == ':'
                    && field.skip(field.len() - id@.len()) == id@),
        ),
        kept.len() < fields(list).len(),
        kept.len() == 0 || (kept.len() == 1 && kept[0].len() == 0),
        done <==> {
            &&& outlive
            &&& !(options.contains_key(PaneOption::TurnActive)
                && options[PaneOption::TurnActive].len() > 0)
            &&& options.contains_key(PaneOption::Status)
            &&& options[PaneOption::Status].len() > 0
            &&& options[PaneOption::Status] != "error"@
        },
        shell <==> options.contains_key(PaneOption::BgCmd) && options[PaneOption::BgCmd].len() > 0,
        deferred <==> options.contains_key(PaneOption::PendingWorktreeRemove)
            && options[PaneOption::PendingWorktreeRemove].len() > 0,
    ensures
        stop_writes(options, child_id(Some(id)), outlive) == seq![
            WriteView { option: PaneOption::Subagents, value: None },
            WriteView { option: PaneOption::PendingStopNotificationBody, value: None },
        ] + (if deferred {
            seq![
                WriteView { option: PaneOption::WorktreeName, value: None },
                WriteView { option: PaneOption::WorktreeBranch, value: None },
                WriteView { option: PaneOption::Cwd, value: None },
                WriteView { option: PaneOption::PendingWorktreeRemove, value: None },
            ]
        } else {
            Seq::empty()
        }) + (if done && shell {
            seq![
                WriteView { option: PaneOption::Attention, value: None },
                WriteView { option: PaneOption::WaitReason, value: None },
                WriteView { option: PaneOption::Status, value: Some("background"@) },
            ]
        } else if done {
            seq![
                WriteView { option: PaneOption::Attention, value: None },
                WriteView { option: PaneOption::StartedAt, value: None },
                WriteView { option: PaneOption::WaitReason, value: None },
                WriteView { option: PaneOption::Status, value: Some("idle"@) },
            ]
        } else {
            Seq::empty()
        }),
{
    let who = id@;
    let by_end = |field: Seq<char>|
        !(field.len() > who.len() && field[field.len() - who.len() - 1] == ':' && field.skip(
            field.len() - who.len(),
        ) == who);
    assert(by_end =~= |field: Seq<char>|
        !(field.len() > id@.len() && field[field.len() - id@.len() - 1] == ':' && field.skip(
            field.len() - id@.len(),
        ) == id@));
    removal_takes_the_fields_of_the_child_only(list, who, kept);
    roster_is_empty_when_nothing_is_left(kept);
}

/// No event writes an option twice, so that no reader of the pane sees an option
/// in a state that the event does not leave behind.
pub proof fn no_option_is_written_twice(options: OptionMap, event: HookEvent, i: int, j: int)
    requires
        0 <= i < j < event_writes(options, event).len(),
    ensures
        event_writes(options, event)[i].option != event_writes(options, event)[j].option,
{
}

/// A worktree removal while the roster is not empty sets its marker and touches
/// nothing else. With an empty roster it takes name, branch and working directory
/// off the pane and touches nothing else.
pub proof fn worktree_removal_on_every_option(options: OptionMap, live: bool)
    requires
        live <==> options.contains_key(PaneOption::Subagents)
            && options[PaneOption::Subagents].len() > 0,
    ensures
        ({
            let after = worktree_remove_options(options);
            &&& live ==> {
                &&& after.contains_key(PaneOption::PendingWorktreeRemove)
                &&& after[PaneOption::PendingWorktreeRemove] == "1"@
                &&& after[PaneOption::PendingWorktreeRemove].len() == 1
            }
            &&& !live ==> {
                &&& !after.contains_key(PaneOption::WorktreeName)
                &&& !after.contains_key(PaneOption::WorktreeBranch)
                &&& !after.contains_key(PaneOption::Cwd)
            }
            &&& forall|option: PaneOption|
                {
                    ||| live && option == PaneOption::PendingWorktreeRemove
                    ||| !live && (option == PaneOption::WorktreeName || option
                        == PaneOption::WorktreeBranch || option == PaneOption::Cwd)
                    ||| (#[trigger] after.contains_key(option)) == options.contains_key(option) && (
                    options.contains_key(option) ==> after[option] == options[option])
                }
        }),
        worktree_remove_writes(options) == (if live {
            seq![WriteView { option: PaneOption::PendingWorktreeRemove, value: Some("1"@) }]
        } else {
            seq![
                WriteView { option: PaneOption::WorktreeName, value: None },
                WriteView { option: PaneOption::WorktreeBranch, value: None },
                WriteView { option: PaneOption::Cwd, value: None },
            ]
        }),
{
    reveal_strlit("1");
}

/// Replaying what was deferred takes name, branch, working directory and marker
/// off a pane with a marker, touches nothing else there, and does nothing on a
/// pane without one, whatever its other options are.
pub proof fn replay_on_every_option(options: OptionMap, deferred: bool)
    requires
        deferred <==> options.contains_key(PaneOption::PendingWorktreeRemove)
            && options[PaneOption::PendingWorktreeRemove].len() > 0,
    ensures
        !deferred ==> drain_options(options) == options && drain_writes(options).len() == 0,
        deferred ==> ({
            let after = drain_options(options);
            &&& forall|option: PaneOption|
                {
                    let torn_down = option == PaneOption::WorktreeName || option
                        == PaneOption::WorktreeBranch || option == PaneOption::Cwd || option
                        == PaneOption::PendingWorktreeRemove;
                    &&& (#[trigger] after.contains_key(option)) == (options.contains_key(option)
                        && !torn_down)
                    &&& after.contains_key(option) ==> after[option] == options[option]
                }
            &&& drain_writes(options) == seq![
                WriteView { option: PaneOption::WorktreeName, value: None },
                WriteView { option: PaneOption::WorktreeBranch, value: None },
                WriteView { option: PaneOption::Cwd, value: None },
                WriteView { option: PaneOption::PendingWorktreeRemove, value: None },
            ]
        }),
{
}

/// Whatever starts, stops and removals follow a worktree removal, the pane has
/// either a live child and the marker for its last one, or nothing of the
/// worktree left.
pub proof fn deferred_removal_reaches_its_end(options: OptionMap, events: Seq<HookEvent>)
    ensures
        ({
            let now = after_events(worktree_remove_options(options), events);
            ||| {
                &&& now.contains_key(PaneOption::PendingWorktreeRemove)
                &&& now[PaneOption::PendingWorktreeRemove].len() > 0
                &&& now.contains_key(PaneOption::Subagents)
                &&& now[PaneOption::Subagents].len() > 0
            }
            ||| {
                &&& !now.contains_key(PaneOption::WorktreeName)
                &&& !now.contains_key(PaneOption::WorktreeBranch)
                &&& !now.contains_key(PaneOption::Cwd)
            }
        }),
{
    worktree_removal_is_never_lost(options, events);
}

/// A run of events is its events, one after another, each answered by its handler.
pub proof fn run_is_its_events_in_order(options: OptionMap, events: Seq<HookEvent>, last: HookEvent)
    ensures
        after_events(options, Seq::empty()) == options,
        after_events(options, events.push(last)) == match last {
            HookEvent::Start { agent_type, id } => start_options(
                after_events(options, events),
                agent_type,
                id,
            ),
            HookEvent::Stop { id, children_may_outlive_turn } => stop_options(
                after_events(options, events),
                id,
                children_may_outlive_turn,
            ),
            HookEvent::WorktreeRemove => worktree_remove_options(after_events(options, events)),
        },
        event_writes(options, last) == match last {
            HookEvent::Start { agent_type, id } => start_writes(options, agent_type, id),
            HookEvent::Stop { id, children_may_outlive_turn } => stop_writes(
                options,
                id,
                children_may_outlive_turn,
            ),
            HookEvent::WorktreeRemove => worktree_remove_writes(options),
        },
{
    assert(events.push(last).drop_last() =~= events);
}

} // verus!
