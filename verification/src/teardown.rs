//! Teardowns that must not run under a live child.
//!
//! Children share the parent's pane, so an event that ends a worktree or a
//! session may come from any of them. A worktree removal is deferred with a
//! marker and replayed once the last child has stopped. A session end is
//! skipped: nothing tells a parent's from a child's, and replaying one later
//! could wipe a live parent.

use crate::pane::{Pane, PaneOption};
#[allow(unused_imports)]
use crate::pane::{set_to, unset, value_of, OptionMap, WriteView};
use vstd::prelude::*;

verus! {

/// Whether the pane has live children.
pub open spec fn has_subagents(options: OptionMap) -> bool {
    value_of(options, PaneOption::Subagents).len() > 0
}

/// Whether a worktree teardown waits for the last child.
pub open spec fn worktree_remove_pending(options: OptionMap) -> bool {
    value_of(options, PaneOption::PendingWorktreeRemove).len() > 0
}

/// Whether the pane carries nothing of a worktree.
pub open spec fn worktree_is_gone(options: OptionMap) -> bool {
    &&& !options.contains_key(PaneOption::WorktreeName)
    &&& !options.contains_key(PaneOption::WorktreeBranch)
    &&& !options.contains_key(PaneOption::Cwd)
}

/// The writes that take a worktree off the pane.
pub open spec fn worktree_teardown_writes() -> Seq<WriteView> {
    seq![
        unset(PaneOption::WorktreeName),
        unset(PaneOption::WorktreeBranch),
        unset(PaneOption::Cwd),
    ]
}

/// The options after the worktree teardown.
pub open spec fn without_worktree(options: OptionMap) -> OptionMap {
    options.remove(PaneOption::WorktreeName).remove(PaneOption::WorktreeBranch).remove(
        PaneOption::Cwd,
    )
}

/// The writes of a worktree removal: a marker while children are live, the
/// teardown otherwise.
pub open spec fn worktree_remove_writes(options: OptionMap) -> Seq<WriteView> {
    if has_subagents(options) {
        seq![set_to(PaneOption::PendingWorktreeRemove, "1"@)]
    } else {
        worktree_teardown_writes()
    }
}

/// The options after a worktree removal.
pub open spec fn worktree_remove_options(options: OptionMap) -> OptionMap {
    if has_subagents(options) {
        options.insert(PaneOption::PendingWorktreeRemove, "1"@)
    } else {
        without_worktree(options)
    }
}

/// The writes that replay what was deferred: the worktree teardown and the
/// removal of its marker, where the marker is there.
pub open spec fn drain_writes(options: OptionMap) -> Seq<WriteView> {
    if worktree_remove_pending(options) {
        worktree_teardown_writes().push(unset(PaneOption::PendingWorktreeRemove))
    } else {
        Seq::empty()
    }
}

/// The options after what was deferred is replayed.
pub open spec fn drain_options(options: OptionMap) -> OptionMap {
    if worktree_remove_pending(options) {
        without_worktree(options).remove(PaneOption::PendingWorktreeRemove)
    } else {
        options
    }
}

/// Take the worktree off the pane.
fn run_worktree_remove_teardown(pane: &mut Pane)
    ensures
        final(pane)@ == old(pane)@.after(worktree_teardown_writes()),
        final(pane)@.options() == without_worktree(old(pane)@.options()),
{
    let ghost before = pane@;
    pane.unset(PaneOption::WorktreeName);
    pane.unset(PaneOption::WorktreeBranch);
    pane.unset(PaneOption::Cwd);
    assert(pane@ =~= before.after(worktree_teardown_writes()));
}

/// A worktree removal fired for the pane. Returns the hook's exit code.
pub fn on_worktree_remove(pane: &mut Pane) -> (code: i32)
    ensures
        code == 0,
        final(pane)@ == old(pane)@.after(worktree_remove_writes(old(pane)@.options())),
        final(pane)@.options() == worktree_remove_options(old(pane)@.options()),
{
    if pane.value(PaneOption::Subagents).as_str().is_empty() {
        run_worktree_remove_teardown(pane);
    } else {
        pane.set(PaneOption::PendingWorktreeRemove, "1");
    }
    0
}

/// Whether a session end that fired for the pane tears it down. While children
/// are live the event is skipped altogether.
pub fn session_end_tears_down(pane: &Pane) -> (runs: bool)
    ensures
        runs <==> !has_subagents(pane@.options()),
        runs <==> !(pane@.options().contains_key(PaneOption::Subagents)
            && pane@.options()[PaneOption::Subagents].len() > 0),
{
    pane.value(PaneOption::Subagents).as_str().is_empty()
}

/// Replay the teardown that was deferred while children were live.
pub fn drain_pending_teardowns(pane: &mut Pane)
    ensures
        final(pane)@ == old(pane)@.after(drain_writes(old(pane)@.options())),
        final(pane)@.options() == drain_options(old(pane)@.options()),
{
    let ghost before = pane@;
    if !pane.value(PaneOption::PendingWorktreeRemove).as_str().is_empty() {
        run_worktree_remove_teardown(pane);
        pane.unset(PaneOption::PendingWorktreeRemove);
    }
    assert(pane@ =~= before.after(drain_writes(before.options())));
}

} // verus!
