use tmux_agent_hook::pane::{OptionWrite, Pane, PaneOption};
use tmux_agent_hook::subagent::{on_subagent_start, on_subagent_stop};
use tmux_agent_hook::teardown::{on_worktree_remove, session_end_tears_down};

const GROK_AGENT: &str = "grok";

struct DesktopNotificationSettings {
    enabled: bool,
    events: Vec<String>,
}

fn default_notifications() -> DesktopNotificationSettings {
    DesktopNotificationSettings {
        enabled: false,
        events: Default::default(),
    }
}

fn pane_with(id: &str, options: &[(PaneOption, &str)]) -> Pane {
    let snapshot = options.iter().map(|(o, v)| (*o, v.to_string())).collect();
    Pane::load(id, snapshot)
}

fn contains(pane: &Pane, option: PaneOption) -> bool {
    pane.get(option).is_some()
}

fn written(pane: &Pane) -> Vec<(PaneOption, Option<&str>)> {
    pane.writes()
        .iter()
        .map(|w: &OptionWrite| (w.option, w.value.as_deref()))
        .collect()
}

#[test]
fn on_subagent_start_appends_to_list() {
    let mut pane = pane_with("%SUB_START", &[]);
    on_subagent_start(&mut pane, "Explore", Some("sub-1"));
    assert_eq!(
        pane.get(PaneOption::Subagents).as_deref(),
        Some("Explore:sub-1")
    );
    on_subagent_start(&mut pane, "Plan", Some("sub-2"));
    assert_eq!(
        pane.get(PaneOption::Subagents).as_deref(),
        Some("Explore:sub-1,Plan:sub-2")
    );
}

#[test]
fn on_subagent_start_drops_event_without_id() {
    let mut pane = pane_with("%SUB_NO_ID", &[]);
    on_subagent_start(&mut pane, "Explore", None);
    assert!(!contains(&pane, PaneOption::Subagents));
    on_subagent_start(&mut pane, "Explore", Some(""));
    assert!(!contains(&pane, PaneOption::Subagents));
}

#[test]
fn last_grok_subagent_stop_settles_background_without_shell() {
    let mut pane = pane_with(
        "%SUB_LAST_BACKGROUND",
        &[
            (PaneOption::Agent, GROK_AGENT),
            (PaneOption::Subagents, "Explore:sub-1"),
            (PaneOption::Status, "background"),
            (PaneOption::StartedAt, "1700"),
        ],
    );

    on_subagent_stop(&mut pane, Some("sub-1"), true, &default_notifications());

    assert_eq!(pane.get(PaneOption::Status).as_deref(), Some("idle"));
    assert!(!contains(&pane, PaneOption::StartedAt));
    assert!(!contains(&pane, PaneOption::Subagents));
}

#[test]
fn last_grok_subagent_stop_consumes_deferred_completion_notification() {
    let mut pane = pane_with(
        "%SUB_LAST_DEFERRED_NOTIFICATION",
        &[
            (PaneOption::Agent, GROK_AGENT),
            (PaneOption::Subagents, "Explore:sub-1"),
            (PaneOption::Status, "background"),
            (PaneOption::PendingStopNotificationBody, "parent response"),
        ],
    );

    on_subagent_stop(&mut pane, Some("sub-1"), true, &default_notifications());

    assert!(
        !contains(&pane, PaneOption::PendingStopNotificationBody),
        "the final child must consume the pending Stop notification"
    );
}

#[test]
fn last_grok_subagent_stop_settles_inactive_parent_after_child_state_transitions() {
    for status in ["waiting", "running"] {
        let mut pane = pane_with(
            &format!("%SUB_LAST_{}", status.to_uppercase()),
            &[
                (PaneOption::Agent, GROK_AGENT),
                (PaneOption::Subagents, "Explore:sub-1"),
                (PaneOption::Status, status),
                (PaneOption::StartedAt, "1700"),
                (PaneOption::Attention, "notification"),
                (PaneOption::PendingStopNotificationBody, "parent response"),
            ],
        );

        on_subagent_stop(&mut pane, Some("sub-1"), true, &default_notifications());

        assert_eq!(
            pane.get(PaneOption::Status).as_deref(),
            Some("idle"),
            "an inactive parent must settle after its final child stops from {status}"
        );
        assert!(!contains(&pane, PaneOption::StartedAt));
        assert!(!contains(&pane, PaneOption::PendingStopNotificationBody));
        assert!(!contains(&pane, PaneOption::Attention));
    }
}

#[test]
fn last_grok_subagent_stop_keeps_background_shell_running() {
    let mut pane = pane_with(
        "%SUB_LAST_WITH_SHELL",
        &[
            (PaneOption::Agent, GROK_AGENT),
            (PaneOption::Subagents, "Explore:sub-1"),
            (PaneOption::BgCmd, "sleep 300"),
            (PaneOption::Status, "background"),
            (PaneOption::StartedAt, "1700"),
            (PaneOption::PendingStopNotificationBody, "parent response"),
        ],
    );

    on_subagent_stop(&mut pane, Some("sub-1"), true, &default_notifications());

    assert_eq!(pane.get(PaneOption::Status).as_deref(), Some("background"));
    assert_eq!(pane.get(PaneOption::StartedAt).as_deref(), Some("1700"));
    assert!(
        !contains(&pane, PaneOption::PendingStopNotificationBody),
        "shell-backed background work keeps the existing no-notification behavior"
    );
}

#[test]
fn last_grok_subagent_stop_restores_background_after_child_transition_with_live_shell() {
    for status in ["waiting", "running"] {
        let mut pane = pane_with(
            &format!("%SUB_LAST_SHELL_{}", status.to_uppercase()),
            &[
                (PaneOption::Agent, GROK_AGENT),
                (PaneOption::Subagents, "Explore:sub-1"),
                (PaneOption::BgCmd, "sleep 300"),
                (PaneOption::Status, status),
                (PaneOption::StartedAt, "1700"),
                (PaneOption::WaitReason, "permission"),
                (PaneOption::Attention, "notification"),
            ],
        );

        on_subagent_stop(&mut pane, Some("sub-1"), true, &default_notifications());

        assert_eq!(
            pane.get(PaneOption::Status).as_deref(),
            Some("background"),
            "a settled parent with a live shell must return to background from {status}"
        );
        assert_eq!(pane.get(PaneOption::StartedAt).as_deref(), Some("1700"));
        assert!(!contains(&pane, PaneOption::WaitReason));
        assert!(!contains(&pane, PaneOption::Attention));
    }
}

#[test]
fn last_grok_subagent_stop_does_not_settle_running_parent() {
    let mut pane = pane_with(
        "%SUB_LAST_RUNNING",
        &[
            (PaneOption::Agent, GROK_AGENT),
            (PaneOption::Subagents, "Explore:sub-1"),
            (PaneOption::Status, "running"),
            (PaneOption::StartedAt, "1700"),
            (PaneOption::TurnActive, "1"),
        ],
    );

    on_subagent_stop(&mut pane, Some("sub-1"), true, &default_notifications());

    assert_eq!(pane.get(PaneOption::Status).as_deref(), Some("running"));
    assert_eq!(pane.get(PaneOption::StartedAt).as_deref(), Some("1700"));
}

#[test]
fn last_subagent_stop_does_not_infer_settlement_for_claude_without_turn_marker() {
    let mut pane = pane_with(
        "%SUB_LAST_CLAUDE_UNINITIALIZED_TURN_MARKER",
        &[
            (PaneOption::Agent, "other-agent"),
            (PaneOption::Subagents, "Explore:sub-1"),
            (PaneOption::Status, "running"),
            (PaneOption::StartedAt, "1700"),
        ],
    );

    on_subagent_stop(&mut pane, Some("sub-1"), false, &default_notifications());

    assert_eq!(pane.get(PaneOption::Status).as_deref(), Some("running"));
    assert_eq!(pane.get(PaneOption::StartedAt).as_deref(), Some("1700"));
    assert!(!contains(&pane, PaneOption::Subagents));
}

#[test]
fn pending_worktree_remove_drains_when_last_subagent_stops() {
    let mut pane = pane_with(
        "%PARENT_WT_DEFER",
        &[
            (PaneOption::Subagents, "Explore:sub-1"),
            (PaneOption::WorktreeName, "feat"),
            (PaneOption::WorktreeBranch, "feat"),
            (PaneOption::Cwd, "/wt/feat"),
        ],
    );

    on_worktree_remove(&mut pane);
    assert!(
        contains(&pane, PaneOption::PendingWorktreeRemove),
        "WorktreeRemove must be deferred via the pending marker"
    );
    assert!(contains(&pane, PaneOption::WorktreeName));

    on_subagent_stop(&mut pane, Some("sub-1"), false, &default_notifications());

    assert!(!contains(&pane, PaneOption::WorktreeName));
    assert!(!contains(&pane, PaneOption::WorktreeBranch));
    assert!(!contains(&pane, PaneOption::Cwd));
    assert!(
        !contains(&pane, PaneOption::PendingWorktreeRemove),
        "pending marker must be cleared once teardown runs"
    );
}

#[test]
fn pending_worktree_remove_waits_for_last_subagent() {
    let mut pane = pane_with(
        "%PARENT_WT_PARTIAL",
        &[
            (PaneOption::Subagents, "Explore:sub-1,Plan:sub-2"),
            (PaneOption::WorktreeName, "feat"),
            (PaneOption::WorktreeBranch, "feat"),
            (PaneOption::Cwd, "/wt/feat"),
        ],
    );

    on_worktree_remove(&mut pane);
    assert!(contains(&pane, PaneOption::PendingWorktreeRemove));

    on_subagent_stop(&mut pane, Some("sub-1"), false, &default_notifications());
    assert!(
        contains(&pane, PaneOption::WorktreeName),
        "teardown must wait for the LAST subagent"
    );
    assert!(contains(&pane, PaneOption::PendingWorktreeRemove));

    on_subagent_stop(&mut pane, Some("sub-2"), false, &default_notifications());
    assert!(!contains(&pane, PaneOption::WorktreeName));
    assert!(!contains(&pane, PaneOption::PendingWorktreeRemove));
}

#[test]
fn session_end_under_live_children_is_skipped_and_the_parent_survives() {
    let mut pane = pane_with(
        "%CHILD_SESSIONEND",
        &[
            (PaneOption::Subagents, "Explore:sub-1"),
            (PaneOption::Agent, "other-agent"),
            (PaneOption::Cwd, "/repo/parent"),
            (PaneOption::Status, "running"),
        ],
    );

    assert!(!session_end_tears_down(&pane));
    assert!(!contains(&pane, PaneOption::PendingSessionEnd));

    on_subagent_stop(&mut pane, Some("sub-1"), false, &default_notifications());
    assert_eq!(pane.get(PaneOption::Agent).as_deref(), Some("other-agent"));
    assert_eq!(pane.get(PaneOption::Cwd).as_deref(), Some("/repo/parent"));
    assert_eq!(pane.get(PaneOption::Status).as_deref(), Some("running"));
    assert!(session_end_tears_down(&pane));
}

#[test]
fn start_writes_the_roster_and_nothing_else() {
    let mut pane = pane_with("%1", &[(PaneOption::Status, "running")]);
    assert_eq!(on_subagent_start(&mut pane, "Explore", Some("sub-1")), 0);
    assert_eq!(pane.id(), "%1");
    assert_eq!(
        written(&pane),
        vec![(PaneOption::Subagents, Some("Explore:sub-1"))]
    );
}

#[test]
fn stop_without_id_or_of_an_unknown_child_writes_nothing() {
    let settings = default_notifications();
    for id in [None, Some(""), Some("sub-9"), Some("1"), Some("Explore:sub-1")] {
        let mut pane = pane_with(
            "%1",
            &[
                (PaneOption::Subagents, "Explore:sub-1"),
                (PaneOption::Status, "background"),
                (PaneOption::PendingStopNotificationBody, "body"),
            ],
        );
        let outcome = on_subagent_stop(&mut pane, id, true, &settings);
        assert_eq!(outcome.exit_code, 0);
        assert!(outcome.notification.is_none());
        assert!(pane.writes().is_empty());
    }
}

#[test]
fn stop_of_one_of_two_children_writes_the_shorter_roster() {
    let settings = default_notifications();
    let mut pane = pane_with(
        "%1",
        &[
            (PaneOption::Subagents, "Explore:sub-1,Plan:sub-2"),
            (PaneOption::Status, "background"),
            (PaneOption::PendingStopNotificationBody, "body"),
        ],
    );
    let outcome = on_subagent_stop(&mut pane, Some("sub-1"), true, &settings);
    assert!(outcome.notification.is_none());
    assert_eq!(
        written(&pane),
        vec![(PaneOption::Subagents, Some("Plan:sub-2"))]
    );
}

#[test]
fn idle_settlement_writes_in_order_and_hands_on_the_notification() {
    let settings = DesktopNotificationSettings {
        enabled: true,
        events: vec!["stop".to_string()],
    };
    let mut pane = pane_with(
        "%1",
        &[
            (PaneOption::Agent, GROK_AGENT),
            (PaneOption::Subagents, "Explore:sub-1"),
            (PaneOption::Status, "waiting"),
            (PaneOption::WaitReason, "permission"),
            (PaneOption::PendingStopNotificationBody, "parent response"),
            (PaneOption::PendingWorktreeRemove, "1"),
        ],
    );
    let outcome = on_subagent_stop(&mut pane, Some("sub-1"), true, &settings);
    assert_eq!(
        written(&pane),
        vec![
            (PaneOption::Subagents, None),
            (PaneOption::PendingStopNotificationBody, None),
            (PaneOption::WorktreeName, None),
            (PaneOption::WorktreeBranch, None),
            (PaneOption::Cwd, None),
            (PaneOption::PendingWorktreeRemove, None),
            (PaneOption::Attention, None),
            (PaneOption::StartedAt, None),
            (PaneOption::WaitReason, None),
            (PaneOption::Status, Some("idle")),
        ]
    );
    let notification = outcome.notification.unwrap();
    assert_eq!(notification.agent, GROK_AGENT);
    assert_eq!(notification.body, "parent response");
    assert!(notification.notifications.enabled);
    assert_eq!(notification.notifications.events, vec!["stop".to_string()]);
    assert!(!contains(&pane, PaneOption::WaitReason));
}

#[test]
fn background_settlement_writes_in_order_and_notifies_nobody() {
    let settings = default_notifications();
    let mut pane = pane_with(
        "%1",
        &[
            (PaneOption::Subagents, "Explore:sub-1"),
            (PaneOption::BgCmd, "sleep 300"),
            (PaneOption::Status, "running"),
            (PaneOption::PendingStopNotificationBody, "parent response"),
        ],
    );
    let outcome = on_subagent_stop(&mut pane, Some("sub-1"), true, &settings);
    assert!(outcome.notification.is_none());
    assert_eq!(
        written(&pane),
        vec![
            (PaneOption::Subagents, None),
            (PaneOption::PendingStopNotificationBody, None),
            (PaneOption::Attention, None),
            (PaneOption::WaitReason, None),
            (PaneOption::Status, Some("background")),
        ]
    );
}

#[test]
fn settlement_without_a_pending_body_notifies_nobody() {
    let settings = default_notifications();
    let mut pane = pane_with(
        "%1",
        &[
            (PaneOption::Subagents, "Explore:sub-1"),
            (PaneOption::Status, "background"),
        ],
    );
    let outcome = on_subagent_stop(&mut pane, Some("sub-1"), true, &settings);
    assert!(outcome.notification.is_none());
    assert_eq!(pane.get(PaneOption::Status).as_deref(), Some("idle"));
}

#[test]
fn pending_body_is_delivered_once() {
    let settings = default_notifications();
    let mut pane = pane_with(
        "%1",
        &[
            (PaneOption::Subagents, "Explore:sub-1"),
            (PaneOption::Status, "background"),
            (PaneOption::PendingStopNotificationBody, "parent response"),
        ],
    );
    let first = on_subagent_stop(&mut pane, Some("sub-1"), true, &settings);
    assert!(first.notification.is_some());
    on_subagent_start(&mut pane, "Plan", Some("sub-2"));
    let second = on_subagent_stop(&mut pane, Some("sub-2"), true, &settings);
    assert!(second.notification.is_none());
}

#[test]
fn error_and_missing_status_are_left_alone() {
    let settings = default_notifications();
    for options in [
        vec![
            (PaneOption::Subagents, "Explore:sub-1"),
            (PaneOption::Status, "error"),
            (PaneOption::Attention, "notification"),
            (PaneOption::PendingStopNotificationBody, "parent response"),
        ],
        vec![
            (PaneOption::Subagents, "Explore:sub-1"),
            (PaneOption::Attention, "notification"),
            (PaneOption::PendingStopNotificationBody, "parent response"),
        ],
    ] {
        let mut pane = pane_with("%1", &options);
        let status = pane.get(PaneOption::Status);
        let outcome = on_subagent_stop(&mut pane, Some("sub-1"), true, &settings);
        assert!(outcome.notification.is_none());
        assert_eq!(pane.get(PaneOption::Status), status);
        assert!(contains(&pane, PaneOption::Attention));
        assert!(!contains(&pane, PaneOption::PendingStopNotificationBody));
        assert!(!contains(&pane, PaneOption::Subagents));
    }
}

#[test]
fn stop_undoes_start_under_live_siblings() {
    let settings = default_notifications();
    let mut pane = pane_with("%1", &[(PaneOption::Subagents, "Explore:sub-1")]);
    on_subagent_start(&mut pane, "plugin:Plan", Some("sub-2"));
    assert_eq!(
        pane.get(PaneOption::Subagents).as_deref(),
        Some("Explore:sub-1,plugin:Plan:sub-2")
    );
    on_subagent_stop(&mut pane, Some("sub-2"), true, &settings);
    assert_eq!(
        pane.get(PaneOption::Subagents).as_deref(),
        Some("Explore:sub-1")
    );
}

#[test]
fn worktree_removal_without_children_runs_at_once() {
    let mut pane = pane_with(
        "%1",
        &[
            (PaneOption::WorktreeName, "feat"),
            (PaneOption::WorktreeBranch, "feat"),
            (PaneOption::Cwd, "/wt/feat"),
        ],
    );
    assert_eq!(on_worktree_remove(&mut pane), 0);
    assert_eq!(
        written(&pane),
        vec![
            (PaneOption::WorktreeName, None),
            (PaneOption::WorktreeBranch, None),
            (PaneOption::Cwd, None),
        ]
    );
    assert!(!contains(&pane, PaneOption::WorktreeName));
}

#[test]
fn deferred_removal_survives_a_start_in_between() {
    let settings = default_notifications();
    let mut pane = pane_with(
        "%1",
        &[
            (PaneOption::Subagents, "Explore:sub-1"),
            (PaneOption::WorktreeName, "feat"),
        ],
    );
    on_worktree_remove(&mut pane);
    on_subagent_start(&mut pane, "Plan", Some("sub-2"));
    on_subagent_stop(&mut pane, Some("sub-1"), false, &settings);
    assert!(contains(&pane, PaneOption::PendingWorktreeRemove));
    assert!(contains(&pane, PaneOption::WorktreeName));
    on_subagent_stop(&mut pane, Some("sub-2"), false, &settings);
    assert!(!contains(&pane, PaneOption::PendingWorktreeRemove));
    assert!(!contains(&pane, PaneOption::WorktreeName));
}

#[test]
fn reads_see_writes_and_later_snapshot_values() {
    let mut pane = pane_with(
        "%1",
        &[(PaneOption::Status, "idle"), (PaneOption::Status, "running")],
    );
    assert_eq!(pane.value(PaneOption::Status), "running");
    assert_eq!(pane.value(PaneOption::Agent), "");
    pane.set(PaneOption::Status, "waiting");
    assert_eq!(pane.value(PaneOption::Status), "waiting");
    pane.unset(PaneOption::Status);
    assert_eq!(pane.get(PaneOption::Status), None);
    assert_eq!(
        written(&pane),
        vec![
            (PaneOption::Status, Some("waiting")),
            (PaneOption::Status, None)
        ]
    );
}
