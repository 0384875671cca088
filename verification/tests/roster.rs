use tmux_agent_hook::roster::{append_subagent, remove_subagent};

#[test]
fn append_separates_entries_with_commas() {
    assert_eq!(append_subagent("", "Explore", "sub-1"), "Explore:sub-1");
    assert_eq!(
        append_subagent("Explore:sub-1", "Plan", "sub-2"),
        "Explore:sub-1,Plan:sub-2"
    );
}

#[test]
fn remove_keeps_the_other_entries_in_order() {
    let list = "Explore:a,Plan:b,Explore:c";
    assert_eq!(remove_subagent(list, "b").as_deref(), Some("Explore:a,Explore:c"));
    assert_eq!(remove_subagent(list, "a").as_deref(), Some("Plan:b,Explore:c"));
    assert_eq!(remove_subagent(list, "c").as_deref(), Some("Explore:a,Plan:b"));
}

#[test]
fn remove_takes_every_entry_of_the_child() {
    assert_eq!(
        remove_subagent("Explore:a,Plan:b,Explore:a", "a").as_deref(),
        Some("Plan:b")
    );
}

#[test]
fn remove_of_the_only_entry_leaves_an_empty_roster() {
    assert_eq!(remove_subagent("Explore:a", "a").as_deref(), Some(""));
}

#[test]
fn remove_of_an_unknown_child_is_none() {
    assert_eq!(remove_subagent("", "a"), None);
    assert_eq!(remove_subagent("Explore:a", "b"), None);
    assert_eq!(remove_subagent("Explore:ba", "a"), None);
    assert_eq!(remove_subagent("a", "a"), None);
}

#[test]
fn remove_undoes_append() {
    for list in ["", "Explore:a", "Explore:a,Plan:b"] {
        let longer = append_subagent(list, "plugin:wörk", "ïd-1");
        assert_eq!(remove_subagent(&longer, "ïd-1").as_deref(), Some(list));
        assert_eq!(remove_subagent(list, "ïd-1"), None);
    }
}
