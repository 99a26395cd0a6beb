use cc_sessions::fork_tree::{build_fork_tree, filter_forks_for_list, visible_sessions, ForkTree};
use cc_sessions::interactive_state::{Action, InteractiveState};
use cc_sessions::session::{Session, SessionSource};

fn test_session(id: &str) -> Session {
    Session {
        id: id.to_string(),
        project: "test-project".to_string(),
        project_path: "/tmp/test-project".to_string(),
        filepath: format!("/tmp/{}.jsonl", id),
        created: 1_000,
        modified: 1_000,
        first_message: None,
        summary: Some("test summary".to_string()),
        name: None,
        turn_count: 1,
        source: SessionSource::Local,
        forked_from: None,
    }
}

#[test]
fn list_mode_excludes_forks_by_default() {
    let parent = test_session("parent");
    let mut fork = test_session("fork");
    fork.forked_from = Some("parent".to_string());

    let sessions = vec![parent, fork];
    let visible = filter_forks_for_list(&sessions, false);

    assert_eq!(visible.len(), 1);
    assert_eq!(visible[0].id, "parent");
}

#[test]
fn build_fork_tree_maps_parent_to_children() {
    let root = test_session("root");
    let mut child1 = test_session("child1");
    child1.forked_from = Some("root".to_string());
    let mut child2 = test_session("child2");
    child2.forked_from = Some("root".to_string());

    let sessions = vec![root, child1, child2];
    let children_map = build_fork_tree(&sessions);

    assert!(children_map.contains_key("root"));
    assert_eq!(children_map.get("root").unwrap().len(), 2);
    assert!(!children_map.contains_key("child1"));
    assert!(!children_map.contains_key("child2"));
}

#[test]
fn build_fork_tree_handles_nested_forks() {
    // root -> child -> grandchild
    let root = test_session("root");
    let mut child = test_session("child");
    child.forked_from = Some("root".to_string());
    let mut grandchild = test_session("grandchild");
    grandchild.forked_from = Some("child".to_string());

    let sessions = vec![root, child, grandchild];
    let children_map = build_fork_tree(&sessions);

    assert_eq!(children_map.get("root").unwrap().len(), 1);
    assert_eq!(children_map.get("child").unwrap().len(), 1);
    assert!(!children_map.contains_key("grandchild"));
}

#[test]
fn fork_tree_children_sorted_by_modified_descending() {
    let parent = test_session("parent");
    let mut a = test_session("a");
    a.forked_from = Some("parent".to_string());
    a.modified = 10;
    let mut b = test_session("b");
    b.forked_from = Some("parent".to_string());
    b.modified = 30;
    let mut c = test_session("c");
    c.forked_from = Some("parent".to_string());
    c.modified = 20;

    let sessions = vec![parent, a, b, c];
    let tree = build_fork_tree(&sessions);
    let children = tree.get("parent").unwrap();
    let ids: Vec<&str> = children.iter().map(|s| s.id.as_str()).collect();
    assert_eq!(ids, ["b", "c", "a"]);
}

/// Collect a session and all its descendants into a vec (test helper).
fn collect_subtree<'a>(session: &'a Session, tree: &'a ForkTree, result: &mut Vec<&'a Session>) {
    result.push(session);
    if let Some(children) = tree.get(&session.id) {
        for child in children {
            collect_subtree(child, tree, result);
        }
    }
}

#[test]
fn collect_subtree_includes_all_descendants() {
    // root -> child1, child2
    // child1 -> grandchild
    let root = test_session("root");
    let mut child1 = test_session("child1");
    child1.forked_from = Some("root".to_string());
    let mut child2 = test_session("child2");
    child2.forked_from = Some("root".to_string());
    let mut grandchild = test_session("grandchild");
    grandchild.forked_from = Some("child1".to_string());

    let sessions = vec![root, child1, child2, grandchild];
    let children_map = build_fork_tree(&sessions);

    let mut result = Vec::new();
    collect_subtree(&sessions[0], &children_map, &mut result);

    assert_eq!(result.len(), 4);
    let ids: Vec<&str> = result.iter().map(|s| s.id.as_str()).collect();
    assert!(ids.contains(&"root"));
    assert!(ids.contains(&"child1"));
    assert!(ids.contains(&"child2"));
    assert!(ids.contains(&"grandchild"));
}

#[test]
fn collect_subtree_from_middle_excludes_siblings() {
    // root -> child1, child2
    // child1 -> grandchild
    let root = test_session("root");
    let mut child1 = test_session("child1");
    child1.forked_from = Some("root".to_string());
    let mut child2 = test_session("child2");
    child2.forked_from = Some("root".to_string());
    let mut grandchild = test_session("grandchild");
    grandchild.forked_from = Some("child1".to_string());

    let sessions = vec![root, child1, child2, grandchild];
    let children_map = build_fork_tree(&sessions);

    let mut result = Vec::new();
    collect_subtree(&sessions[1], &children_map, &mut result);

    assert_eq!(result.len(), 2);
    let ids: Vec<&str> = result.iter().map(|s| s.id.as_str()).collect();
    assert!(ids.contains(&"child1"));
    assert!(ids.contains(&"grandchild"));
    assert!(!ids.contains(&"root"));
    assert!(!ids.contains(&"child2"));
}

#[test]
fn visible_sessions_follow_navigation_state() {
    let root = test_session("root");
    let mut child = test_session("child");
    child.forked_from = Some("root".to_string());
    let mut orphan = test_session("orphan");
    orphan.forked_from = Some("gone".to_string());

    let sessions = vec![root, child, orphan];
    let tree = build_fork_tree(&sessions);

    // Root view: roots plus orphaned forks, not the child.
    let mut state = InteractiveState::default();
    let visible = visible_sessions(&sessions, &state, &tree);
    let ids: Vec<&str> = visible.iter().map(|s| s.id.as_str()).collect();
    assert_eq!(ids, ["root", "orphan"]);

    // Focused view: the focused session plus its direct children.
    state.push_focus_for_test("root");
    let visible = visible_sessions(&sessions, &state, &tree);
    let ids: Vec<&str> = visible.iter().map(|s| s.id.as_str()).collect();
    assert_eq!(ids, ["root", "child"]);

    // Search view: exactly the matched ids.
    let _ = state.apply(Action::ApplySearchResults {
        pattern: "x".to_string(),
        matched_ids: vec!["child".to_string()],
    });
    let visible = visible_sessions(&sessions, &state, &tree);
    let ids: Vec<&str> = visible.iter().map(|s| s.id.as_str()).collect();
    assert_eq!(ids, ["child"]);
}
