use cc_sessions::interactive_state::{Action, Effect, InteractiveState};

#[test]
fn esc_priority_search_then_focus_then_exit() {
    let mut state = InteractiveState::default();
    state.push_focus_for_test("root");

    let matched = vec!["a".to_string()];
    assert_eq!(
        state.apply(Action::ApplySearchResults {
            pattern: "api".to_string(),
            matched_ids: matched,
        }),
        Effect::Continue
    );

    assert_eq!(state.apply(Action::Esc), Effect::Continue);
    assert!(state.search_results().is_none());
    assert!(state.search_pattern().is_none());
    assert!(state.focus().is_some());

    assert_eq!(state.apply(Action::Esc), Effect::Continue);
    assert!(state.focus().is_none());

    assert_eq!(state.apply(Action::Esc), Effect::Exit);
}

#[test]
fn right_arrow_only_drills_when_has_children() {
    let mut state = InteractiveState::default();

    assert_eq!(
        state.apply(Action::Right {
            selected_id: Some("leaf".to_string()),
            has_children: false,
        }),
        Effect::Continue
    );
    assert!(state.focus().is_none());

    assert_eq!(
        state.apply(Action::Right {
            selected_id: Some("parent".to_string()),
            has_children: true,
        }),
        Effect::Continue
    );
    assert_eq!(state.focus().map(String::as_str), Some("parent"));
}

#[test]
fn ctrl_s_empty_query_is_noop() {
    let mut state = InteractiveState::default();
    assert_eq!(
        state.apply(Action::CtrlS {
            query: "   ".to_string()
        }),
        Effect::Continue
    );
    assert!(state.search_pattern().is_none());
    assert!(state.search_results().is_none());
}

#[test]
fn ctrl_s_trims_query_into_search_effect() {
    let mut state = InteractiveState::default();
    assert_eq!(
        state.apply(Action::CtrlS {
            query: "  api \n".to_string()
        }),
        Effect::RunSearch {
            pattern: "api".to_string()
        }
    );
    // the state itself is untouched until results are applied
    assert!(state.search_pattern().is_none());
}

#[test]
fn right_arrow_on_focused_session_is_noop() {
    let mut state = InteractiveState::default();
    state.push_focus_for_test("parent");
    assert_eq!(
        state.apply(Action::Right {
            selected_id: Some("parent".to_string()),
            has_children: true,
        }),
        Effect::Continue
    );
    assert_eq!(state.focus().map(String::as_str), Some("parent"));
    // the stack did not grow: one Left pops back to the root view
    assert_eq!(state.apply(Action::Left), Effect::Continue);
    assert!(state.focus().is_none());
}

#[test]
fn enter_without_selection_continues_with_selection_selects() {
    let mut state = InteractiveState::default();
    assert_eq!(state.apply(Action::Enter { selected_id: None }), Effect::Continue);
    assert_eq!(
        state.apply(Action::Enter {
            selected_id: Some("abc".to_string())
        }),
        Effect::Select {
            session_id: "abc".to_string()
        }
    );
}
