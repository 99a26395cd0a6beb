use cc_sessions::message_classification::{classify_user_text_for_metrics, counts_as_turn, is_first_prompt_candidate, MessageKind};

#[test]
fn message_classification_classify_user_text_for_metrics_table() {
    let cases = [
        ("normal user text", MessageKind::UserContent),
        ("/help", MessageKind::SlashCommand),
        (
            "<command-message>init</command-message>",
            MessageKind::CommandTag,
        ),
        ("[local command output]", MessageKind::BracketedOutput),
        ("", MessageKind::Empty),
    ];

    for (text, expected) in cases {
        assert_eq!(classify_user_text_for_metrics(text), expected);
    }
}

#[test]
fn catalog_classify_user_text_for_metrics_table() {
    let cases = [
        ("normal user text", MessageKind::UserContent),
        ("/help", MessageKind::SlashCommand),
        (
            "<command-message>init</command-message>",
            MessageKind::CommandTag,
        ),
        ("[local command output]", MessageKind::BracketedOutput),
        ("", MessageKind::Empty),
    ];

    for (text, expected) in cases {
        assert_eq!(classify_user_text_for_metrics(text), expected);
    }
}

#[test]
fn counts_as_turn_matches_classification() {
    assert!(counts_as_turn("real question"));
    assert!(!counts_as_turn("/help"));
    assert!(!counts_as_turn("<tag>"));
    assert!(!counts_as_turn("[bracketed]"));
    assert!(!counts_as_turn(""));
}

#[test]
fn first_prompt_candidate_allows_brackets_except_request() {
    assert!(is_first_prompt_candidate("[tool output]"));
    assert!(!is_first_prompt_candidate("[Request interrupted]"));
    assert!(!is_first_prompt_candidate("/help"));
    assert!(!is_first_prompt_candidate("<tag>"));
    assert!(!is_first_prompt_candidate(""));
    assert!(is_first_prompt_candidate("plain text"));
}
