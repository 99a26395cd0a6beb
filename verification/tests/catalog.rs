use cc_sessions::catalog::{
    count_turns, extract_session_metadata, find_all_sessions_with_summary, find_sessions,
    read_file_head, scan_head_turns_and_search, session_search_text_lower, should_include_source,
    remote_source_included, RemoteOutcome, SessionFileData, SourceFetch,
};
use cc_sessions::session::{
    extract_project_name, is_valid_session_file, is_valid_session_uuid, DiscoveryFailure,
    DiscoverySummary, Session, SessionSource,
};

// =========================================================================
// Identifier validation
// =========================================================================

#[test]
fn uuid_validation_valid_uuids() {
    assert!(is_valid_session_uuid("12345678-1234-1234-1234-123456789abc"));
    assert!(is_valid_session_uuid("abcdef00-abcd-abcd-abcd-abcdef123456"));
    assert!(is_valid_session_uuid("ABCDEF00-ABCD-ABCD-ABCD-ABCDEF123456"));
}

#[test]
fn uuid_validation_invalid_formats() {
    // Wrong segment lengths
    assert!(!is_valid_session_uuid("1234567-1234-1234-1234-123456789abc")); // 7 chars
    assert!(!is_valid_session_uuid("12345678-123-1234-1234-123456789abc")); // 3 chars
    assert!(!is_valid_session_uuid("12345678-1234-1234-1234-123456789ab")); // 11 chars

    // Wrong number of segments
    assert!(!is_valid_session_uuid("12345678-1234-1234-123456789abc"));
    assert!(!is_valid_session_uuid("12345678-1234-1234-1234-1234-123456789abc"));

    // Non-hex characters
    assert!(!is_valid_session_uuid("1234567g-1234-1234-1234-123456789abc"));

    // Old-style names
    assert!(!is_valid_session_uuid("agent-12345"));
    assert!(!is_valid_session_uuid("black-knight-battle"));
    assert!(!is_valid_session_uuid("sessions-index"));
}

// =========================================================================
// Project name extraction
// =========================================================================

#[test]
fn extract_project_name_from_path() {
    assert_eq!(
        extract_project_name("/Users/foo/my-project", "ignored"),
        "my-project"
    );
    assert_eq!(
        extract_project_name("/home/user/code/bike-power", "ignored"),
        "bike-power"
    );
}

#[test]
fn extract_project_name_from_dir_fallback() {
    assert_eq!(
        extract_project_name("", "-Users-iantay-Documents-repos-cc-session"),
        "cc-session"
    );
    assert_eq!(
        extract_project_name("", "-Users-iantay-third-party-repos-foo"),
        "foo"
    );
    assert_eq!(
        extract_project_name("", "-Users-someone-Documents-bar"),
        "bar"
    );
}

// =========================================================================
// Helpers for synthetic session files
// =========================================================================

fn test_uuid(n: u8) -> String {
    format!(
        "{:08x}-{:04x}-{:04x}-{:04x}-{:012x}",
        n as u32, n as u16, n as u16, n as u16, n as u64
    )
}

fn split_lines(content: &str) -> Vec<String> {
    content.lines().map(str::to_string).collect()
}

fn file_data(dir: &str, name: &str, content: &str, modified: u64) -> SessionFileData {
    SessionFileData {
        filepath: format!("/tmp/{}/{}", dir, name),
        parent_dir: dir.to_string(),
        lines: split_lines(content),
        tail_window: content.to_string(),
        tail_seeked: false,
        created: modified,
        modified,
    }
}

// =========================================================================
// Discovery over candidate files
// =========================================================================

#[test]
fn find_sessions_with_uuid_files() {
    let uuid1 = test_uuid(1);
    let uuid2 = test_uuid(2);

    let files = vec![
        file_data(
            "-Users-sirrobin-holy-grail",
            &format!("{}.jsonl", uuid1),
            r#"{"type":"user","message":{"role":"user","content":"Tis but a scratch"},"cwd":"/Users/sirrobin/holy-grail"}"#,
            100,
        ),
        file_data(
            "-Users-sirrobin-holy-grail",
            &format!("{}.jsonl", uuid2),
            "{\"type\":\"user\",\"message\":{\"role\":\"user\",\"content\":\"Run away!\"},\"cwd\":\"/Users/sirrobin/holy-grail\"}\n{\"type\":\"summary\",\"summary\":\"Deploying Holy Hand Grenade of Antioch\"}",
            200,
        ),
    ];

    let sessions = find_sessions(&files);

    assert_eq!(sessions.len(), 2);
    assert_eq!(sessions[0].project, "holy-grail");

    let with_summary = sessions.iter().find(|s| s.summary.is_some()).unwrap();
    assert_eq!(
        with_summary.summary,
        Some("Deploying Holy Hand Grenade of Antioch".to_string())
    );
}

#[test]
fn find_sessions_filters_non_uuid_files() {
    let valid_uuid = test_uuid(42);

    let files = vec![
        file_data(
            "-Users-arthur-camelot",
            &format!("{}.jsonl", valid_uuid),
            r#"{"type":"user","message":{"role":"user","content":"What is your quest?"},"cwd":"/Users/arthur/camelot"}"#,
            100,
        ),
        file_data(
            "-Users-arthur-camelot",
            "agent-12345.jsonl",
            r#"{"type":"user","message":"I am an agent"}"#,
            100,
        ),
        file_data(
            "-Users-arthur-camelot",
            "black-knight.jsonl",
            r#"{"type":"user","message":"None shall pass"}"#,
            100,
        ),
    ];

    let sessions = find_sessions(&files);

    assert_eq!(sessions.len(), 1);
    assert_eq!(sessions[0].id, valid_uuid);
}

#[test]
fn find_sessions_extracts_custom_title_from_tail() {
    let uuid = test_uuid(99);

    let content = "{\"type\":\"user\",\"message\":{\"role\":\"user\",\"content\":\"Always look on the bright side\"},\"cwd\":\"/Users/brian/life\"}\n{\"type\":\"assistant\",\"message\":\"Indeed!\"}\n{\"type\":\"custom-title\",\"customTitle\":\"Important Session\",\"sessionId\":\"00000063-0063-0063-0063-000000000063\"}";
    let files = vec![file_data("-Users-brian-life", &format!("{}.jsonl", uuid), content, 100)];

    let sessions = find_sessions(&files);

    assert_eq!(sessions.len(), 1);
    assert_eq!(sessions[0].name, Some("Important Session".to_string()));
}

#[test]
fn find_sessions_handles_empty_sessions() {
    let uuid = test_uuid(7);
    let files = vec![file_data(
        "-Users-spam-eggs",
        &format!("{}.jsonl", uuid),
        r#"{"type":"init"}"#,
        100,
    )];

    let sessions = find_sessions(&files);

    // Empty sessions should be filtered out
    assert_eq!(sessions.len(), 0);
}

#[test]
fn summary_only_stream_materializes_with_summary() {
    let uuid = test_uuid(8);
    let files = vec![file_data(
        "-Users-spam-eggs",
        &format!("{}.jsonl", uuid),
        r#"{"type":"summary","summary":"A lone summary"}"#,
        100,
    )];

    let sessions = find_sessions(&files);

    assert_eq!(sessions.len(), 1);
    assert_eq!(sessions[0].summary, Some("A lone summary".to_string()));
    assert_eq!(sessions[0].turn_count, 0);
    assert_eq!(sessions[0].first_message, None);
}

#[test]
fn last_of_two_custom_titles_wins() {
    let uuid = test_uuid(9);
    let content = "{\"type\":\"user\",\"message\":{\"role\":\"user\",\"content\":\"hello\"}}\n{\"type\":\"custom-title\",\"customTitle\":\"First Name\"}\n{\"type\":\"assistant\",\"message\":\"hi\"}\n{\"type\":\"custom-title\",\"customTitle\":\"Second Name\"}";
    let files = vec![file_data("-Users-x-y", &format!("{}.jsonl", uuid), content, 100)];

    let sessions = find_sessions(&files);
    assert_eq!(sessions.len(), 1);
    assert_eq!(sessions[0].name, Some("Second Name".to_string()));
}

#[test]
fn discovery_output_sorted_by_modified_descending() {
    let mut files = Vec::new();
    for (i, modified) in [(1u8, 50u64), (2, 300), (3, 100), (4, 200)] {
        files.push(file_data(
            "-Users-s-p",
            &format!("{}.jsonl", test_uuid(i)),
            r#"{"type":"user","message":{"role":"user","content":"hello"},"cwd":"/Users/s/p"}"#,
            modified,
        ));
    }
    let sessions = find_sessions(&files);
    assert_eq!(sessions.len(), 4);
    for w in sessions.windows(2) {
        assert!(w[0].modified >= w[1].modified);
    }
    assert_eq!(sessions[0].modified, 300);
}

// =========================================================================
// Fork detection
// =========================================================================

#[test]
fn find_sessions_extracts_forked_from() {
    let parent_uuid = test_uuid(10);
    let fork_uuid = test_uuid(11);

    let files = vec![
        file_data(
            "-Users-patsy-camelot",
            &format!("{}.jsonl", parent_uuid),
            r#"{"type":"user","message":{"role":"user","content":"What is your quest?"},"cwd":"/Users/patsy/camelot","sessionId":"00000010-0010-0010-0010-00000000000a"}"#,
            100,
        ),
        file_data(
            "-Users-patsy-camelot",
            &format!("{}.jsonl", fork_uuid),
            r#"{"type":"user","message":{"role":"user","content":"What is your quest?"},"cwd":"/Users/patsy/camelot","sessionId":"0000000b-000b-000b-000b-00000000000b","forkedFrom":{"sessionId":"00000010-0010-0010-0010-00000000000a","messageUuid":"abc123"}}"#,
            100,
        ),
    ];

    let sessions = find_sessions(&files);

    assert_eq!(sessions.len(), 2);

    let parent = sessions.iter().find(|s| s.id == parent_uuid).unwrap();
    let fork = sessions.iter().find(|s| s.id == fork_uuid).unwrap();

    assert_eq!(parent.forked_from, None);
    assert_eq!(
        fork.forked_from,
        Some("00000010-0010-0010-0010-00000000000a".to_string())
    );
}

#[test]
fn find_sessions_multiple_forks_same_parent() {
    let parent_uuid = test_uuid(20);
    let fork1_uuid = test_uuid(21);
    let fork2_uuid = test_uuid(22);

    let files = vec![
        file_data(
            "-Users-tim-enchanter",
            &format!("{}.jsonl", parent_uuid),
            r#"{"type":"user","message":{"role":"user","content":"What manner of man are you?"},"cwd":"/Users/tim/enchanter"}"#,
            100,
        ),
        file_data(
            "-Users-tim-enchanter",
            &format!("{}.jsonl", fork1_uuid),
            r#"{"type":"user","message":{"role":"user","content":"What manner of man are you?"},"cwd":"/Users/tim/enchanter","forkedFrom":{"sessionId":"00000014-0014-0014-0014-000000000014","messageUuid":"msg1"}}"#,
            100,
        ),
        file_data(
            "-Users-tim-enchanter",
            &format!("{}.jsonl", fork2_uuid),
            r#"{"type":"user","message":{"role":"user","content":"What manner of man are you?"},"cwd":"/Users/tim/enchanter","forkedFrom":{"sessionId":"00000014-0014-0014-0014-000000000014","messageUuid":"msg2"}}"#,
            100,
        ),
    ];

    let sessions = find_sessions(&files);

    assert_eq!(sessions.len(), 3);

    let fork1 = sessions.iter().find(|s| s.id == fork1_uuid).unwrap();
    let fork2 = sessions.iter().find(|s| s.id == fork2_uuid).unwrap();

    assert_eq!(fork1.forked_from, fork2.forked_from);
    assert_eq!(
        fork1.forked_from,
        Some("00000014-0014-0014-0014-000000000014".to_string())
    );
}

#[test]
fn read_file_head_prefers_first_forked_from() {
    let lines = split_lines(
        "{\"type\":\"user\",\"message\":{\"role\":\"user\",\"content\":\"hello\"},\"forkedFrom\":{\"sessionId\":\"parent-1\",\"messageUuid\":\"m1\"}}\n{\"type\":\"assistant\",\"message\":\"hi\"}\n{\"type\":\"user\",\"message\":{\"role\":\"user\",\"content\":\"later\"},\"forkedFrom\":{\"sessionId\":\"parent-2\",\"messageUuid\":\"m2\"}}",
    );
    let head = read_file_head(&lines);
    assert_eq!(head.forked_from, Some("parent-1".to_string()));
}

#[test]
fn read_file_head_extracts_forked_from_early() {
    // forkedFrom is extracted even if it appears on a later entry
    let lines = split_lines(
        "{\"type\":\"progress\",\"data\":\"starting\"}\n{\"type\":\"progress\",\"cwd\":\"/Users/test/project\",\"data\":\"hook\"}\n{\"type\":\"user\",\"message\":{\"role\":\"user\",\"content\":\"hello\"},\"forkedFrom\":{\"sessionId\":\"parent-session-id\",\"messageUuid\":\"msg1\"}}\n{\"type\":\"assistant\",\"message\":\"hi\"}",
    );
    let head = read_file_head(&lines);

    assert_eq!(head.project_path, "/Users/test/project");
    assert_eq!(head.forked_from, Some("parent-session-id".to_string()));
    assert_eq!(head.first_prompt, Some("hello".to_string()));
}

// =========================================================================
// Turn counting
// =========================================================================

#[test]
fn count_turns_real_user_messages() {
    let lines = split_lines(
        "{\"type\":\"user\",\"message\":{\"role\":\"user\",\"content\":\"Hello, how are you?\"}}\n{\"type\":\"assistant\",\"message\":{\"role\":\"assistant\",\"content\":\"I'm good!\"}}\n{\"type\":\"user\",\"message\":{\"role\":\"user\",\"content\":\"What is Rust?\"}}\n{\"type\":\"assistant\",\"message\":{\"role\":\"assistant\",\"content\":\"A programming language.\"}}",
    );
    assert_eq!(count_turns(&lines), 2); // Two real user messages
}

#[test]
fn count_turns_excludes_system_content() {
    let lines = split_lines(
        "{\"type\":\"user\",\"message\":{\"role\":\"user\",\"content\":\"<command-message>init</command-message>\"}}\n{\"type\":\"user\",\"message\":{\"role\":\"user\",\"content\":\"Real message here\"}}\n{\"type\":\"user\",\"message\":{\"role\":\"user\",\"content\":\"<local-command-stdout>output</local-command-stdout>\"}}\n{\"type\":\"user\",\"message\":{\"role\":\"user\",\"content\":\"/help\"}}\n{\"type\":\"user\",\"message\":{\"role\":\"user\",\"content\":\"[some bracketed thing]\"}}\n{\"type\":\"user\",\"message\":{\"role\":\"user\",\"content\":\"Another real message\"}}",
    );
    assert_eq!(count_turns(&lines), 2);
}

#[test]
fn count_turns_handles_content_blocks() {
    let lines = split_lines(
        "{\"type\":\"user\",\"message\":{\"role\":\"user\",\"content\":[{\"type\":\"text\",\"text\":\"Hello from blocks\"}]}}\n{\"type\":\"user\",\"message\":{\"role\":\"user\",\"content\":[{\"type\":\"text\",\"text\":\"<command-name>/init</command-name>\"}]}}\n{\"type\":\"user\",\"message\":{\"role\":\"user\",\"content\":[{\"type\":\"text\",\"text\":\"Real question?\"}]}}",
    );
    assert_eq!(count_turns(&lines), 2);
}

#[test]
fn count_turns_empty_file() {
    let lines: Vec<String> = Vec::new();
    assert_eq!(count_turns(&lines), 0);
}

#[test]
fn first_prompt_and_turn_count_current_filter_behavior() {
    let lines = split_lines(
        "{\"type\":\"user\",\"message\":{\"role\":\"user\",\"content\":\"[tool output that is not Request]\"},\"cwd\":\"/Users/test/project\"}\n{\"type\":\"user\",\"message\":{\"role\":\"user\",\"content\":\"Real user question\"}}",
    );
    let head = read_file_head(&lines);
    let count = count_turns(&lines);

    // Characterization: first prompt currently excludes [Request... but not all bracketed text.
    assert_eq!(
        head.first_prompt,
        Some("[tool output that is not Request]".to_string())
    );
    // Characterization: turn counting excludes all bracketed entries.
    assert_eq!(count, 1);
}

// =========================================================================
// Single-pass scan and search text
// =========================================================================

#[test]
fn scan_once_produces_equivalent_session_metadata() {
    let lines = split_lines(
        "{\"type\":\"user\",\"message\":{\"role\":\"user\",\"content\":\"Real prompt\"},\"cwd\":\"/Users/test/project\"}\n{\"type\":\"assistant\",\"message\":{\"role\":\"assistant\",\"content\":[{\"type\":\"text\",\"text\":\"assistant reply\"}]}}\n{\"type\":\"user\",\"message\":{\"role\":\"user\",\"content\":\"/help\"}\n{\"type\":\"user\",\"message\":{\"role\":\"user\",\"content\":\"Second real prompt\"}}",
    );
    let scan = scan_head_turns_and_search(&lines);

    assert_eq!(scan.head.project_path, "/Users/test/project");
    assert_eq!(scan.head.first_prompt, Some("Real prompt".to_string()));
    assert_eq!(scan.turn_count, 2);
}

#[test]
fn session_search_text_lower_includes_user_and_assistant_text() {
    let lines = split_lines(
        "{\"type\":\"user\",\"message\":{\"role\":\"user\",\"content\":\"API status\"}}\n{\"type\":\"assistant\",\"message\":{\"role\":\"assistant\",\"content\":[{\"type\":\"text\",\"text\":\"Service healthy\"}]}}\n{\"type\":\"summary\",\"summary\":\"ignored summary\"}",
    );
    let text = session_search_text_lower(&lines);
    assert!(text.contains("api status"));
    assert!(text.contains("service healthy"));
}

#[test]
fn malformed_lines_are_skipped_not_fatal() {
    let lines = split_lines(
        "not json at all\n{\"type\":\"user\",\"message\":{\"role\":\"user\",\"content\":\"still counted\"}}\n{broken",
    );
    assert_eq!(count_turns(&lines), 1);
}

// =========================================================================
// Builder edge cases
// =========================================================================

#[test]
fn builder_derives_id_from_file_stem() {
    let uuid = test_uuid(33);
    let f = file_data(
        "-Users-a-b",
        &format!("{}.jsonl", uuid),
        r#"{"type":"user","message":{"role":"user","content":"hi"},"cwd":"/Users/a/b"}"#,
        123,
    );
    let s = extract_session_metadata(&f, SessionSource::Local).unwrap();
    assert_eq!(s.id, uuid);
    assert_eq!(s.project, "b");
    assert_eq!(s.created, 123);
    assert_eq!(s.modified, 123);
    assert!(s.source.is_local());
}

#[test]
fn tail_window_skips_partial_first_line_when_seeked() {
    let uuid = test_uuid(34);
    let mut f = file_data(
        "-Users-a-b",
        &format!("{}.jsonl", uuid),
        r#"{"type":"user","message":{"role":"user","content":"hi"},"cwd":"/Users/a/b"}"#,
        123,
    );
    // The window begins mid-record; the partial line must not yield a summary.
    f.tail_window = "ummary\",\"summary\":\"from partial line\"}\n{\"type\":\"summary\",\"summary\":\"real one\"}".to_string();
    f.tail_seeked = true;
    let s = extract_session_metadata(&f, SessionSource::Local).unwrap();
    assert_eq!(s.summary, Some("real one".to_string()));
}

// =========================================================================
// Multi-source aggregation
// =========================================================================

#[test]
fn discovery_summary_tracks_source_failures() {
    let summary = DiscoverySummary {
        sessions: Vec::new(),
        failures: vec![DiscoveryFailure {
            source_name: "devbox".to_string(),
            reason: "cache unreadable".to_string(),
        }],
    };

    assert_eq!(summary.failure_count(), 1);
    assert_eq!(summary.failures.len(), 1);
}

fn plain_session(id: &str, modified: u64) -> Session {
    Session {
        id: id.to_string(),
        project: "proj".to_string(),
        project_path: "/tmp/proj".to_string(),
        filepath: format!("/tmp/{}.jsonl", id),
        created: modified,
        modified,
        first_message: Some("hello".to_string()),
        summary: None,
        name: None,
        turn_count: 1,
        source: SessionSource::Local,
        forked_from: None,
    }
}

#[test]
fn aggregation_skips_missing_remote_cache_without_failure() {
    let local = vec![plain_session("a", 10)];
    let remotes = vec![RemoteOutcome {
        name: "devbox".to_string(),
        fetch: SourceFetch::NoCache,
    }];
    let summary = find_all_sessions_with_summary(Some(local), remotes);
    assert_eq!(summary.failure_count(), 0);
    assert_eq!(summary.sessions.len(), 1);
    assert_eq!(summary.sessions[0].id, "a");
}

#[test]
fn aggregation_records_remote_failure_and_keeps_going() {
    let local = vec![plain_session("a", 10)];
    let remotes = vec![
        RemoteOutcome {
            name: "devbox".to_string(),
            fetch: SourceFetch::Failed("cache unreadable".to_string()),
        },
        RemoteOutcome {
            name: "workstation".to_string(),
            fetch: SourceFetch::Loaded(vec![plain_session("b", 20)]),
        },
    ];
    let summary = find_all_sessions_with_summary(Some(local), remotes);
    assert_eq!(summary.failure_count(), 1);
    assert_eq!(summary.failures[0].source_name, "devbox");
    assert_eq!(summary.failures[0].reason, "cache unreadable");
    assert_eq!(summary.sessions.len(), 2);
    // merged output is re-sorted by modified descending
    assert_eq!(summary.sessions[0].id, "b");
    assert_eq!(summary.sessions[1].id, "a");
}

#[test]
fn source_filter_rules() {
    assert!(should_include_source(None, "local"));
    assert!(should_include_source(None, "devbox"));
    assert!(should_include_source(Some("devbox"), "devbox"));
    assert!(!should_include_source(Some("devbox"), "local"));
    // the "local" filter excludes every remote
    assert!(remote_source_included(None, "devbox"));
    assert!(remote_source_included(Some("devbox"), "devbox"));
    assert!(!remote_source_included(Some("local"), "devbox"));
    assert!(!remote_source_included(Some("workstation"), "devbox"));
}

#[test]
fn session_file_filter_rules() {
    let uuid = test_uuid(5);
    assert!(is_valid_session_file(&format!("/root/proj/{}.jsonl", uuid)));
    assert!(!is_valid_session_file(&format!("/root/proj/{}.json", uuid)));
    assert!(!is_valid_session_file(&format!(
        "/root/subagents/{}.jsonl",
        uuid
    )));
    assert!(!is_valid_session_file("/root/proj/sessions-index.jsonl"));
}

#[test]
fn turn_count_over_mixed_user_texts() {
    // the sequence of user texts: tag, slash command, bracketed output,
    // and two genuine messages; exactly the genuine ones count
    let texts = ["<tag>", "/help", "[bracket]", "real one", "another real"];
    let lines: Vec<String> = texts
        .iter()
        .map(|t| {
            format!(
                "{{\"type\":\"user\",\"message\":{{\"role\":\"user\",\"content\":\"{}\"}}}}",
                t
            )
        })
        .collect();
    assert_eq!(count_turns(&lines), 2);
}

#[test]
fn search_text_joins_all_blocks_but_head_takes_first() {
    // Two text blocks: search must see both, the first prompt only the first.
    let lines = split_lines(
        "{\"type\":\"user\",\"message\":{\"role\":\"user\",\"content\":[{\"type\":\"text\",\"text\":\"alpha part\"},{\"type\":\"tool_use\",\"text\":\"ignored\"},{\"type\":\"text\",\"text\":\"beta part\"}]}}",
    );
    let scan = scan_head_turns_and_search(&lines);
    assert_eq!(scan.head.first_prompt, Some("alpha part".to_string()));
    assert!(scan.search_text_lower.contains("alpha part beta part"));
}
