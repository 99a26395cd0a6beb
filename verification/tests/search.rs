use cc_sessions::catalog::SessionFileData;
use cc_sessions::search::search_sessions;
use cc_sessions::session::SessionSource;

fn test_uuid(n: u8) -> String {
    format!(
        "{:08x}-{:04x}-{:04x}-{:04x}-{:012x}",
        n as u32, n as u16, n as u16, n as u16, n as u64
    )
}

fn file_data(name: &str, content: &str, modified: u64) -> SessionFileData {
    SessionFileData {
        filepath: format!("/tmp/-Users-x-proj/{}", name),
        parent_dir: "-Users-x-proj".to_string(),
        lines: content.lines().map(str::to_string).collect(),
        tail_window: content.to_string(),
        tail_seeked: false,
        created: modified,
        modified,
    }
}

#[test]
fn search_keeps_only_files_with_a_matching_line() {
    let files = vec![
        file_data(
            &format!("{}.jsonl", test_uuid(1)),
            r#"{"type":"user","message":{"role":"user","content":"deploy the grenade"},"cwd":"/Users/x/proj"}"#,
            100,
        ),
        file_data(
            &format!("{}.jsonl", test_uuid(2)),
            r#"{"type":"user","message":{"role":"user","content":"count to three"},"cwd":"/Users/x/proj"}"#,
            200,
        ),
    ];
    let found = search_sessions("grenade", &files, &SessionSource::Local).unwrap();
    assert_eq!(found.len(), 1);
    assert_eq!(found[0].id, test_uuid(1));

    let all = search_sessions("user", &files, &SessionSource::Local).unwrap();
    assert_eq!(all.len(), 2);
    // results are sorted by modified descending
    assert_eq!(all[0].id, test_uuid(2));
}

#[test]
fn invalid_pattern_is_a_hard_error() {
    let files = vec![file_data(
        &format!("{}.jsonl", test_uuid(1)),
        r#"{"type":"user","message":{"role":"user","content":"hello"},"cwd":"/Users/x/proj"}"#,
        100,
    )];
    let err = search_sessions("(unclosed", &files, &SessionSource::Local);
    assert!(err.is_err());
    assert!(!err.unwrap_err().is_empty());
}

#[test]
fn search_ignores_files_failing_the_path_filter() {
    let files = vec![file_data(
        "sessions-index.jsonl",
        r#"{"type":"user","message":{"role":"user","content":"hello index"},"cwd":"/Users/x/proj"}"#,
        100,
    )];
    let found = search_sessions("hello", &files, &SessionSource::Local).unwrap();
    assert_eq!(found.len(), 0);
}
