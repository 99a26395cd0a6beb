use cc_sessions::display::{
    build_column_legend, build_subtree_header, format_session_desc, format_session_row_simple,
    format_time_relative, generate_preview_content, generate_search_preview, highlight_match,
    list_header, list_row, shell_escape, truncate_str,
};
use cc_sessions::text::normalize_summary;
use cc_sessions::session::{filter_by_min_turns, filter_by_project, Session, SessionSource};

const BOLD_INVERSE: &str = "\u{1b}[1;7m";

fn test_session(id: &str) -> Session {
    Session {
        id: id.to_string(),
        project: "test-proj".to_string(),
        project_path: "/tmp/test-proj".to_string(),
        filepath: format!("/tmp/{}.jsonl", id),
        created: 5_000,
        modified: 5_000,
        first_message: None,
        summary: Some("test summary".to_string()),
        name: None,
        turn_count: 1,
        source: SessionSource::Local,
        forked_from: None,
    }
}

// =========================================================================
// Project filter logic
// =========================================================================

fn filter_projects(names: &[&str], filter: &str) -> Vec<String> {
    let sessions: Vec<Session> = names
        .iter()
        .map(|n| {
            let mut s = test_session(n);
            s.project = n.to_string();
            s
        })
        .collect();
    filter_by_project(&sessions, filter)
        .into_iter()
        .map(|s| s.project)
        .collect()
}

#[test]
fn project_filter_case_insensitive() {
    let projects = ["holy-grail", "Ministry-Of-Silly-Walks", "SPANISH-INQUISITION"];

    assert_eq!(filter_projects(&projects, "spanish"), ["SPANISH-INQUISITION"]);
    assert_eq!(filter_projects(&projects, "SILLY"), ["Ministry-Of-Silly-Walks"]);
    assert_eq!(filter_projects(&projects, "grail"), ["holy-grail"]);
}

#[test]
fn project_filter_substring() {
    let projects = ["spam", "spam-eggs", "spam-eggs-spam"];

    assert_eq!(
        filter_projects(&projects, "spam"),
        ["spam", "spam-eggs", "spam-eggs-spam"]
    );
    assert_eq!(
        filter_projects(&projects, "eggs"),
        ["spam-eggs", "spam-eggs-spam"]
    );
}

#[test]
fn min_turns_filter_drops_one_shot_sessions() {
    let mut a = test_session("a");
    a.turn_count = 1;
    let mut b = test_session("b");
    b.turn_count = 5;
    let kept = filter_by_min_turns(&vec![a, b], 2);
    assert_eq!(kept.len(), 1);
    assert_eq!(kept[0].id, "b");
}

// =========================================================================
// Text normalization
// =========================================================================

#[test]
fn normalize_summary_collapses_whitespace() {
    assert_eq!(
        normalize_summary("hello   world\n\ntest", 50),
        "hello world test"
    );
}

#[test]
fn normalize_summary_strips_markdown() {
    assert_eq!(normalize_summary("# Heading", 50), "Heading");
    assert_eq!(normalize_summary("## Sub heading", 50), "Sub heading");
    assert_eq!(normalize_summary("* bullet point", 50), "bullet point");
}

#[test]
fn normalize_summary_truncates_at_word() {
    // Should truncate at word boundary when possible
    let result = normalize_summary("hello world this is a test", 15);
    assert!(result.ends_with("..."));
    assert!(result.len() <= 18); // 15 + "..."
}

#[test]
fn normalize_summary_preserves_short_text() {
    assert_eq!(normalize_summary("short", 50), "short");
}

#[test]
fn normalize_summary_exact_truncation() {
    // 15-char cut of "hello world this is a test" is "hello world thi";
    // the last space is past the halfway point, so the break lands there.
    assert_eq!(normalize_summary("hello world this is a test", 15), "hello world...");
}

// =========================================================================
// Time formatting
// =========================================================================

#[test]
fn format_time_relative_now() {
    let now = 1_000_000;
    assert_eq!(format_time_relative(now, now), "now");
}

#[test]
fn format_time_relative_minutes() {
    let now = 1_000_000;
    assert_eq!(format_time_relative(now, now - 120), "2m");
}

#[test]
fn format_time_relative_hours() {
    let now = 1_000_000;
    assert_eq!(format_time_relative(now, now - 3600 * 3), "3h");
}

#[test]
fn format_time_relative_days() {
    let now = 1_000_000;
    assert_eq!(format_time_relative(now, now - 86400 * 2), "2d");
}

#[test]
fn format_time_relative_weeks() {
    let now = 10_000_000;
    assert_eq!(format_time_relative(now, now - 604800 * 3), "3w");
}

#[test]
fn format_time_relative_future() {
    let now = 1_000_000;
    assert_eq!(format_time_relative(now, now + 3600), "?");
}

// =========================================================================
// Descriptions and rows
// =========================================================================

#[test]
fn session_desc_prefers_star_name() {
    let mut s = test_session("a");
    s.name = Some("Named".to_string());
    let desc = format_session_desc(&s, 40);
    assert!(desc.starts_with("\u{2605} Named"));
    assert!(desc.contains(" - test summary"));
}

#[test]
fn truncate_str_adds_ellipsis() {
    assert_eq!(truncate_str("abcdef", 4), "abcd...");
    assert_eq!(truncate_str("abc", 4), "abc");
}

#[test]
fn build_column_legend_without_debug() {
    let legend = build_column_legend(false);
    assert_eq!(legend, "  CRE  MOD  MSG SOURCE PROJECT      SUMMARY");
    assert!(!legend.contains("ID"));
}

#[test]
fn build_column_legend_with_debug() {
    let legend = build_column_legend(true);
    assert!(legend.contains("ID"));
    assert!(legend.contains("CRE"));
    assert!(legend.contains("MSG"));
}

#[test]
fn build_subtree_header_root_view() {
    let header = build_subtree_header(&None, None, false, None, false);
    assert!(header.contains("Select session"));
    assert!(header.contains("\u{2192} into forks"));
    assert!(header.contains("CRE")); // Legend line
}

#[test]
fn build_subtree_header_fork_mode() {
    let header = build_subtree_header(&None, None, true, None, false);
    assert!(header.contains("FORK mode"));
}

#[test]
fn build_subtree_header_with_search() {
    // Search with match count
    let header = build_subtree_header(&Some("api".to_string()), Some(5), false, None, false);
    assert!(header.contains("search: \"api\""));
    assert!(header.contains("(5 matches)"));
    assert!(header.contains("esc to clear"));
}

#[test]
fn build_subtree_header_focused_shows_back() {
    let session = test_session("focused");
    let header = build_subtree_header(&None, None, false, Some(&session), false);
    assert!(header.contains("\u{2190} back"));
    assert!(!header.contains("\u{2192} into forks"));
}

#[test]
fn format_session_row_simple_basic() {
    let session = test_session("test-id");
    let row = format_session_row_simple("  ", &session, 5_000, false);

    // Should contain project name and source
    assert!(row.contains("test-proj"));
    assert!(row.contains("local"));
    // Should NOT start with ID prefix when debug=false (starts with "  " prefix)
    assert!(row.starts_with("  "));
    // ID "test-id" first 5 chars is "test-" which should NOT appear at start
    assert!(!row.starts_with("  test-"));
}

#[test]
fn format_session_row_simple_with_debug() {
    let session = test_session("abcdef-1234");
    let row = format_session_row_simple("\u{25b6} ", &session, 5_000, true);

    // Should contain first 5 chars of ID
    assert!(row.contains("abcde"));
    // Should contain the prefix
    assert!(row.starts_with("\u{25b6} "));
}

#[test]
fn format_session_row_simple_shows_turn_count() {
    let mut session = test_session("test");
    session.turn_count = 42;
    let row = format_session_row_simple("  ", &session, 5_000, false);

    // Turn count should be right-aligned in 3 chars
    assert!(row.contains(" 42 "));
}

#[test]
fn list_rows_align_with_header() {
    let session = test_session("list-id");
    let header = list_header(false);
    let row = list_row(&session, 5_000, false);
    assert!(header.starts_with("CREAT"));
    assert!(header.ends_with("SUMMARY"));
    assert!(row.contains("test-proj"));
    assert!(row.contains("test summary"));

    let mut fork = test_session("fork-id");
    fork.forked_from = Some("list-id".to_string());
    let fork_row = list_row(&fork, 5_000, false);
    assert!(fork_row.contains("\u{21b3} "));
}

// =========================================================================
// Shell escaping
// =========================================================================

#[test]
fn shell_escape_no_quotes() {
    assert_eq!(shell_escape("hello"), "hello");
    assert_eq!(shell_escape("/path/to/project"), "/path/to/project");
}

#[test]
fn shell_escape_single_quotes() {
    // Single quote becomes: end quote, escaped quote, start quote
    assert_eq!(shell_escape("it's"), "it'\\''s");
    assert_eq!(shell_escape("'quoted'"), "'\\''quoted'\\''");
}

#[test]
fn shell_escape_multiple_quotes() {
    assert_eq!(shell_escape("a'b'c"), "a'\\''b'\\''c");
}

#[test]
fn shell_escape_preserves_other_chars() {
    // Double quotes, spaces, etc. are fine inside single quotes
    assert_eq!(shell_escape("hello world"), "hello world");
    assert_eq!(shell_escape("\"quoted\""), "\"quoted\"");
    assert_eq!(shell_escape("$HOME"), "$HOME");
}

// =========================================================================
// Highlight matching (Unicode-safe)
// =========================================================================

#[test]
fn highlight_match_basic() {
    let result = highlight_match("hello world", "world");
    assert!(result.contains(BOLD_INVERSE));
    assert!(result.contains("world"));
    assert!(result.contains("\u{1b}[0m"));
}

#[test]
fn highlight_match_case_insensitive() {
    let result = highlight_match("Hello World", "world");
    // Should highlight "World" (preserving original case)
    assert!(result.contains("World"));
    assert!(result.contains(BOLD_INVERSE));
}

#[test]
fn highlight_match_empty_pattern() {
    assert_eq!(highlight_match("hello", ""), "hello");
}

#[test]
fn highlight_match_no_match() {
    let result = highlight_match("hello", "xyz");
    assert!(!result.contains(BOLD_INVERSE));
    assert_eq!(result, "hello");
}

#[test]
fn highlight_match_multibyte_chars() {
    // Test with emoji and Unicode - should not panic
    let result = highlight_match("hello \u{1f30d} world", "world");
    assert!(result.contains(BOLD_INVERSE));
}

#[test]
fn highlight_match_unicode_case_fold() {
    // Searching for "ße" in text containing "ße" must work
    let result = highlight_match("Stra\u{df}e", "\u{df}e");
    assert!(result.contains(BOLD_INVERSE));
}

// =========================================================================
// Previews
// =========================================================================

fn split_lines(content: &str) -> Vec<String> {
    content.lines().map(str::to_string).collect()
}

#[test]
fn preview_shows_user_and_assistant_rows() {
    let lines = split_lines(
        "{\"type\":\"user\",\"message\":{\"role\":\"user\",\"content\":\"A question\"}}\n{\"type\":\"assistant\",\"message\":{\"role\":\"assistant\",\"content\":\"An answer\"}}\n{\"type\":\"user\",\"message\":{\"role\":\"user\",\"content\":\"/help\"}}",
    );
    let preview = generate_preview_content(&lines);
    assert!(preview.contains("U: A question"));
    assert!(preview.contains("A: An answer"));
    // system content is skipped in previews
    assert!(!preview.contains("/help"));
}

#[test]
fn preview_of_empty_session() {
    let lines = split_lines("{\"type\":\"init\"}");
    assert_eq!(generate_preview_content(&lines), "(empty session)");
}

#[test]
fn search_preview_shows_matches_with_context() {
    let lines = split_lines(
        "{\"type\":\"user\",\"message\":{\"role\":\"user\",\"content\":\"first question\"}}\n{\"type\":\"assistant\",\"message\":{\"role\":\"assistant\",\"content\":\"the api is healthy\"}}\n{\"type\":\"user\",\"message\":{\"role\":\"user\",\"content\":\"thanks\"}}",
    );
    let preview = generate_search_preview(&lines, "API");
    assert!(preview.contains("Searching for: \"API\""));
    // the match is highlighted case-insensitively
    assert!(preview.contains(BOLD_INVERSE));
    assert!(preview.contains("1 matching messages"));
    // surrounding messages appear as context
    assert!(preview.contains("first question"));
    assert!(preview.contains("thanks"));
}

#[test]
fn search_preview_without_matches() {
    let lines = split_lines(
        "{\"type\":\"user\",\"message\":{\"role\":\"user\",\"content\":\"nothing here\"}}",
    );
    let preview = generate_search_preview(&lines, "absent");
    assert!(preview.contains("(no matches in transcript)"));
}
