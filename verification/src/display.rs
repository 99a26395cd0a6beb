//! Pure rendering: relative times, row and header strings for the list and
//! the picker, shell quoting, and transcript previews. Everything here
//! builds strings from values; nothing prints.

use vstd::prelude::*;
use crate::session::{Session, SessionView, spec_source_display_name};
use crate::text::{
    spec_u64_string, spec_take_chars, spec_pad_left, spec_pad_right, lower_of, contains_sub,
    is_prefix_of, spec_lines_of, spec_first_line, u64_to_string, take_chars, pad_left, pad_right,
    str_to_chars, chars_to_string, contains_chars, to_lowercase, str_eq,
};

verus! {

/// The relative rendering of a timestamp against the current time: `?` for
/// future timestamps, `now` under a minute, else a count of minutes,
/// hours, days or weeks.
pub open spec fn spec_format_time_relative(now: u64, time: u64) -> Seq<char> {
    if time > now {
        "?"@
    } else {
        let secs = now - time;
        if secs < 60 {
            "now"@
        } else if secs < 3600 {
            spec_u64_string((secs / 60) as nat) + "m"@
        } else if secs < 86400 {
            spec_u64_string((secs / 3600) as nat) + "h"@
        } else if secs < 604800 {
            spec_u64_string((secs / 86400) as nat) + "d"@
        } else {
            spec_u64_string((secs / 604800) as nat) + "w"@
        }
    }
}

/// Render a timestamp relative to the current time, both in seconds since
/// the epoch.
pub fn format_time_relative(now: u64, time: u64) -> (r: String)
    ensures
        r@ == spec_format_time_relative(now, time),
{
    if time > now {
        return String::from_str("?");
    }
    let secs = now - time;
    if secs < 60 {
        String::from_str("now")
    } else if secs < 3600 {
        let mut r = u64_to_string(secs / 60);
        r.append("m");
        r
    } else if secs < 86400 {
        let mut r = u64_to_string(secs / 3600);
        r.append("h");
        r
    } else if secs < 604800 {
        let mut r = u64_to_string(secs / 86400);
        r.append("d");
        r
    } else {
        let mut r = u64_to_string(secs / 604800);
        r.append("w");
        r
    }
}

/// `s` cut to `max` characters, with an ellipsis when something was cut.
pub open spec fn spec_truncate_str(s: Seq<char>, max: nat) -> Seq<char> {
    if s.len() <= max {
        s
    } else {
        spec_take_chars(s, max) + "..."@
    }
}

/// Truncate a string to `max` characters, adding an ellipsis if truncated.
pub fn truncate_str(s: &str, max: usize) -> (r: String)
    ensures
        r@ == spec_truncate_str(s@, max as nat),
{
    if s.unicode_len() <= max {
        String::from_str(s)
    } else {
        let mut r = take_chars(s, max);
        r.append("...");
        r
    }
}

/// The description column of a session: a starred custom name first, with
/// the summary appended when there is room; otherwise the summary or first
/// message, cut to the column width.
pub open spec fn spec_format_session_desc(s: SessionView, max: nat) -> Seq<char> {
    match s.name {
        Some(name) => {
            let prefix = "\u{2605} "@ + name;
            if prefix.len() >= max {
                spec_take_chars(prefix, max)
            } else {
                match s.summary {
                    Some(summary) => if max > prefix.len() + 13 {
                        prefix + " - "@ + spec_take_chars(
                            summary,
                            (max - prefix.len() - 3) as nat,
                        )
                    } else {
                        prefix
                    },
                    None => prefix,
                }
            }
        },
        None => {
            match s.summary {
                Some(summary) => spec_take_chars(summary, max),
                None => match s.first_message {
                    Some(first) => spec_take_chars(first, max),
                    None => Seq::empty(),
                },
            }
        },
    }
}

/// Format a session description: the starred name if present, otherwise
/// summary or first message.
pub fn format_session_desc(session: &Session, max_chars: usize) -> (r: String)
    ensures
        r@ == spec_format_session_desc(session.deep_view(), max_chars as nat),
{
    match &session.name {
        Some(name) => {
            let mut prefix = String::from_str("\u{2605} ");
            prefix.append(name.as_str());
            proof {
                assert(prefix@ == "\u{2605} "@ + name@);
            }
            let prefix_len = prefix.unicode_len();
            if prefix_len >= max_chars {
                return take_chars(prefix.as_str(), max_chars);
            }
            match &session.summary {
                Some(summary) => {
                    if max_chars - prefix_len > 13 {
                        let mut r = prefix;
                        r.append(" - ");
                        let cut = take_chars(summary.as_str(), max_chars - prefix_len - 3);
                        r.append(cut.as_str());
                        r
                    } else {
                        prefix
                    }
                },
                None => prefix,
            }
        },
        None => {
            match &session.summary {
                Some(summary) => take_chars(summary.as_str(), max_chars),
                None => match &session.first_message {
                    Some(first) => take_chars(first.as_str(), max_chars),
                    None => String::new(),
                },
            }
        },
    }
}

/// Content that should be skipped in previews: bracketed output, tags, and
/// slash commands.
pub open spec fn spec_is_system_content(text: Seq<char>) -> bool {
    text.len() > 0 && (text[0] == '[' || text[0] == '<' || text[0] == '/')
}

/// Check if content is system text that previews skip.
pub fn is_system_content(text: &str) -> (r: bool)
    ensures
        r == spec_is_system_content(text@),
{
    if text.unicode_len() == 0 {
        return false;
    }
    let c = text.get_char(0);
    c == '[' || c == '<' || c == '/'
}

/// Each single quote replaced by the quote-escape-quote sequence that keeps
/// it intact inside a single-quoted shell argument.
pub open spec fn spec_shell_escape(s: Seq<char>) -> Seq<char>
    decreases s.len(),
{
    if s.len() == 0 {
        Seq::empty()
    } else {
        spec_shell_escape(s.drop_last()) + (if s.last() == '\'' {
            "'\\''"@
        } else {
            seq![s.last()]
        })
    }
}

/// Escape a string for safe inclusion in a single-quoted shell argument.
pub fn shell_escape(s: &str) -> (r: String)
    ensures
        r@ == spec_shell_escape(s@),
{
    let chars = str_to_chars(s);
    let n = chars.len();
    let mut r = String::new();
    let mut i: usize = 0;
    proof {
        assert(s@.take(0) =~= Seq::<char>::empty());
    }
    while i < n
        invariant
            n == chars@.len(),
            chars@ == s@,
            i <= n,
            r@ == spec_shell_escape(s@.take(i as int)),
        decreases n - i,
    {
        let ghost before = r@;
        proof {
            assert(s@.take(i + 1).drop_last() =~= s@.take(i as int));
            assert(s@.take(i + 1).last() == s@[i as int]);
        }
        if chars[i] == '\'' {
            r.append("'\\''");
        } else {
            crate::text::push_char(&mut r, chars[i]);
            proof {
                assert(r@ =~= before + seq![s@[i as int]]);
            }
        }
        i = i + 1;
    }
    proof {
        assert(s@.take(n as int) =~= s@);
    }
    r
}

// ---------------------------------------------------------------------------
// Rows, legends and headers
// ---------------------------------------------------------------------------

/// One picker row: the navigation prefix, an id column in debug mode, the
/// relative created and modified times, the turn count, the source, the
/// project, and the description.
pub open spec fn spec_format_session_row_simple(
    prefix: Seq<char>,
    s: SessionView,
    now: u64,
    debug: bool,
) -> Seq<char> {
    let id_prefix = if debug {
        spec_pad_right(spec_take_chars(s.id, 5), 6)
    } else {
        Seq::empty()
    };
    prefix + id_prefix + spec_pad_right(spec_format_time_relative(now, s.created), 4) + " "@
        + spec_pad_right(spec_format_time_relative(now, s.modified), 4) + " "@ + spec_pad_left(
        spec_u64_string(s.turn_count as nat),
        3,
    ) + " "@ + spec_pad_right(spec_source_display_name(s.source), 6) + " "@ + spec_pad_right(
        s.project,
        12,
    ) + " "@ + spec_format_session_desc(s, 40)
}

/// Simple session row format for the picker.
pub fn format_session_row_simple(prefix: &str, session: &Session, now: u64, debug: bool) -> (r:
    String)
    ensures
        r@ == spec_format_session_row_simple(prefix@, session.deep_view(), now, debug),
{
    let mut r = String::from_str(prefix);
    if debug {
        let id_cut = take_chars(session.id.as_str(), 5);
        let id_col = pad_right(id_cut.as_str(), 6);
        r.append(id_col.as_str());
    }
    let created = format_time_relative(now, session.created);
    let c_col = pad_right(created.as_str(), 4);
    r.append(c_col.as_str());
    r.append(" ");
    let modified = format_time_relative(now, session.modified);
    let m_col = pad_right(modified.as_str(), 4);
    r.append(m_col.as_str());
    r.append(" ");
    let msgs = u64_to_string(session.turn_count as u64);
    let msgs_col = pad_left(msgs.as_str(), 3);
    r.append(msgs_col.as_str());
    r.append(" ");
    let source_col = pad_right(session.source.display_name(), 6);
    r.append(source_col.as_str());
    r.append(" ");
    let project_col = pad_right(session.project.as_str(), 12);
    r.append(project_col.as_str());
    r.append(" ");
    let desc = format_session_desc(session, 40);
    r.append(desc.as_str());
    proof {
        assert(r@ =~= spec_format_session_row_simple(prefix@, session.deep_view(), now, debug));
    }
    r
}

/// The column legend above the picker.
pub open spec fn spec_build_column_legend(debug: bool) -> Seq<char> {
    "  "@ + (if debug {
        "ID    "@
    } else {
        Seq::empty()
    }) + "CRE  MOD  MSG SOURCE PROJECT      SUMMARY"@
}

/// Build the column legend for interactive mode.
pub fn build_column_legend(debug: bool) -> (r: String)
    ensures
        r@ == spec_build_column_legend(debug),
{
    let mut r = String::from_str("  ");
    if debug {
        r.append("ID    ");
    }
    r.append("CRE  MOD  MSG SOURCE PROJECT      SUMMARY");
    proof {
        assert(r@ =~= spec_build_column_legend(debug));
    }
    r
}

/// The picker header: a status line describing search, fork mode and
/// focus, above the column legend.
pub open spec fn spec_build_subtree_header(
    search_pattern: Option<Seq<char>>,
    search_count: Option<u64>,
    fork: bool,
    focus: Option<SessionView>,
    debug: bool,
) -> Seq<char> {
    let nav_hint: Seq<char> = if search_pattern is Some {
        "esc to clear"@
    } else if focus is Some {
        "\u{2190} back"@
    } else {
        "\u{2192} into forks"@
    };
    let focus_info: Seq<char> = if search_pattern is Some {
        Seq::empty()
    } else {
        match focus {
            Some(s) => " ["@ + spec_format_session_desc(s, 30) + "]"@,
            None => Seq::empty(),
        }
    };
    let status_line: Seq<char> = match search_pattern {
        Some(pat) => {
            let head: Seq<char> = if fork {
                "FORK \u{2502} search: \""@
            } else {
                "search: \""@
            };
            let tail: Seq<char> = match search_count {
                Some(count) => "\" ("@ + spec_u64_string(count as nat) + " matches) \u{2502} "@
                    + nav_hint,
                None => "\" \u{2502} "@ + nav_hint,
            };
            head + pat + tail
        },
        None => if fork {
            "FORK mode \u{2502} "@ + nav_hint + focus_info
        } else {
            "Select session \u{2502} "@ + nav_hint + focus_info
        },
    };
    status_line + "\n"@ + spec_build_column_legend(debug)
}

/// Build the header showing the current navigation state. `focus` carries
/// the focused session, already resolved by the caller, when one is
/// drilled into.
pub fn build_subtree_header(
    search_pattern: &Option<String>,
    search_count: Option<u64>,
    fork: bool,
    focus: Option<&Session>,
    debug: bool,
) -> (r: String)
    ensures
        r@ == spec_build_subtree_header(
            search_pattern.deep_view(),
            search_count,
            fork,
            match focus {
                Some(s) => Some(s.deep_view()),
                None => None,
            },
            debug,
        ),
{
    let mut status: String;
    match search_pattern {
        Some(pat) => {
            status = if fork {
                String::from_str("FORK \u{2502} search: \"")
            } else {
                String::from_str("search: \"")
            };
            status.append(pat.as_str());
            match search_count {
                Some(count) => {
                    status.append("\" (");
                    let c = u64_to_string(count);
                    status.append(c.as_str());
                    status.append(" matches) \u{2502} ");
                    status.append("esc to clear");
                },
                None => {
                    status.append("\" \u{2502} ");
                    status.append("esc to clear");
                },
            }
        },
        None => {
            status = if fork {
                String::from_str("FORK mode \u{2502} ")
            } else {
                String::from_str("Select session \u{2502} ")
            };
            match focus {
                Some(s) => {
                    status.append("\u{2190} back");
                    status.append(" [");
                    let desc = format_session_desc(s, 30);
                    status.append(desc.as_str());
                    status.append("]");
                },
                None => {
                    status.append("\u{2192} into forks");
                },
            }
        },
    }
    status.append("\n");
    let legend = build_column_legend(debug);
    status.append(legend.as_str());
    proof {
        assert(status@ =~= spec_build_subtree_header(
            search_pattern.deep_view(),
            search_count,
            fork,
            match focus {
                Some(s) => Some(s.deep_view()),
                None => None,
            },
            debug,
        ));
    }
    status
}

} // verus!

verus! {

// ---------------------------------------------------------------------------
// List-mode rows
// ---------------------------------------------------------------------------

/// The header row of the flat listing.
pub open spec fn spec_list_header(debug: bool) -> Seq<char> {
    if debug {
        spec_pad_right("CREAT"@, 6) + " "@ + spec_pad_right("MOD"@, 6) + " "@ + spec_pad_right(
            "FORK"@,
            4,
        ) + " "@ + spec_pad_right("SOURCE"@, 8) + " "@ + spec_pad_right("PROJECT"@, 16) + " "@
            + spec_pad_right("ID"@, 40) + " SUMMARY"@
    } else {
        spec_pad_right("CREAT"@, 6) + " "@ + spec_pad_right("MOD"@, 6) + " "@ + spec_pad_right(
            "SOURCE"@,
            8,
        ) + " "@ + spec_pad_right("PROJECT"@, 16) + " SUMMARY"@
    }
}

/// Build the header row of the flat listing.
pub fn list_header(debug: bool) -> (r: String)
    ensures
        r@ == spec_list_header(debug),
{
    let mut r = pad_right("CREAT", 6);
    r.append(" ");
    let m = pad_right("MOD", 6);
    r.append(m.as_str());
    r.append(" ");
    if debug {
        let f = pad_right("FORK", 4);
        r.append(f.as_str());
        r.append(" ");
    }
    let s = pad_right("SOURCE", 8);
    r.append(s.as_str());
    r.append(" ");
    let p = pad_right("PROJECT", 16);
    r.append(p.as_str());
    if debug {
        r.append(" ");
        let id = pad_right("ID", 40);
        r.append(id.as_str());
    }
    r.append(" SUMMARY");
    proof {
        assert(r@ =~= spec_list_header(debug));
    }
    r
}

/// One row of the flat listing.
pub open spec fn spec_list_row(s: SessionView, now: u64, debug: bool) -> Seq<char> {
    let created = spec_pad_right(spec_format_time_relative(now, s.created), 6);
    let modified = spec_pad_right(spec_format_time_relative(now, s.modified), 6);
    let source = spec_pad_right(spec_source_display_name(s.source), 8);
    let project = spec_pad_right(s.project, 16);
    if debug {
        let fork_indicator: Seq<char> = if s.forked_from is Some {
            "\u{21b3}"@
        } else {
            Seq::empty()
        };
        let id_short = spec_take_chars(s.id, 36);
        created + " "@ + modified + " "@ + spec_pad_right(fork_indicator, 4) + " "@ + source
            + " "@ + project + " "@ + spec_pad_right(id_short, 40) + " "@
            + spec_format_session_desc(s, 30)
    } else {
        let desc = spec_format_session_desc(s, 50);
        let marked: Seq<char> = if s.forked_from is Some {
            "\u{21b3} "@ + desc
        } else {
            desc
        };
        created + " "@ + modified + " "@ + source + " "@ + project + " "@ + marked
    }
}

/// Build one row of the flat listing.
pub fn list_row(session: &Session, now: u64, debug: bool) -> (r: String)
    ensures
        r@ == spec_list_row(session.deep_view(), now, debug),
{
    let created = format_time_relative(now, session.created);
    let mut r = pad_right(created.as_str(), 6);
    r.append(" ");
    let modified = format_time_relative(now, session.modified);
    let m_col = pad_right(modified.as_str(), 6);
    r.append(m_col.as_str());
    r.append(" ");
    if debug {
        let indicator = if session.forked_from.is_some() {
            "\u{21b3}"
        } else {
            ""
        };
        let f_col = pad_right(indicator, 4);
        r.append(f_col.as_str());
        r.append(" ");
        let s_col = pad_right(session.source.display_name(), 8);
        r.append(s_col.as_str());
        r.append(" ");
        let p_col = pad_right(session.project.as_str(), 16);
        r.append(p_col.as_str());
        r.append(" ");
        let id_cut = take_chars(session.id.as_str(), 36);
        let id_col = pad_right(id_cut.as_str(), 40);
        r.append(id_col.as_str());
        r.append(" ");
        let desc = format_session_desc(session, 30);
        r.append(desc.as_str());
        proof {
            reveal_strlit("");
            assert(""@ =~= Seq::<char>::empty());
            assert(r@ =~= spec_list_row(session.deep_view(), now, debug));
        }
    } else {
        let s_col = pad_right(session.source.display_name(), 8);
        r.append(s_col.as_str());
        r.append(" ");
        let p_col = pad_right(session.project.as_str(), 16);
        r.append(p_col.as_str());
        r.append(" ");
        if session.forked_from.is_some() {
            r.append("\u{21b3} ");
        }
        let desc = format_session_desc(session, 50);
        r.append(desc.as_str());
        proof {
            assert(r@ =~= spec_list_row(session.deep_view(), now, debug));
        }
    }
    r
}

// ---------------------------------------------------------------------------
// Search highlighting
// ---------------------------------------------------------------------------

/// The highlighted rendering of `text` from position `i` on: wherever the
/// lowercased remainder starts with the lowercased pattern, the matched
/// span (as many characters as the pattern has) is wrapped in bold-inverse
/// and reset codes.
pub open spec fn spec_highlight_from(
    text: Seq<char>,
    p_lower: Seq<char>,
    pcc: nat,
    i: nat,
) -> Seq<char>
    recommends
        pcc > 0,
    decreases text.len() - i,
{
    if i >= text.len() || pcc == 0 {
        Seq::empty()
    } else if is_prefix_of(p_lower, lower_of(text.skip(i as int))) {
        let ml: nat = if pcc <= text.len() - i {
            pcc
        } else {
            (text.len() - i) as nat
        };
        "\u{1b}[1;7m"@ + text.subrange(i as int, (i + ml) as int) + "\u{1b}[0m"@ + spec_highlight_from(
            text,
            p_lower,
            pcc,
            i + ml,
        )
    } else {
        seq![text[i as int]] + spec_highlight_from(text, p_lower, pcc, i + 1)
    }
}

/// The highlighted rendering of `text`: unchanged for an empty pattern.
pub open spec fn spec_highlight_match(text: Seq<char>, pattern: Seq<char>) -> Seq<char> {
    if pattern.len() == 0 {
        text
    } else {
        spec_highlight_from(text, lower_of(pattern), pattern.len(), 0)
    }
}

/// Highlight case-insensitive occurrences of the pattern with bold-inverse
/// codes, preserving the original text's characters.
pub fn highlight_match(text: &str, pattern: &str) -> (r: String)
    ensures
        r@ == spec_highlight_match(text@, pattern@),
{
    let pcc = pattern.unicode_len();
    if pcc == 0 {
        return String::from_str(text);
    }
    let p_lower_s = to_lowercase(pattern);
    let p_lower = str_to_chars(p_lower_s.as_str());
    let chars = str_to_chars(text);
    let n = chars.len();
    let mut r = String::new();
    let mut i: usize = 0;
    while i < n
        invariant
            n == chars@.len(),
            chars@ == text@,
            pcc == pattern@.len(),
            0 < pcc,
            p_lower@ == lower_of(pattern@),
            i <= n,
            spec_highlight_match(text@, pattern@) == r@ + spec_highlight_from(
                text@,
                lower_of(pattern@),
                pcc as nat,
                i as nat,
            ),
        decreases n - i,
    {
        let remaining = crate::text::subrange_chars(chars.as_slice(), i, n);
        proof {
            assert(remaining@ =~= text@.skip(i as int));
        }
        let remaining_s = chars_to_string(remaining.as_slice());
        let remaining_lower = to_lowercase(remaining_s.as_str());
        let rl_chars = str_to_chars(remaining_lower.as_str());
        let ghost before = r@;
        if crate::text::starts_with_chars(rl_chars.as_slice(), p_lower.as_slice()) {
            let ml = if pcc <= n - i {
                pcc
            } else {
                n - i
            };
            r.append("\u{1b}[1;7m");
            let span = crate::text::subrange_chars(chars.as_slice(), i, i + ml);
            let span_s = chars_to_string(span.as_slice());
            r.append(span_s.as_str());
            r.append("\u{1b}[0m");
            i = i + ml;
            proof {
                assert(r@ =~= before + ("\u{1b}[1;7m"@ + text@.subrange(
                    i - ml,
                    i as int,
                ) + "\u{1b}[0m"@));
            }
        } else {
            crate::text::push_char(&mut r, chars[i]);
            i = i + 1;
            proof {
                assert(r@ =~= before + seq![text@[i - 1]]);
            }
        }
    }
    proof {
        assert(spec_highlight_from(text@, lower_of(pattern@), pcc as nat, n as nat)
            =~= Seq::<char>::empty());
    }
    r
}

} // verus!

verus! {

// ---------------------------------------------------------------------------
// Transcript messages
// ---------------------------------------------------------------------------

/// A message from the transcript: its role (`user` or `assistant`) and its
/// text.
#[derive(Debug)]
pub struct Message {
    pub role: String,
    pub text: String,
}

/// Mathematical model of a transcript message.
pub struct MessageView {
    pub role: Seq<char>,
    pub text: Seq<char>,
}

impl DeepView for Message {
    type V = MessageView;

    open spec fn deep_view(&self) -> MessageView {
        MessageView { role: self.role.deep_view(), text: self.text.deep_view() }
    }
}

/// The one-letter role marker of a message.
pub open spec fn spec_role_prefix(role: Seq<char>) -> Seq<char> {
    if role == "user"@ {
        "U"@
    } else {
        "A"@
    }
}

/// The leader of the `i`-th printed line: the role marker on the first
/// line, alignment spaces after.
pub open spec fn spec_msg_leader(prefix: Seq<char>, i: int) -> Seq<char> {
    if i == 0 {
        prefix + ": "@
    } else {
        "   "@
    }
}

pub open spec fn spec_ctx_lines(lines: Seq<Seq<char>>, prefix: Seq<char>, k: int) -> Seq<char>
    decreases k,
{
    if k <= 0 {
        Seq::empty()
    } else {
        spec_ctx_lines(lines, prefix, k - 1) + ("\u{1b}[2m"@ + spec_msg_leader(prefix, k - 1)
            + lines[k - 1] + "\u{1b}[0m"@ + "\n"@)
    }
}

/// A context message: its first ten lines dimmed, with a dimmed note when
/// more lines were cut.
pub open spec fn spec_format_context_message(m: MessageView) -> Seq<char> {
    let lines = spec_lines_of(m.text);
    let prefix = spec_role_prefix(m.role);
    let k: int = if lines.len() <= 10 {
        lines.len() as int
    } else {
        10
    };
    let body = spec_ctx_lines(lines, prefix, k);
    if lines.len() > 10 {
        body + ("\u{1b}[2m"@ + "   ... ("@ + spec_u64_string((lines.len() - 10) as nat)
            + " more lines)"@ + "\u{1b}[0m"@ + "\n"@)
    } else {
        body
    }
}

/// Format a context message: dimmed, cut after ten lines.
pub fn format_context_message(msg: &Message) -> (r: String)
    ensures
        r@ == spec_format_context_message(msg.deep_view()),
{
    let prefix = if str_eq(msg.role.as_str(), "user") {
        "U"
    } else {
        "A"
    };
    let lines = crate::text::lines_of(msg.text.as_str());
    let ghost lv = lines.deep_view();
    let n = lines.len();
    let cap = if n <= 10 {
        n
    } else {
        10
    };
    let mut r = String::new();
    let mut i: usize = 0;
    while i < cap
        invariant
            n == lines@.len(),
            lv == lines.deep_view(),
            lv.len() == n,
            cap == (if n <= 10 {
                n
            } else {
                10
            }),
            i <= cap,
            prefix@ == spec_role_prefix(msg.deep_view().role),
            r@ == spec_ctx_lines(lv, prefix@, i as int),
        decreases cap - i,
    {
        let ghost before = r@;
        r.append("\u{1b}[2m");
        if i == 0 {
            r.append(prefix);
            r.append(": ");
        } else {
            r.append("   ");
        }
        r.append(lines[i].as_str());
        r.append("\u{1b}[0m");
        r.append("\n");
        proof {
            assert(lv[i as int] == lines@[i as int]@);
            assert(r@ =~= before + ("\u{1b}[2m"@ + spec_msg_leader(prefix@, i as int)
                + lv[i as int] + "\u{1b}[0m"@ + "\n"@));
        }
        i = i + 1;
    }
    if n > 10 {
        r.append("\u{1b}[2m");
        r.append("   ... (");
        let more = u64_to_string((n - 10) as u64);
        r.append(more.as_str());
        r.append(" more lines)");
        r.append("\u{1b}[0m");
        r.append("\n");
        proof {
            assert(r@ =~= spec_format_context_message(msg.deep_view()));
        }
    }
    r
}

/// A line of a matching message: highlighted when it contains the pattern
/// case-insensitively, unchanged otherwise.
pub open spec fn spec_match_line(line: Seq<char>, pattern: Seq<char>) -> Seq<char> {
    if contains_sub(lower_of(line), lower_of(pattern)) {
        spec_highlight_match(line, pattern)
    } else {
        line
    }
}

/// The color code of a matching message's role.
pub open spec fn spec_role_color(role: Seq<char>) -> Seq<char> {
    if role == "user"@ {
        "\u{1b}[36m"@
    } else {
        "\u{1b}[33m"@
    }
}

pub open spec fn spec_match_lines(
    lines: Seq<Seq<char>>,
    pattern: Seq<char>,
    color: Seq<char>,
    prefix: Seq<char>,
    k: int,
) -> Seq<char>
    decreases k,
{
    if k <= 0 {
        Seq::empty()
    } else {
        spec_match_lines(lines, pattern, color, prefix, k - 1) + (color + spec_msg_leader(
            prefix,
            k - 1,
        ) + spec_match_line(lines[k - 1], pattern) + "\u{1b}[0m"@ + "\n"@)
    }
}

/// A matching message: every line colored by role, matching lines
/// highlighted.
pub open spec fn spec_format_matching_message(m: MessageView, pattern: Seq<char>) -> Seq<char> {
    let lines = spec_lines_of(m.text);
    spec_match_lines(
        lines,
        pattern,
        spec_role_color(m.role),
        spec_role_prefix(m.role),
        lines.len() as int,
    )
}

/// Format a matching message: colored, with highlighted matches.
pub fn format_matching_message(msg: &Message, pattern: &str) -> (r: String)
    ensures
        r@ == spec_format_matching_message(msg.deep_view(), pattern@),
{
    let is_user = str_eq(msg.role.as_str(), "user");
    let prefix = if is_user {
        "U"
    } else {
        "A"
    };
    let color = if is_user {
        "\u{1b}[36m"
    } else {
        "\u{1b}[33m"
    };
    let pattern_lower = to_lowercase(pattern);
    let p_chars = str_to_chars(pattern_lower.as_str());
    let lines = crate::text::lines_of(msg.text.as_str());
    let ghost lv = lines.deep_view();
    let n = lines.len();
    let mut r = String::new();
    let mut i: usize = 0;
    while i < n
        invariant
            n == lines@.len(),
            lv == lines.deep_view(),
            lv.len() == n,
            i <= n,
            prefix@ == spec_role_prefix(msg.deep_view().role),
            color@ == spec_role_color(msg.deep_view().role),
            p_chars@ == lower_of(pattern@),
            r@ == spec_match_lines(lv, pattern@, color@, prefix@, i as int),
        decreases n - i,
    {
        let ghost before = r@;
        let line = &lines[i];
        let line_lower = to_lowercase(line.as_str());
        let l_chars = str_to_chars(line_lower.as_str());
        let formatted = if contains_chars(l_chars.as_slice(), p_chars.as_slice()) {
            highlight_match(line.as_str(), pattern)
        } else {
            line.clone()
        };
        r.append(color);
        if i == 0 {
            r.append(prefix);
            r.append(": ");
        } else {
            r.append("   ");
        }
        r.append(formatted.as_str());
        r.append("\u{1b}[0m");
        r.append("\n");
        proof {
            assert(lv[i as int] == lines@[i as int]@);
            assert(formatted@ == spec_match_line(lv[i as int], pattern@));
            assert(r@ =~= before + (color@ + spec_msg_leader(prefix@, i as int)
                + spec_match_line(lv[i as int], pattern@) + "\u{1b}[0m"@ + "\n"@));
        }
        i = i + 1;
    }
    r
}

} // verus!

verus! {

// ---------------------------------------------------------------------------
// Transcript preview
// ---------------------------------------------------------------------------

/// The head-metadata text of a record line, whatever its type.
pub open spec fn spec_line_first_text(line: Seq<char>) -> Option<Seq<char>> {
    match crate::records::json_content_spec(line) {
        Some(c) => crate::records::spec_extract_text_content(c),
        None => None,
    }
}

/// State of the plain preview fold: the text so far and how many rows were
/// printed.
pub struct PreviewState {
    pub out: Seq<char>,
    pub count: nat,
}

/// How one record line extends the plain preview: up to a hundred rows, a
/// cyan `U:` row for each user message that is not system content, a
/// yellow `A:` row for each assistant message, each cut to the pane width.
pub open spec fn spec_preview_step(st: PreviewState, line: Seq<char>) -> PreviewState {
    if st.count >= 100 {
        st
    } else {
        let t = crate::records::record_type(line);
        if t == Some("user"@) {
            match spec_line_first_text(line) {
                Some(text) => if !spec_is_system_content(text) {
                    PreviewState {
                        out: st.out + ("\u{1b}[36m"@ + "U: "@ + spec_truncate_str(
                            spec_first_line(text),
                            120,
                        ) + "\u{1b}[0m"@ + "\n"@),
                        count: st.count + 1,
                    }
                } else {
                    st
                },
                None => st,
            }
        } else if t == Some("assistant"@) {
            match spec_line_first_text(line) {
                Some(text) => PreviewState {
                    out: st.out + ("\u{1b}[33m"@ + "A: "@ + spec_truncate_str(
                        spec_first_line(text),
                        80,
                    ) + "\u{1b}[0m"@ + "\n"@),
                    count: st.count + 1,
                },
                None => st,
            }
        } else {
            st
        }
    }
}

pub open spec fn spec_preview_fold(lines: Seq<Seq<char>>) -> PreviewState
    decreases lines.len(),
{
    if lines.len() == 0 {
        PreviewState { out: Seq::empty(), count: 0 }
    } else {
        spec_preview_step(spec_preview_fold(lines.drop_last()), lines.last())
    }
}

/// The plain transcript preview of a session file.
pub open spec fn spec_generate_preview_content(lines: Seq<Seq<char>>) -> Seq<char> {
    let st = spec_preview_fold(lines);
    if st.out.len() == 0 {
        "(empty session)"@
    } else {
        st.out
    }
}

/// Generate preview content for the picker's preview pane.
pub fn generate_preview_content(lines: &Vec<String>) -> (r: String)
    ensures
        r@ == spec_generate_preview_content(lines.deep_view()),
{
    let ghost lv = lines.deep_view();
    let n = lines.len();
    let mut out = String::new();
    let mut count: usize = 0;
    let mut i: usize = 0;
    proof {
        assert(lv.take(0) =~= Seq::<Seq<char>>::empty());
    }
    while i < n
        invariant
            n == lines@.len(),
            lv == lines.deep_view(),
            lv.len() == n,
            i <= n,
            count <= 100,
            out@ == spec_preview_fold(lv.take(i as int)).out,
            count == spec_preview_fold(lv.take(i as int)).count || (count == 100
                && spec_preview_fold(lv.take(i as int)).count >= 100),
        decreases n - i,
    {
        proof {
            assert(lv[i as int] == lines@[i as int]@);
            assert(lv.take(i + 1).drop_last() =~= lv.take(i as int));
            assert(lv.take(i + 1).last() == lv[i as int]);
        }
        let line = &lines[i];
        if count < 100 {
            proof {
                assert(count == spec_preview_fold(lv.take(i as int)).count);
            }
            let rtype = crate::records::get_record_type(line.as_str());
            let is_user = match &rtype {
                Some(t) => str_eq(t.as_str(), "user"),
                None => false,
            };
            let is_assistant = match &rtype {
                Some(t) => str_eq(t.as_str(), "assistant"),
                None => false,
            };
            if is_user || is_assistant {
                let text_opt = match crate::records::get_record_content(line.as_str()) {
                    Some(content) => crate::records::extract_text_content(&content),
                    None => None,
                };
                proof {
                    assert(text_opt.deep_view() == spec_line_first_text(lv[i as int]));
                }
                match text_opt {
                    Some(text) => {
                        if is_user {
                            if !is_system_content(text.as_str()) {
                                let first = crate::text::first_line_of(text.as_str());
                                let trunc = truncate_str(first.as_str(), 120);
                                out.append("\u{1b}[36m");
                                out.append("U: ");
                                out.append(trunc.as_str());
                                out.append("\u{1b}[0m");
                                out.append("\n");
                                count = count + 1;
                            }
                        } else {
                            let first = crate::text::first_line_of(text.as_str());
                            let trunc = truncate_str(first.as_str(), 80);
                            out.append("\u{1b}[33m");
                            out.append("A: ");
                            out.append(trunc.as_str());
                            out.append("\u{1b}[0m");
                            out.append("\n");
                            count = count + 1;
                        }
                    },
                    None => {},
                }
            }
            proof {
                assert(out@ =~= spec_preview_fold(lv.take(i + 1)).out);
            }
        } else {
            proof {
                assert(spec_preview_fold(lv.take(i + 1)) == spec_preview_fold(
                    lv.take(i as int),
                ));
            }
        }
        i = i + 1;
    }
    proof {
        assert(lv.take(n as int) =~= lv);
    }
    if out.unicode_len() == 0 {
        String::from_str("(empty session)")
    } else {
        out
    }
}

} // verus!

verus! {

// ---------------------------------------------------------------------------
// Search preview
// ---------------------------------------------------------------------------

/// The transcript messages a preview works over: user and assistant
/// records with extractable text, user system content skipped.
pub open spec fn spec_preview_messages(lines: Seq<Seq<char>>) -> Seq<MessageView>
    decreases lines.len(),
{
    if lines.len() == 0 {
        Seq::empty()
    } else {
        let rest = spec_preview_messages(lines.drop_last());
        let line = lines.last();
        let t = crate::records::record_type(line);
        let role: Option<Seq<char>> = if t == Some("user"@) {
            Some("user"@)
        } else if t == Some("assistant"@) {
            Some("assistant"@)
        } else {
            None
        };
        match role {
            None => rest,
            Some(role) => match spec_line_first_text(line) {
                None => rest,
                Some(text) => if role == "user"@ && spec_is_system_content(text) {
                    rest
                } else {
                    rest.push(MessageView { role, text })
                },
            },
        }
    }
}

/// Whether a message's text contains the pattern, case-insensitively.
pub open spec fn spec_msg_matches(m: MessageView, pattern: Seq<char>) -> bool {
    contains_sub(lower_of(m.text), lower_of(pattern))
}

/// State of the search-preview fold: the text so far, matches shown,
/// messages already printed (by index), and whether the match cap ended
/// the walk.
pub struct SearchPreviewState {
    pub out: Seq<char>,
    pub count: nat,
    pub shown: Set<int>,
    pub stopped: bool,
}

/// The separator between match groups.
pub open spec fn spec_match_separator() -> Seq<char> {
    "\n"@ + "\u{1b}[2m"@
        + "\u{2550}\u{2550}\u{2550}\u{2550}\u{2550}\u{2550}\u{2550}\u{2550}\u{2550}\u{2550}\u{2550}\u{2550}\u{2550}\u{2550}\u{2550}\u{2550}\u{2550}\u{2550}\u{2550}\u{2550}\u{2550}\u{2550}\u{2550}\u{2550}\u{2550}\u{2550}\u{2550}\u{2550}\u{2550}\u{2550}\u{2550}\u{2550}"@
        + "\u{1b}[0m"@ + "\n\n"@
}

/// How the walk treats the message at `idx`: non-matching messages are
/// passed over; at the tenth match a truncation notice ends the walk; a
/// match already shown as context is skipped; otherwise the match is
/// printed highlighted between its dimmed neighbours, separated from the
/// previous group.
pub open spec fn spec_search_step(
    ms: Seq<MessageView>,
    pattern: Seq<char>,
    st: SearchPreviewState,
    idx: int,
) -> SearchPreviewState {
    if st.stopped || !spec_msg_matches(ms[idx], pattern) {
        st
    } else if st.count >= 10 {
        SearchPreviewState {
            out: st.out + ("\n"@ + "\u{1b}[1m"@ + "... more matches truncated"@ + "\u{1b}[0m"@
                + "\n"@),
            count: st.count,
            shown: st.shown,
            stopped: true,
        }
    } else if st.shown.contains(idx) {
        st
    } else {
        let o1 = if st.count > 0 {
            st.out + spec_match_separator()
        } else {
            st.out
        };
        let show_prev = idx > 0 && !st.shown.contains(idx - 1);
        let o2 = if show_prev {
            o1 + spec_format_context_message(ms[idx - 1]) + "\n"@
        } else {
            o1
        };
        let sh2 = if show_prev {
            st.shown.insert(idx - 1)
        } else {
            st.shown
        };
        let o3 = o2 + spec_format_matching_message(ms[idx], pattern);
        let sh3 = sh2.insert(idx);
        let show_next = idx + 1 < ms.len() && !sh3.contains(idx + 1);
        let o4 = if show_next {
            o3 + "\n"@ + spec_format_context_message(ms[idx + 1])
        } else {
            o3
        };
        let sh4 = if show_next {
            sh3.insert(idx + 1)
        } else {
            sh3
        };
        SearchPreviewState { out: o4, count: st.count + 1, shown: sh4, stopped: false }
    }
}

pub open spec fn spec_search_banner(pattern: Seq<char>) -> Seq<char> {
    "\u{1b}[32m"@ + "Searching for: \""@ + pattern + "\""@ + "\u{1b}[0m"@ + "\n\n"@
}

pub open spec fn spec_search_fold(
    ms: Seq<MessageView>,
    pattern: Seq<char>,
    k: int,
) -> SearchPreviewState
    decreases k,
{
    if k <= 0 {
        SearchPreviewState {
            out: spec_search_banner(pattern),
            count: 0,
            shown: Set::empty(),
            stopped: false,
        }
    } else {
        spec_search_step(ms, pattern, spec_search_fold(ms, pattern, k - 1), k - 1)
    }
}

/// The search preview of a session file for a pattern: a banner, up to ten
/// matching messages each shown with surrounding context, and a footer
/// with the match count.
pub open spec fn spec_generate_search_preview(
    lines: Seq<Seq<char>>,
    pattern: Seq<char>,
) -> Seq<char> {
    let ms = spec_preview_messages(lines);
    let st = spec_search_fold(ms, pattern, ms.len() as int);
    if st.count == 0 {
        st.out + "(no matches in transcript)"@
    } else {
        st.out + ("\n\n"@ + "\u{1b}[1m"@ + spec_u64_string(st.count) + " matching messages"@
            + "\u{1b}[0m"@)
    }
}

proof fn lemma_search_count_bound(ms: Seq<MessageView>, pattern: Seq<char>, k: int)
    ensures
        spec_search_fold(ms, pattern, k).count <= 10,
    decreases k,
{
    if k > 0 {
        lemma_search_count_bound(ms, pattern, k - 1);
    }
}

/// Generate the preview showing matching messages with conversation
/// context.
#[verifier::rlimit(100)]
pub fn generate_search_preview(lines: &Vec<String>, pattern: &str) -> (r: String)
    ensures
        r@ == spec_generate_search_preview(lines.deep_view(), pattern@),
{
    let ghost lv = lines.deep_view();
    // Collect the transcript messages first
    let n = lines.len();
    let mut messages: Vec<Message> = Vec::new();
    let mut i: usize = 0;
    proof {
        assert(lv.take(0) =~= Seq::<Seq<char>>::empty());
        assert(messages.deep_view() =~~= spec_preview_messages(lv.take(0)));
    }
    while i < n
        invariant
            n == lines@.len(),
            lv == lines.deep_view(),
            lv.len() == n,
            i <= n,
            messages.deep_view() == spec_preview_messages(lv.take(i as int)),
        decreases n - i,
    {
        proof {
            assert(lv[i as int] == lines@[i as int]@);
            assert(lv.take(i + 1).drop_last() =~= lv.take(i as int));
            assert(lv.take(i + 1).last() == lv[i as int]);
        }
        let line = &lines[i];
        let rtype = crate::records::get_record_type(line.as_str());
        let is_user = match &rtype {
            Some(t) => str_eq(t.as_str(), "user"),
            None => false,
        };
        let is_assistant = match &rtype {
            Some(t) => str_eq(t.as_str(), "assistant"),
            None => false,
        };
        let ghost before = messages.deep_view();
        if is_user || is_assistant {
            let text_opt = match crate::records::get_record_content(line.as_str()) {
                Some(content) => crate::records::extract_text_content(&content),
                None => None,
            };
            proof {
                assert(text_opt.deep_view() == spec_line_first_text(lv[i as int]));
            }
            match text_opt {
                Some(text) => {
                    let skip_msg = is_user && is_system_content(text.as_str());
                    if !skip_msg {
                        let role = if is_user {
                            String::from_str("user")
                        } else {
                            String::from_str("assistant")
                        };
                        messages.push(Message { role, text });
                        proof {
                            assert(messages.deep_view() =~~= before.push(
                                messages@.last().deep_view(),
                            ));
                        }
                    }
                },
                None => {},
            }
        }
        i = i + 1;
    }
    proof {
        assert(lv.take(n as int) =~= lv);
    }
    let ghost ms = messages.deep_view();
    let m = messages.len();
    // Walk the matches, marking messages already shown
    let pattern_lower = to_lowercase(pattern);
    let p_chars = str_to_chars(pattern_lower.as_str());
    let mut out = String::from_str("\u{1b}[32m");
    out.append("Searching for: \"");
    out.append(pattern);
    out.append("\"");
    out.append("\u{1b}[0m");
    out.append("\n\n");
    let mut count: usize = 0;
    let mut stopped = false;
    let mut marks: Vec<bool> = Vec::new();
    let mut j: usize = 0;
    while j < m
        invariant
            j <= m,
            marks@.len() == j,
            forall|k: int| 0 <= k < j ==> marks@[k] == false,
        decreases m - j,
    {
        marks.push(false);
        j = j + 1;
    }
    let mut idx: usize = 0;
    proof {
        assert(out@ =~= spec_search_banner(pattern@));
        assert(out@ == spec_search_fold(ms, pattern@, 0).out);
        assert forall|k: int| 0 <= k < m implies marks@[k] == spec_search_fold(
            ms,
            pattern@,
            0,
        ).shown.contains(k) by {
            assert(!Set::<int>::empty().contains(k));
        }
    }
    while idx < m
        invariant
            m == messages@.len(),
            ms == messages.deep_view(),
            ms.len() == m,
            idx <= m,
            marks@.len() == m,
            p_chars@ == lower_of(pattern@),
            out@ == spec_search_fold(ms, pattern@, idx as int).out,
            count == spec_search_fold(ms, pattern@, idx as int).count,
            stopped == spec_search_fold(ms, pattern@, idx as int).stopped,
            forall|k: int|
                0 <= k < m ==> marks@[k] == spec_search_fold(
                    ms,
                    pattern@,
                    idx as int,
                ).shown.contains(k),
        decreases m - idx,
    {
        let ghost st0 = spec_search_fold(ms, pattern@, idx as int);
        proof {
            assert(ms[idx as int] == messages@[idx as int].deep_view());
            lemma_search_count_bound(ms, pattern@, idx as int);
        }
        let msg_lower = to_lowercase(messages[idx].text.as_str());
        let ml_chars = str_to_chars(msg_lower.as_str());
        let matched = contains_chars(ml_chars.as_slice(), p_chars.as_slice());
        proof {
            assert(matched == spec_msg_matches(ms[idx as int], pattern@));
        }
        if !stopped && matched {
            if count >= 10 {
                out.append("\n");
                out.append("\u{1b}[1m");
                out.append("... more matches truncated");
                out.append("\u{1b}[0m");
                out.append("\n");
                stopped = true;
                proof {
                    assert(out@ =~= spec_search_fold(ms, pattern@, idx + 1).out);
                }
            } else if marks[idx] {
                // already shown as context; skip
            } else {
                let ghost sep_out = if st0.count > 0 {
                    st0.out + spec_match_separator()
                } else {
                    st0.out
                };
                if count > 0 {
                    out.append("\n");
                    out.append("\u{1b}[2m");
                    out.append(
                        "\u{2550}\u{2550}\u{2550}\u{2550}\u{2550}\u{2550}\u{2550}\u{2550}\u{2550}\u{2550}\u{2550}\u{2550}\u{2550}\u{2550}\u{2550}\u{2550}\u{2550}\u{2550}\u{2550}\u{2550}\u{2550}\u{2550}\u{2550}\u{2550}\u{2550}\u{2550}\u{2550}\u{2550}\u{2550}\u{2550}\u{2550}\u{2550}",
                    );
                    out.append("\u{1b}[0m");
                    out.append("\n\n");
                }
                proof {
                    assert(out@ =~= sep_out);
                }
                let show_prev = idx > 0 && !marks[idx - 1];
                let ghost o2 = if show_prev {
                    sep_out + spec_format_context_message(ms[idx - 1]) + "\n"@
                } else {
                    sep_out
                };
                let ghost sh2 = if show_prev {
                    st0.shown.insert(idx - 1)
                } else {
                    st0.shown
                };
                if show_prev {
                    proof {
                        assert(ms[idx - 1] == messages@[idx - 1].deep_view());
                    }
                    let ctx = format_context_message(&messages[idx - 1]);
                    out.append(ctx.as_str());
                    out.append("\n");
                    let ghost marks0 = marks@;
                    let _ = marks.remove(idx - 1);
                    marks.insert(idx - 1, true);
                    proof {
                        assert(marks@ =~= marks0.update(idx - 1, true));
                    }
                }
                proof {
                    assert(out@ =~= o2);
                    assert(forall|k: int|
                        0 <= k < m ==> marks@[k] == sh2.contains(k));
                }
                let matching = format_matching_message(&messages[idx], pattern);
                out.append(matching.as_str());
                let ghost o3 = o2 + spec_format_matching_message(ms[idx as int], pattern@);
                let ghost sh3 = sh2.insert(idx as int);
                let ghost marks1 = marks@;
                let _ = marks.remove(idx);
                marks.insert(idx, true);
                proof {
                    assert(marks@ =~= marks1.update(idx as int, true));
                    assert(out@ =~= o3);
                    assert(forall|k: int|
                        0 <= k < m ==> marks@[k] == sh3.contains(k));
                }
                let show_next = idx + 1 < m && !marks[idx + 1];
                let ghost o4 = if show_next {
                    o3 + "\n"@ + spec_format_context_message(ms[idx + 1])
                } else {
                    o3
                };
                let ghost sh4 = if show_next {
                    sh3.insert(idx + 1)
                } else {
                    sh3
                };
                if show_next {
                    proof {
                        assert(ms[idx + 1] == messages@[idx + 1].deep_view());
                    }
                    out.append("\n");
                    let ctx = format_context_message(&messages[idx + 1]);
                    out.append(ctx.as_str());
                    let ghost marks2 = marks@;
                    let _ = marks.remove(idx + 1);
                    marks.insert(idx + 1, true);
                    proof {
                        assert(marks@ =~= marks2.update(idx + 1, true));
                    }
                }
                count = count + 1;
                proof {
                    assert(out@ =~= o4);
                    assert(forall|k: int|
                        0 <= k < m ==> marks@[k] == sh4.contains(k));
                    let st1 = spec_search_step(ms, pattern@, st0, idx as int);
                    assert(st1.out == o4);
                    assert(st1.shown == sh4);
                    assert(st1.count == st0.count + 1);
                    assert(!st1.stopped);
                }
            }
        }
        idx = idx + 1;
        proof {
            let st1 = spec_search_fold(ms, pattern@, idx as int);
            assert(st1 == spec_search_step(ms, pattern@, st0, idx - 1));
            assert(out@ == st1.out);
            assert(count == st1.count);
            assert(stopped == st1.stopped);
            assert(forall|k: int| 0 <= k < m ==> marks@[k] == st1.shown.contains(k));
        }
    }
    // Footer
    if count == 0 {
        out.append("(no matches in transcript)");
        proof {
            assert(out@ =~= spec_generate_search_preview(lv, pattern@));
        }
        out
    } else {
        out.append("\n\n");
        out.append("\u{1b}[1m");
        let c = u64_to_string(count as u64);
        out.append(c.as_str());
        out.append(" matching messages");
        out.append("\u{1b}[0m");
        proof {
            assert(out@ =~= spec_generate_search_preview(lv, pattern@));
        }
        out
    }
}

} // verus!
