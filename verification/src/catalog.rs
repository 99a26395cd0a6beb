//! Session storage format handling: the single-pass scanner, the tail
//! reader, the session builder and multi-source aggregation.
//!
//! Sessions are stored as files of independent JSON line-records, two
//! directory levels below a projects root. All metadata is extracted from
//! file contents handed in as plain values; reading bytes off disk is the
//! caller's business.

use vstd::prelude::*;
use crate::message_classification::{
    counts_as_turn, is_first_prompt_candidate, spec_counts_as_turn, spec_is_first_prompt_candidate,
};
use crate::records::{
    get_record_content, get_record_cwd, get_record_forked_from, get_record_type,
    get_record_custom_title, get_record_summary, json_content_spec, record_custom_title,
    record_cwd, record_forked_from, record_summary, record_type, spec_extract_text_content,
    spec_search_text, extract_text_content, extract_message_text_for_search,
};
use crate::text::{
    lower_of, spec_join, spec_lines_of, spec_normalize_summary, spec_find_char, join_strings,
    normalize_summary, to_lowercase, str_eq, str_to_chars, subrange_chars, split_on_char,
    find_char, chars_to_string,
};

verus! {

/// Metadata extracted from a session file's records.
#[derive(Debug)]
pub struct HeadMetadata {
    pub project_path: String,
    pub first_prompt: Option<String>,
    pub forked_from: Option<String>,
}

/// Output of the single pass over a session file.
#[derive(Debug)]
pub struct HeadTurnSearchScan {
    pub head: HeadMetadata,
    pub turn_count: usize,
    pub search_text_lower: String,
}

/// Mathematical model of the scan state.
pub struct ScanModel {
    pub project_path: Seq<char>,
    pub first_prompt: Option<Seq<char>>,
    pub forked_from: Option<Seq<char>>,
    pub turn_count: nat,
    pub chunks: Seq<Seq<char>>,
}

/// The scan state before any record is read.
pub open spec fn scan_init() -> ScanModel {
    ScanModel {
        project_path: Seq::empty(),
        first_prompt: None,
        forked_from: None,
        turn_count: 0,
        chunks: Seq::empty(),
    }
}

/// The first-text-block payload of a record, when it is a user record.
pub open spec fn user_text(line: Seq<char>) -> Option<Seq<char>> {
    if record_type(line) == Some("user"@) {
        match json_content_spec(line) {
            Some(c) => spec_extract_text_content(c),
            None => None,
        }
    } else {
        None
    }
}

/// The all-text-blocks payload of a record, when it is a user or assistant
/// record.
pub open spec fn convo_search_text(line: Seq<char>) -> Option<Seq<char>> {
    if record_type(line) == Some("user"@) || record_type(line) == Some("assistant"@) {
        match json_content_spec(line) {
            Some(c) => spec_search_text(c),
            None => None,
        }
    } else {
        None
    }
}

/// How one record updates the scan state: first `cwd` wins, first fork
/// parent wins, first acceptable user text becomes the normalized first
/// prompt, genuine user content counts one turn, and every user or
/// assistant text joins the search accumulator.
pub open spec fn scan_step(st: ScanModel, line: Seq<char>) -> ScanModel {
    let st1 = match record_cwd(line) {
        Some(c) => if st.project_path.len() == 0 {
            ScanModel { project_path: c, ..st }
        } else {
            st
        },
        None => st,
    };
    let st2 = match record_forked_from(line) {
        Some(p) => if st1.forked_from is None {
            ScanModel { forked_from: Some(p), ..st1 }
        } else {
            st1
        },
        None => st1,
    };
    let st3 = match user_text(line) {
        Some(t) => if st2.first_prompt is None && spec_is_first_prompt_candidate(t) {
            ScanModel { first_prompt: Some(spec_normalize_summary(t, 50)), ..st2 }
        } else {
            st2
        },
        None => st2,
    };
    let st4 = match user_text(line) {
        Some(t) => if spec_counts_as_turn(t) {
            ScanModel { turn_count: st3.turn_count + 1, ..st3 }
        } else {
            st3
        },
        None => st3,
    };
    match convo_search_text(line) {
        Some(t) => if t.len() > 0 {
            ScanModel { chunks: st4.chunks.push(t), ..st4 }
        } else {
            st4
        },
        None => st4,
    }
}

/// The scan state after all records of a file, in order.
pub open spec fn scan_lines(lines: Seq<Seq<char>>) -> ScanModel
    decreases lines.len(),
{
    if lines.len() == 0 {
        scan_init()
    } else {
        scan_step(scan_lines(lines.drop_last()), lines.last())
    }
}

pub proof fn lemma_scan_turn_bound(lines: Seq<Seq<char>>)
    ensures
        scan_lines(lines).turn_count <= lines.len(),
    decreases lines.len(),
{
    if lines.len() > 0 {
        lemma_scan_turn_bound(lines.drop_last());
    }
}

/// Scan a session file once to collect head metadata (first `cwd`, first
/// prompt, fork parent), the user turn count, and the lowercase searchable
/// transcript text.
pub fn scan_head_turns_and_search(lines: &Vec<String>) -> (r: HeadTurnSearchScan)
    ensures
        ({
            let m = scan_lines(lines.deep_view());
            &&& r.head.project_path@ == m.project_path
            &&& r.head.first_prompt.deep_view() == m.first_prompt
            &&& r.head.forked_from.deep_view() == m.forked_from
            &&& r.turn_count == m.turn_count
            &&& r.search_text_lower@ == lower_of(spec_join(m.chunks, "\n"@))
        }),
{
    let ghost lv = lines.deep_view();
    let n = lines.len();
    let mut project_path = String::new();
    let mut first_prompt: Option<String> = None;
    let mut forked_from: Option<String> = None;
    let mut turn_count: usize = 0;
    let mut chunks: Vec<String> = Vec::new();
    let mut i: usize = 0;
    proof {
        assert(lv.take(0) =~= Seq::<Seq<char>>::empty());
    }
    while i < n
        invariant
            n == lines@.len(),
            lv == lines.deep_view(),
            lv.len() == n,
            i <= n,
            ({
                let m = scan_lines(lv.take(i as int));
                &&& project_path@ == m.project_path
                &&& first_prompt.deep_view() == m.first_prompt
                &&& forked_from.deep_view() == m.forked_from
                &&& turn_count == m.turn_count
                &&& chunks.deep_view() == m.chunks
            }),
        decreases n - i,
    {
        let ghost m0 = scan_lines(lv.take(i as int));
        let line = &lines[i];
        proof {
            assert(lv[i as int] == lines@[i as int]@);
            assert(lv.take(i + 1).drop_last() =~= lv.take(i as int));
            assert(lv.take(i + 1).last() == lv[i as int]);
            lemma_scan_turn_bound(lv.take(i as int));
        }
        // Head metadata: cwd (first occurrence wins)
        if project_path.unicode_len() == 0 {
            match get_record_cwd(line.as_str()) {
                Some(c) => {
                    project_path = c;
                },
                None => {},
            }
        }
        // Head metadata: fork parent (first occurrence wins)
        if forked_from.is_none() {
            match get_record_forked_from(line.as_str()) {
                Some(p) => {
                    forked_from = Some(p);
                },
                None => {},
            }
        }
        let rtype = get_record_type(line.as_str());
        let is_user = match &rtype {
            Some(t) => str_eq(t.as_str(), "user"),
            None => false,
        };
        let is_assistant = match &rtype {
            Some(t) => str_eq(t.as_str(), "assistant"),
            None => false,
        };
        proof {
            assert(is_user == (record_type(lv[i as int]) == Some("user"@)));
            assert(is_assistant == (record_type(lv[i as int]) == Some("assistant"@)));
        }
        if is_user || is_assistant {
            match get_record_content(line.as_str()) {
                Some(content) => {
                    if is_user {
                        match extract_text_content(&content) {
                            Some(text) => {
                                proof {
                                    assert(user_text(lv[i as int]) == Some(text@));
                                }
                                // First user prompt
                                if first_prompt.is_none() && is_first_prompt_candidate(
                                    text.as_str(),
                                ) {
                                    first_prompt = Some(normalize_summary(text.as_str(), 50));
                                }
                                // Turn counting
                                if counts_as_turn(text.as_str()) {
                                    turn_count = turn_count + 1;
                                }
                            },
                            None => {
                                proof {
                                    assert(user_text(lv[i as int]) is None);
                                }
                            },
                        }
                    }
                    // Search text: user and assistant, all text blocks
                    match extract_message_text_for_search(&content) {
                        Some(text) => {
                            proof {
                                assert(convo_search_text(lv[i as int]) == Some(text@));
                            }
                            if text.unicode_len() > 0 {
                                let ghost prev = chunks.deep_view();
                                chunks.push(text);
                                proof {
                                    assert(chunks.deep_view() =~~= prev.push(
                                        chunks@.last()@,
                                    ));
                                }
                            }
                        },
                        None => {
                            proof {
                                assert(convo_search_text(lv[i as int]) is None);
                            }
                        },
                    }
                },
                None => {
                    proof {
                        assert(user_text(lv[i as int]) is None);
                        assert(convo_search_text(lv[i as int]) is None);
                    }
                },
            }
        } else {
            proof {
                assert(user_text(lv[i as int]) is None);
                assert(convo_search_text(lv[i as int]) is None);
            }
        }
        i = i + 1;
        proof {
            assert(scan_lines(lv.take(i as int)) == scan_step(m0, lv[i - 1]));
        }
    }
    proof {
        assert(lv.take(n as int) =~= lv);
    }
    let joined = join_strings(&chunks, "\n");
    let search_text_lower = to_lowercase(joined.as_str());
    HeadTurnSearchScan {
        head: HeadMetadata { project_path, first_prompt, forked_from },
        turn_count,
        search_text_lower,
    }
}

/// Read the head metadata of a session file: first `cwd`, first acceptable
/// user message, and fork parent.
pub fn read_file_head(lines: &Vec<String>) -> (r: HeadMetadata)
    ensures
        ({
            let m = scan_lines(lines.deep_view());
            &&& r.project_path@ == m.project_path
            &&& r.first_prompt.deep_view() == m.first_prompt
            &&& r.forked_from.deep_view() == m.forked_from
        }),
{
    scan_head_turns_and_search(lines).head
}

/// Count conversation turns: user records whose text is genuine content.
pub fn count_turns(lines: &Vec<String>) -> (r: usize)
    ensures
        r == scan_lines(lines.deep_view()).turn_count,
{
    scan_head_turns_and_search(lines).turn_count
}

/// Build lowercase searchable transcript text for user/assistant messages.
pub fn session_search_text_lower(lines: &Vec<String>) -> (r: String)
    ensures
        r@ == lower_of(spec_join(scan_lines(lines.deep_view()).chunks, "\n"@)),
{
    scan_head_turns_and_search(lines).search_text_lower
}

} // verus!

verus! {

// ---------------------------------------------------------------------------
// Tail reader
// ---------------------------------------------------------------------------

/// The tail window with its leading partial line discarded: when the window
/// started mid-file, everything up to and including the first newline is
/// dropped; a window with no newline at all is kept whole.
pub open spec fn spec_tail_content(window: Seq<char>, seeked: bool) -> Seq<char> {
    if seeked {
        match spec_find_char(window, '\n') {
            Some(p) => window.skip(p + 1),
            None => window,
        }
    } else {
        window
    }
}

/// The summary of the first summary-type record among the given lines; the
/// record's `summary` field, even when absent.
pub open spec fn spec_first_summary(lines: Seq<Seq<char>>) -> Option<Seq<char>>
    decreases lines.len(),
{
    if lines.len() == 0 {
        None
    } else if record_type(lines[0]) == Some("summary"@) {
        record_summary(lines[0])
    } else {
        spec_first_summary(lines.skip(1))
    }
}

/// What the bounded tail window yields as the session summary.
pub open spec fn spec_summary_from_tail(window: Seq<char>, seeked: bool) -> Option<Seq<char>> {
    spec_first_summary(spec_lines_of(spec_tail_content(window, seeked)))
}

/// Read the session summary from a trailing window of the file. `seeked`
/// says whether the window starts mid-file, in which case the first partial
/// line is discarded.
pub fn read_summary_from_tail(window: &str, seeked: bool) -> (r: Option<String>)
    ensures
        r.deep_view() == spec_summary_from_tail(window@, seeked),
{
    let chars = str_to_chars(window);
    let content: Vec<char> = if seeked {
        let p = find_char(chars.as_slice(), '\n');
        if p < chars.len() {
            let rest = subrange_chars(chars.as_slice(), p + 1, chars.len());
            proof {
                assert(rest@ =~= window@.skip(p + 1));
            }
            rest
        } else {
            chars
        }
    } else {
        chars
    };
    let ghost cv = content@;
    proof {
        assert(cv == spec_tail_content(window@, seeked));
    }
    let mut parts = split_on_char(content.as_slice(), '\n');
    proof {
        crate::text::lemma_split_len(cv, '\n');
        assert(parts@[parts@.len() - 1].deep_view()
            == parts.deep_view()[parts@.len() - 1]);
    }
    let last_len = parts[parts.len() - 1].len();
    if last_len == 0 {
        let ghost before = parts.deep_view();
        let _ = parts.pop();
        proof {
            assert(parts.deep_view() =~~= before.drop_last());
        }
    }
    let ghost ls = spec_lines_of(cv);
    proof {
        assert(parts.deep_view() == ls);
    }
    let n = parts.len();
    let mut i: usize = 0;
    proof {
        assert(ls.skip(0) =~= ls);
    }
    while i < n
        invariant
            n == parts@.len(),
            parts.deep_view() == ls,
            ls == spec_lines_of(spec_tail_content(window@, seeked)),
            ls.len() == n,
            i <= n,
            spec_first_summary(ls) == spec_first_summary(ls.skip(i as int)),
        decreases n - i,
    {
        proof {
            assert(parts@[i as int].deep_view() == ls[i as int]);
            assert(ls.skip(i as int)[0] == ls[i as int]);
            assert(ls.skip(i as int).skip(1) =~= ls.skip(i + 1));
        }
        let line = chars_to_string(parts[i].as_slice());
        let rtype = get_record_type(line.as_str());
        let is_summary = match &rtype {
            Some(t) => str_eq(t.as_str(), "summary"),
            None => false,
        };
        proof {
            assert(line@ == ls[i as int]);
            assert(is_summary == (record_type(ls[i as int]) == Some("summary"@)));
        }
        if is_summary {
            proof {
                assert(spec_first_summary(ls.skip(i as int)) == record_summary(ls[i as int]));
            }
            return get_record_summary(line.as_str());
        }
        i = i + 1;
    }
    proof {
        assert(ls.skip(n as int) =~= Seq::<Seq<char>>::empty());
    }
    None
}

/// The custom title of the last rename-type record, if any; a session may
/// be renamed multiple times and the latest rename wins.
pub open spec fn spec_last_custom_title(lines: Seq<Seq<char>>) -> Option<Seq<char>>
    decreases lines.len(),
{
    if lines.len() == 0 {
        None
    } else if record_type(lines.last()) == Some("custom-title"@) {
        record_custom_title(lines.last())
    } else {
        spec_last_custom_title(lines.drop_last())
    }
}

/// Find the custom title by scanning the whole file for the last
/// rename-type record.
pub fn find_custom_title(lines: &Vec<String>) -> (r: Option<String>)
    ensures
        r.deep_view() == spec_last_custom_title(lines.deep_view()),
{
    let ghost lv = lines.deep_view();
    let n = lines.len();
    let mut i: usize = n;
    proof {
        assert(lv.take(n as int) =~= lv);
    }
    while i > 0
        invariant
            n == lines@.len(),
            lv == lines.deep_view(),
            lv.len() == n,
            i <= n,
            spec_last_custom_title(lv) == spec_last_custom_title(lv.take(i as int)),
        decreases i,
    {
        proof {
            assert(lv.take(i as int).last() == lv[i - 1]);
            assert(lv.take(i as int).drop_last() =~= lv.take(i - 1));
            assert(lv[i - 1] == lines@[i - 1]@);
        }
        let line = &lines[i - 1];
        let rtype = get_record_type(line.as_str());
        let is_title = match &rtype {
            Some(t) => str_eq(t.as_str(), "custom-title"),
            None => false,
        };
        if is_title {
            return get_record_custom_title(line.as_str());
        }
        i = i - 1;
    }
    proof {
        assert(lv.take(0) =~= Seq::<Seq<char>>::empty());
    }
    None
}

/// Read the tail of a session file: the summary from the bounded trailing
/// window, and the custom title from the whole file.
pub fn read_file_tail(window: &str, seeked: bool, lines: &Vec<String>) -> (r: (
    Option<String>,
    Option<String>,
))
    ensures
        r.0.deep_view() == spec_summary_from_tail(window@, seeked),
        r.1.deep_view() == spec_last_custom_title(lines.deep_view()),
{
    let summary = read_summary_from_tail(window, seeked);
    let custom_title = find_custom_title(lines);
    (summary, custom_title)
}

} // verus!

verus! {

broadcast use vstd::seq_lib::group_to_multiset_ensures;

// ---------------------------------------------------------------------------
// Session builder
// ---------------------------------------------------------------------------

/// Everything the builder needs to know about one candidate file: its path,
/// the name of its parent directory, its content as lines, a bounded
/// trailing window, and its filesystem timestamps in seconds since the
/// epoch.
#[derive(Debug)]
pub struct SessionFileData {
    pub filepath: String,
    pub parent_dir: String,
    pub lines: Vec<String>,
    pub tail_window: String,
    /// Whether `tail_window` starts mid-file (its first line is partial).
    pub tail_seeked: bool,
    pub created: u64,
    pub modified: u64,
}

/// Mathematical model of a candidate file.
pub struct SessionFileDataView {
    pub filepath: Seq<char>,
    pub parent_dir: Seq<char>,
    pub lines: Seq<Seq<char>>,
    pub tail_window: Seq<char>,
    pub tail_seeked: bool,
    pub created: u64,
    pub modified: u64,
}

impl DeepView for SessionFileData {
    type V = SessionFileDataView;

    open spec fn deep_view(&self) -> SessionFileDataView {
        SessionFileDataView {
            filepath: self.filepath.deep_view(),
            parent_dir: self.parent_dir.deep_view(),
            lines: self.lines.deep_view(),
            tail_window: self.tail_window.deep_view(),
            tail_seeked: self.tail_seeked,
            created: self.created,
            modified: self.modified,
        }
    }
}

/// The session a candidate file yields: `None` exactly when the file shows
/// no project path, no first prompt and no summary (the empty-session
/// filter).
pub open spec fn spec_build_session(
    f: SessionFileDataView,
    src: crate::session::SessionSourceView,
) -> Option<crate::session::SessionView> {
    let m = scan_lines(f.lines);
    let summary = spec_summary_from_tail(f.tail_window, f.tail_seeked);
    let title = spec_last_custom_title(f.lines);
    if m.project_path.len() == 0 && m.first_prompt is None && summary is None {
        None
    } else {
        Some(
            crate::session::SessionView {
                id: crate::session::spec_session_stem(f.filepath),
                project: crate::session::spec_extract_project_name(m.project_path, f.parent_dir),
                project_path: m.project_path,
                filepath: f.filepath,
                created: f.created,
                modified: f.modified,
                first_message: m.first_prompt,
                summary: summary,
                name: title,
                turn_count: m.turn_count as usize,
                source: src,
                forked_from: m.forked_from,
            },
        )
    }
}

/// Extract all session metadata from one candidate file, or nothing when
/// the empty-session invariant triggers.
pub fn extract_session_metadata(file: &SessionFileData, source: crate::session::SessionSource) -> (r:
    Option<crate::session::Session>)
    ensures
        r.deep_view() == spec_build_session(file.deep_view(), source.deep_view()),
{
    let id = crate::session::session_file_stem(file.filepath.as_str());
    let scan = scan_head_turns_and_search(&file.lines);
    let (summary, custom_title) = read_file_tail(
        file.tail_window.as_str(),
        file.tail_seeked,
        &file.lines,
    );
    proof {
        lemma_scan_turn_bound(file.lines.deep_view());
    }
    if scan.head.project_path.unicode_len() == 0 && scan.head.first_prompt.is_none()
        && summary.is_none() {
        return None;
    }
    let project = crate::session::extract_project_name(
        scan.head.project_path.as_str(),
        file.parent_dir.as_str(),
    );
    Some(
        crate::session::Session {
            id,
            project,
            project_path: scan.head.project_path,
            filepath: file.filepath.clone(),
            created: file.created,
            modified: file.modified,
            first_message: scan.head.first_prompt,
            summary,
            name: custom_title,
            turn_count: scan.turn_count,
            source,
            forked_from: scan.head.forked_from,
        },
    )
}

// ---------------------------------------------------------------------------
// Ordering
// ---------------------------------------------------------------------------

/// Later-modified sessions come no later in the list.
pub open spec fn sorted_by_modified_desc(s: Seq<crate::session::SessionView>) -> bool {
    forall|i: int, j: int| 0 <= i < j < s.len() ==> s[i].modified >= s[j].modified
}

/// Sort sessions by modified timestamp, most recent first. The result holds
/// exactly the given sessions; the order of equal timestamps is
/// unspecified.
pub fn sort_sessions_by_modified_desc(v: Vec<crate::session::Session>) -> (r: Vec<
    crate::session::Session,
>)
    ensures
        sorted_by_modified_desc(r.deep_view()),
        r.deep_view().to_multiset() == v.deep_view().to_multiset(),
{
    let ghost orig = v.deep_view();
    let mut input = v;
    let mut out: Vec<crate::session::Session> = Vec::new();
    proof {
        assert(out.deep_view() =~~= Seq::<crate::session::SessionView>::empty());
        assert(out.deep_view().to_multiset().add(input.deep_view().to_multiset())
            =~= orig.to_multiset());
    }
    while input.len() > 0
        invariant
            out.deep_view().to_multiset().add(input.deep_view().to_multiset())
                == orig.to_multiset(),
            sorted_by_modified_desc(out.deep_view()),
            forall|i: int, j: int|
                0 <= i < out.deep_view().len() && 0 <= j < input.deep_view().len()
                    ==> out.deep_view()[i].modified >= input.deep_view()[j].modified,
        decreases input.len(),
    {
        let n = input.len();
        let mut best: usize = 0;
        let mut k: usize = 1;
        while k < n
            invariant
                n == input@.len(),
                0 < n,
                best < k <= n,
                forall|m: int|
                    0 <= m < k ==> input.deep_view()[m].modified
                        <= input.deep_view()[best as int].modified,
            decreases n - k,
        {
            if input[k].modified > input[best].modified {
                best = k;
            }
            k = k + 1;
        }
        let ghost in_before = input.deep_view();
        let ghost out_before = out.deep_view();
        let item = input.remove(best);
        out.push(item);
        proof {
            assert(item.deep_view() == in_before[best as int]);
            assert(input.deep_view() =~~= in_before.remove(best as int));
            assert(out.deep_view() =~~= out_before.push(item.deep_view()));
            assert(in_before.remove(best as int).to_multiset()
                =~= in_before.to_multiset().remove(in_before[best as int]));
            assert(out_before.push(item.deep_view()).to_multiset()
                =~= out_before.to_multiset().insert(item.deep_view()));
            assert(in_before.to_multiset().count(in_before[best as int]) > 0);
            assert(out.deep_view().to_multiset().add(input.deep_view().to_multiset())
                =~= orig.to_multiset());
        }
    }
    proof {
        assert(input.deep_view() =~~= Seq::<crate::session::SessionView>::empty());
        assert(out.deep_view().to_multiset().add(input.deep_view().to_multiset())
            =~= out.deep_view().to_multiset());
    }
    out
}

// ---------------------------------------------------------------------------
// Source locator
// ---------------------------------------------------------------------------

/// The sessions that a list of candidate files yields: files passing the
/// path filter, built, empty sessions dropped, in input order.
pub open spec fn spec_built_sessions(
    files: Seq<SessionFileDataView>,
    src: crate::session::SessionSourceView,
) -> Seq<crate::session::SessionView>
    decreases files.len(),
{
    if files.len() == 0 {
        Seq::empty()
    } else {
        let rest = spec_built_sessions(files.drop_last(), src);
        let f = files.last();
        if crate::session::spec_valid_session_file(f.filepath) {
            match spec_build_session(f, src) {
                Some(s) => rest.push(s),
                None => rest,
            }
        } else {
            rest
        }
    }
}

/// Find sessions among candidate files, tagged with a source: filter file
/// paths, build each survivor, drop empty sessions, and sort by modified
/// descending.
pub fn find_sessions_with_source(
    files: &Vec<SessionFileData>,
    source: &crate::session::SessionSource,
) -> (r: Vec<crate::session::Session>)
    ensures
        sorted_by_modified_desc(r.deep_view()),
        r.deep_view().to_multiset() == spec_built_sessions(
            files.deep_view(),
            source.deep_view(),
        ).to_multiset(),
{
    let ghost fv = files.deep_view();
    let n = files.len();
    let mut built: Vec<crate::session::Session> = Vec::new();
    let mut i: usize = 0;
    proof {
        assert(built.deep_view() =~~= spec_built_sessions(fv.take(0), source.deep_view()));
    }
    while i < n
        invariant
            n == files@.len(),
            fv == files.deep_view(),
            fv.len() == n,
            i <= n,
            built.deep_view() == spec_built_sessions(fv.take(i as int), source.deep_view()),
        decreases n - i,
    {
        let file = &files[i];
        proof {
            assert(fv[i as int] == files@[i as int].deep_view());
            assert(fv.take(i + 1).drop_last() =~= fv.take(i as int));
            assert(fv.take(i + 1).last() == fv[i as int]);
        }
        let ghost before = built.deep_view();
        if crate::session::is_valid_session_file(file.filepath.as_str()) {
            match extract_session_metadata(file, source.duplicate()) {
                Some(s) => {
                    built.push(s);
                    proof {
                        assert(built.deep_view() =~~= before.push(
                            built@.last().deep_view(),
                        ));
                    }
                },
                None => {},
            }
        }
        i = i + 1;
    }
    proof {
        assert(fv.take(n as int) =~= fv);
    }
    sort_sessions_by_modified_desc(built)
}

/// Find sessions under a local projects root.
pub fn find_sessions(files: &Vec<SessionFileData>) -> (r: Vec<crate::session::Session>)
    ensures
        sorted_by_modified_desc(r.deep_view()),
        r.deep_view().to_multiset() == spec_built_sessions(
            files.deep_view(),
            crate::session::SessionSourceView::Local,
        ).to_multiset(),
{
    find_sessions_with_source(files, &crate::session::SessionSource::Local)
}

} // verus!

verus! {

// ---------------------------------------------------------------------------
// Multi-source aggregation
// ---------------------------------------------------------------------------

/// Check if a source should be included based on the filter.
pub open spec fn spec_should_include_source(
    remote_filter: Option<Seq<char>>,
    source_name: Seq<char>,
) -> bool {
    match remote_filter {
        None => true,
        Some(f) => f == source_name,
    }
}

pub fn should_include_source(remote_filter: Option<&str>, source_name: &str) -> (r: bool)
    ensures
        r == spec_should_include_source(remote_filter.deep_view(), source_name@),
{
    match remote_filter {
        None => true,
        Some(f) => str_eq(f, source_name),
    }
}

/// Whether a remote takes part in discovery under the filter: it must be
/// named by the filter (or no filter given), and the `local` filter
/// excludes every remote.
pub open spec fn spec_remote_included(
    remote_filter: Option<Seq<char>>,
    name: Seq<char>,
) -> bool {
    spec_should_include_source(remote_filter, name) && remote_filter != Some("local"@)
}

pub fn remote_source_included(remote_filter: Option<&str>, name: &str) -> (r: bool)
    ensures
        r == spec_remote_included(remote_filter.deep_view(), name@),
{
    if !should_include_source(remote_filter, name) {
        return false;
    }
    match remote_filter {
        Some(f) => !str_eq(f, "local"),
        None => true,
    }
}

/// What fetching one remote's cached sessions came to: the cache directory
/// does not exist yet (never synced — silently skipped), or sessions were
/// loaded, or the attempt failed with a reason.
#[derive(Debug)]
pub enum SourceFetch {
    NoCache,
    Loaded(Vec<crate::session::Session>),
    Failed(String),
}

/// Mathematical model of one remote fetch outcome.
pub enum SourceFetchView {
    NoCache,
    Loaded(Seq<crate::session::SessionView>),
    Failed(Seq<char>),
}

impl DeepView for SourceFetch {
    type V = SourceFetchView;

    open spec fn deep_view(&self) -> SourceFetchView {
        match self {
            SourceFetch::NoCache => SourceFetchView::NoCache,
            SourceFetch::Loaded(v) => SourceFetchView::Loaded(v.deep_view()),
            SourceFetch::Failed(e) => SourceFetchView::Failed(e.deep_view()),
        }
    }
}

/// One remote's name and what fetching it came to.
#[derive(Debug)]
pub struct RemoteOutcome {
    pub name: String,
    pub fetch: SourceFetch,
}

/// Mathematical model of a remote outcome.
pub struct RemoteOutcomeView {
    pub name: Seq<char>,
    pub fetch: SourceFetchView,
}

impl DeepView for RemoteOutcome {
    type V = RemoteOutcomeView;

    open spec fn deep_view(&self) -> RemoteOutcomeView {
        RemoteOutcomeView { name: self.name.deep_view(), fetch: self.fetch.deep_view() }
    }
}

/// The sessions the remote outcomes contribute, in order; absent caches and
/// failures contribute none.
pub open spec fn spec_loaded_sessions(parts: Seq<RemoteOutcomeView>) -> Seq<
    crate::session::SessionView,
>
    decreases parts.len(),
{
    if parts.len() == 0 {
        Seq::empty()
    } else {
        let rest = spec_loaded_sessions(parts.drop_last());
        match parts.last().fetch {
            SourceFetchView::Loaded(v) => rest + v,
            _ => rest,
        }
    }
}

/// The failures the remote outcomes contribute, in order: exactly the
/// failed fetches, each with its remote's name and reason. An absent cache
/// is not a failure.
pub open spec fn spec_fetch_failures(parts: Seq<RemoteOutcomeView>) -> Seq<
    crate::session::DiscoveryFailureView,
>
    decreases parts.len(),
{
    if parts.len() == 0 {
        Seq::empty()
    } else {
        let rest = spec_fetch_failures(parts.drop_last());
        match parts.last().fetch {
            SourceFetchView::Failed(e) => rest.push(
                crate::session::DiscoveryFailureView {
                    source_name: parts.last().name,
                    reason: e,
                },
            ),
            _ => rest,
        }
    }
}

/// Merge local output with each remote's outcome into one discovery
/// summary: the union of all loaded sessions re-sorted by modified
/// descending, and one failure entry per failed remote, in order. A remote
/// whose cache has never been created is silently skipped.
pub fn find_all_sessions_with_summary(
    local: Option<Vec<crate::session::Session>>,
    remotes: Vec<RemoteOutcome>,
) -> (r: crate::session::DiscoverySummary)
    ensures
        sorted_by_modified_desc(r.sessions.deep_view()),
        r.sessions.deep_view().to_multiset() == (
        match local {
            Some(v) => v.deep_view(),
            None => Seq::empty(),
        } + spec_loaded_sessions(remotes.deep_view())).to_multiset(),
        r.failures.deep_view() == spec_fetch_failures(remotes.deep_view()),
{
    let ghost rv = remotes.deep_view();
    let ghost local_seq: Seq<crate::session::SessionView> = match local {
        Some(ref v) => v.deep_view(),
        None => Seq::empty(),
    };
    let mut sessions: Vec<crate::session::Session> = match local {
        Some(v) => v,
        None => Vec::new(),
    };
    proof {
        assert(sessions.deep_view() =~~= local_seq);
    }
    let mut failures: Vec<crate::session::DiscoveryFailure> = Vec::new();
    let n = remotes.len();
    let mut remotes = remotes;
    proof {
        assert(sessions.deep_view() =~~= local_seq + spec_loaded_sessions(rv.take(0)));
        assert(failures.deep_view() =~~= spec_fetch_failures(rv.take(0)));
    }
    let mut i: usize = 0;
    while i < n
        invariant
            n == remotes@.len(),
            rv == remotes.deep_view(),
            rv.len() == n,
            i <= n,
            sessions.deep_view() == local_seq + spec_loaded_sessions(rv.take(i as int)),
            failures.deep_view() == spec_fetch_failures(rv.take(i as int)),
        decreases n - i,
    {
        proof {
            assert(rv[i as int] == remotes@[i as int].deep_view());
            assert(rv.take(i + 1).drop_last() =~= rv.take(i as int));
            assert(rv.take(i + 1).last() == rv[i as int]);
        }
        let ghost s_before = sessions.deep_view();
        let ghost f_before = failures.deep_view();
        let outcome = &remotes[i];
        match &outcome.fetch {
            SourceFetch::NoCache => {},
            SourceFetch::Loaded(found) => {
                let m = found.len();
                let mut j: usize = 0;
                proof {
                    assert(sessions.deep_view() =~~= s_before + found.deep_view().take(0));
                }
                while j < m
                    invariant
                        m == found@.len(),
                        j <= m,
                        sessions.deep_view() == s_before + found.deep_view().take(j as int),
                        rv == remotes.deep_view(),
                        rv[i as int].fetch == SourceFetchView::Loaded(found.deep_view()),
                    decreases m - j,
                {
                    let ghost mid = sessions.deep_view();
                    sessions.push(found[j].duplicate());
                    j = j + 1;
                    proof {
                        assert(sessions.deep_view() =~~= mid.push(
                            found@[j - 1].deep_view(),
                        ));
                        assert(found.deep_view().take(j as int) =~= found.deep_view().take(
                            j - 1,
                        ).push(found.deep_view()[j - 1]));
                        assert(sessions.deep_view() =~~= s_before + found.deep_view().take(
                            j as int,
                        ));
                    }
                }
                proof {
                    assert(found.deep_view().take(m as int) =~= found.deep_view());
                }
            },
            SourceFetch::Failed(e) => {
                failures.push(
                    crate::session::DiscoveryFailure {
                        source_name: outcome.name.clone(),
                        reason: e.clone(),
                    },
                );
                proof {
                    assert(failures.deep_view() =~~= f_before.push(
                        failures@.last().deep_view(),
                    ));
                }
            },
        }
        i = i + 1;
        proof {
            assert(sessions.deep_view() =~~= local_seq + spec_loaded_sessions(
                rv.take(i as int),
            ));
            assert(failures.deep_view() =~~= spec_fetch_failures(rv.take(i as int)));
        }
    }
    proof {
        assert(rv.take(n as int) =~= rv);
    }
    let sorted = sort_sessions_by_modified_desc(sessions);
    crate::session::DiscoverySummary { sessions: sorted, failures }
}

} // verus!
