//! The session data model and the path/identifier filter.

use vstd::prelude::*;
use crate::text::{
    contains_sub, is_prefix_of, is_suffix_of, spec_split, contains_chars, ends_with_chars,
    split_on_char, starts_with_chars, str_to_chars, subrange_chars, chars_to_string,
};

verus! {

/// Where a session originated from.
#[derive(Debug)]
pub enum SessionSource {
    /// Local session from the local projects directory.
    Local,
    /// Remote session synced into a local cache.
    Remote { name: String, host: String, user: Option<String> },
}

/// Mathematical model of a session source.
pub enum SessionSourceView {
    Local,
    Remote { name: Seq<char>, host: Seq<char>, user: Option<Seq<char>> },
}

impl DeepView for SessionSource {
    type V = SessionSourceView;

    open spec fn deep_view(&self) -> SessionSourceView {
        match self {
            SessionSource::Local => SessionSourceView::Local,
            SessionSource::Remote { name, host, user } => SessionSourceView::Remote {
                name: name.deep_view(),
                host: host.deep_view(),
                user: user.deep_view(),
            },
        }
    }
}

impl SessionSource {
    /// Display name for the source: `local`, or the remote's config key.
    pub fn display_name(&self) -> (r: &str)
        ensures
            r@ == spec_source_display_name(self.deep_view()),
    {
        match self {
            SessionSource::Local => "local",
            SessionSource::Remote { name, .. } => name.as_str(),
        }
    }

    pub fn is_local(&self) -> (r: bool)
        ensures
            r == (self.deep_view() is Local),
    {
        match self {
            SessionSource::Local => true,
            SessionSource::Remote { .. } => false,
        }
    }

    /// A fresh value equal to this one.
    pub fn duplicate(&self) -> (r: SessionSource)
        ensures
            r.deep_view() == self.deep_view(),
    {
        match self {
            SessionSource::Local => SessionSource::Local,
            SessionSource::Remote { name, host, user } => SessionSource::Remote {
                name: name.clone(),
                host: host.clone(),
                user: match user {
                    Some(u) => Some(u.clone()),
                    None => None,
                },
            },
        }
    }
}

/// The display name of a source.
pub open spec fn spec_source_display_name(s: SessionSourceView) -> Seq<char> {
    match s {
        SessionSourceView::Local => "local"@,
        SessionSourceView::Remote { name, .. } => name,
    }
}

/// One discovered conversation session, immutable once built.
#[derive(Debug)]
pub struct Session {
    pub id: String,
    pub project: String,
    pub project_path: String,
    pub filepath: String,
    /// Seconds since the epoch; falls back to `modified` when unavailable.
    pub created: u64,
    /// Seconds since the epoch.
    pub modified: u64,
    pub first_message: Option<String>,
    pub summary: Option<String>,
    /// Custom title from a rename; the latest rename wins.
    pub name: Option<String>,
    /// Number of genuine user turns over the whole file.
    pub turn_count: usize,
    pub source: SessionSource,
    /// Parent session id if this session is a fork; a reference by value.
    pub forked_from: Option<String>,
}

/// Mathematical model of a session.
pub struct SessionView {
    pub id: Seq<char>,
    pub project: Seq<char>,
    pub project_path: Seq<char>,
    pub filepath: Seq<char>,
    pub created: u64,
    pub modified: u64,
    pub first_message: Option<Seq<char>>,
    pub summary: Option<Seq<char>>,
    pub name: Option<Seq<char>>,
    pub turn_count: usize,
    pub source: SessionSourceView,
    pub forked_from: Option<Seq<char>>,
}

impl DeepView for Session {
    type V = SessionView;

    open spec fn deep_view(&self) -> SessionView {
        SessionView {
            id: self.id.deep_view(),
            project: self.project.deep_view(),
            project_path: self.project_path.deep_view(),
            filepath: self.filepath.deep_view(),
            created: self.created,
            modified: self.modified,
            first_message: self.first_message.deep_view(),
            summary: self.summary.deep_view(),
            name: self.name.deep_view(),
            turn_count: self.turn_count,
            source: self.source.deep_view(),
            forked_from: self.forked_from.deep_view(),
        }
    }
}

fn clone_opt_string(o: &Option<String>) -> (r: Option<String>)
    ensures
        r.deep_view() == o.deep_view(),
{
    match o {
        Some(s) => Some(s.clone()),
        None => None,
    }
}

impl Session {
    /// A fresh value equal to this one.
    pub fn duplicate(&self) -> (r: Session)
        ensures
            r.deep_view() == self.deep_view(),
    {
        Session {
            id: self.id.clone(),
            project: self.project.clone(),
            project_path: self.project_path.clone(),
            filepath: self.filepath.clone(),
            created: self.created,
            modified: self.modified,
            first_message: clone_opt_string(&self.first_message),
            summary: clone_opt_string(&self.summary),
            name: clone_opt_string(&self.name),
            turn_count: self.turn_count,
            source: self.source.duplicate(),
            forked_from: clone_opt_string(&self.forked_from),
        }
    }
}

/// Failure details for a single session discovery source.
#[derive(Debug)]
pub struct DiscoveryFailure {
    pub source_name: String,
    pub reason: String,
}

/// Mathematical model of a discovery failure.
pub struct DiscoveryFailureView {
    pub source_name: Seq<char>,
    pub reason: Seq<char>,
}

impl DeepView for DiscoveryFailure {
    type V = DiscoveryFailureView;

    open spec fn deep_view(&self) -> DiscoveryFailureView {
        DiscoveryFailureView {
            source_name: self.source_name.deep_view(),
            reason: self.reason.deep_view(),
        }
    }
}

/// Aggregated discovery outcome across local and remote sources.
#[derive(Debug)]
pub struct DiscoverySummary {
    pub sessions: Vec<Session>,
    pub failures: Vec<DiscoveryFailure>,
}

impl DiscoverySummary {
    pub fn failure_count(&self) -> (r: usize)
        ensures
            r == self.failures@.len(),
    {
        self.failures.len()
    }
}

// ---------------------------------------------------------------------------
// Path / identifier filter
// ---------------------------------------------------------------------------

/// An ASCII hexadecimal digit.
pub open spec fn is_hex_digit_char(c: char) -> bool {
    ('0' <= c && c <= '9') || ('a' <= c && c <= 'f') || ('A' <= c && c <= 'F')
}

/// A canonical session identifier: five dash-separated segments of lengths
/// 8, 4, 4, 4 and 12, every character an ASCII hex digit or a dash.
pub open spec fn spec_valid_session_uuid(s: Seq<char>) -> bool {
    let parts = spec_split(s, '-');
    &&& parts.len() == 5
    &&& parts[0].len() == 8
    &&& parts[1].len() == 4
    &&& parts[2].len() == 4
    &&& parts[3].len() == 4
    &&& parts[4].len() == 12
    &&& forall|i: int|
        0 <= i < s.len() ==> (is_hex_digit_char(#[trigger] s[i]) || s[i] == '-')
}

/// Check if a string is a canonical session identifier.
pub fn is_valid_session_uuid(s: &str) -> (r: bool)
    ensures
        r == spec_valid_session_uuid(s@),
{
    let chars = str_to_chars(s);
    let n = chars.len();
    let mut i: usize = 0;
    while i < n
        invariant
            n == chars@.len(),
            chars@ == s@,
            i <= n,
            forall|j: int|
                0 <= j < i ==> (is_hex_digit_char(#[trigger] s@[j]) || s@[j] == '-'),
        decreases n - i,
    {
        let c = chars[i];
        let hex = ('0' <= c && c <= '9') || ('a' <= c && c <= 'f') || ('A' <= c && c <= 'F');
        if !hex && c != '-' {
            return false;
        }
        i = i + 1;
    }
    let parts = split_on_char(chars.as_slice(), '-');
    proof {
        let pv = parts.deep_view();
        assert(pv.len() == parts@.len());
        assert(forall|j: int|
            0 <= j < parts@.len() ==> #[trigger] parts@[j].deep_view() == pv[j]);
    }
    if parts.len() != 5 {
        return false;
    }
    parts[0].len() == 8 && parts[1].len() == 4 && parts[2].len() == 4 && parts[3].len() == 4
        && parts[4].len() == 12
}

/// The last `/`-separated segment of a path.
pub open spec fn spec_last_segment(path: Seq<char>) -> Seq<char> {
    spec_split(path, '/').last()
}

/// The last `/`-separated segment of a path.
pub fn last_path_segment(path: &str) -> (r: String)
    ensures
        r@ == spec_last_segment(path@),
{
    let chars = str_to_chars(path);
    let parts = split_on_char(chars.as_slice(), '/');
    proof {
        crate::text::lemma_split_len(chars@, '/');
        assert(parts.deep_view().len() == parts@.len());
        assert(parts@[parts@.len() - 1].deep_view()
            == parts.deep_view()[parts@.len() - 1]);
    }
    let last = &parts[parts.len() - 1];
    chars_to_string(last.as_slice())
}

/// The identifier a session file's name carries: its last path segment
/// without the transcript extension.
pub open spec fn spec_session_stem(path: Seq<char>) -> Seq<char> {
    let f = spec_last_segment(path);
    if is_suffix_of(".jsonl"@, f) {
        f.take(f.len() - 6)
    } else {
        f
    }
}

/// The file-name stem that serves as a session's identifier.
pub fn session_file_stem(path: &str) -> (r: String)
    ensures
        r@ == spec_session_stem(path@),
{
    let name = last_path_segment(path);
    let chars = str_to_chars(name.as_str());
    let ext = str_to_chars(".jsonl");
    proof {
        reveal_strlit(".jsonl");
    }
    if ends_with_chars(chars.as_slice(), ext.as_slice()) {
        let stem = subrange_chars(chars.as_slice(), 0, chars.len() - 6);
        proof {
            assert(stem@ =~= name@.take(name@.len() - 6));
        }
        chars_to_string(stem.as_slice())
    } else {
        name
    }
}

/// A path qualifies as a session file: transcript extension, not under a
/// `subagents` directory, and a canonical-identifier file name.
pub open spec fn spec_valid_session_file(path: Seq<char>) -> bool {
    let f = spec_last_segment(path);
    &&& !contains_sub(path, "/subagents/"@)
    &&& is_suffix_of(".jsonl"@, f)
    &&& spec_valid_session_uuid(f.take(f.len() - 6))
}

/// Check if a path is a valid session file.
pub fn is_valid_session_file(path: &str) -> (r: bool)
    ensures
        r == spec_valid_session_file(path@),
{
    let chars = str_to_chars(path);
    let marker = str_to_chars("/subagents/");
    if contains_chars(chars.as_slice(), marker.as_slice()) {
        return false;
    }
    let name = last_path_segment(path);
    let name_chars = str_to_chars(name.as_str());
    let ext = str_to_chars(".jsonl");
    proof {
        reveal_strlit(".jsonl");
    }
    if !ends_with_chars(name_chars.as_slice(), ext.as_slice()) {
        return false;
    }
    let stem = subrange_chars(name_chars.as_slice(), 0, name_chars.len() - 6);
    proof {
        assert(stem@ =~= name@.take(name@.len() - 6));
    }
    is_valid_session_uuid(chars_to_string(stem.as_slice()).as_str())
}

// ---------------------------------------------------------------------------
// Project name derivation
// ---------------------------------------------------------------------------

/// The parent-directory name with a `-Users-<username>-` prefix removed.
pub open spec fn spec_strip_user_prefix(dir: Seq<char>) -> Seq<char> {
    if is_prefix_of("-Users-"@, dir) {
        let rest = dir.skip(7);
        match crate::text::spec_find_char(rest, '-') {
            Some(i) => rest.skip(i + 1),
            None => dir,
        }
    } else {
        dir
    }
}

/// The directory name with the first matching well-known path prefix
/// removed.
pub open spec fn spec_strip_known_prefix(s: Seq<char>) -> Seq<char> {
    if is_prefix_of("Documents-repos-"@, s) {
        s.skip(16)
    } else if is_prefix_of("Documents-"@, s) {
        s.skip(10)
    } else if is_prefix_of("repos-"@, s) {
        s.skip(6)
    } else if is_prefix_of("third-party-repos-"@, s) {
        s.skip(18)
    } else {
        s
    }
}

/// The display project name: the last segment of the project path when one
/// is recorded, else a best-effort cleanup of the storage directory name;
/// `unknown` when either route yields nothing.
pub open spec fn spec_extract_project_name(project_path: Seq<char>, fallback: Seq<char>) -> Seq<char> {
    if project_path.len() > 0 {
        let last = spec_last_segment(project_path);
        if last.len() > 0 {
            last
        } else {
            "unknown"@
        }
    } else {
        let stripped = spec_strip_known_prefix(spec_strip_user_prefix(fallback));
        if stripped.len() > 0 {
            stripped
        } else {
            "unknown"@
        }
    }
}

fn strip_prefix_if_present(chars: &Vec<char>, prefix: &str) -> (r: Option<Vec<char>>)
    ensures
        r is Some <==> is_prefix_of(prefix@, chars@),
        r matches Some(v) ==> v@ == chars@.skip(prefix@.len() as int),
{
    let p = str_to_chars(prefix);
    if starts_with_chars(chars.as_slice(), p.as_slice()) {
        let rest = subrange_chars(chars.as_slice(), p.len(), chars.len());
        proof {
            assert(rest@ =~= chars@.skip(prefix@.len() as int));
        }
        Some(rest)
    } else {
        None
    }
}

/// Extract project name from path or directory name fallback.
pub fn extract_project_name(project_path: &str, fallback_dir: &str) -> (r: String)
    ensures
        r@ == spec_extract_project_name(project_path@, fallback_dir@),
{
    if project_path.unicode_len() > 0 {
        let last = last_path_segment(project_path);
        if last.unicode_len() > 0 {
            last
        } else {
            String::from_str("unknown")
        }
    } else {
        let chars = str_to_chars(fallback_dir);
        let after_user: Vec<char> = match strip_prefix_if_present(&chars, "-Users-") {
            Some(rest) => {
                let dash = crate::text::find_char(rest.as_slice(), '-');
                if dash < rest.len() {
                    let out = subrange_chars(rest.as_slice(), dash + 1, rest.len());
                    proof {
                        assert(out@ =~= rest@.skip(dash + 1));
                    }
                    out
                } else {
                    chars
                }
            },
            None => chars,
        };
        let s0 = match strip_prefix_if_present(&after_user, "Documents-repos-") {
            Some(rest) => rest,
            None => match strip_prefix_if_present(&after_user, "Documents-") {
                Some(rest) => rest,
                None => match strip_prefix_if_present(&after_user, "repos-") {
                    Some(rest) => rest,
                    None => match strip_prefix_if_present(&after_user, "third-party-repos-") {
                        Some(rest) => rest,
                        None => after_user,
                    },
                },
            },
        };
        proof {
            reveal_strlit("-Users-");
            reveal_strlit("Documents-repos-");
            reveal_strlit("Documents-");
            reveal_strlit("repos-");
            reveal_strlit("third-party-repos-");
        }
        if s0.len() > 0 {
            chars_to_string(s0.as_slice())
        } else {
            String::from_str("unknown")
        }
    }
}

} // verus!

verus! {

/// The sessions whose display project name contains the filter, compared
/// case-insensitively.
pub open spec fn spec_filter_by_project(ss: Seq<SessionView>, filter: Seq<char>) -> Seq<
    SessionView,
> {
    ss.filter(
        |s: SessionView| contains_sub(crate::text::lower_of(s.project), crate::text::lower_of(filter)),
    )
}

/// Filter sessions by project name: case-insensitive substring match.
pub fn filter_by_project(sessions: &Vec<Session>, filter: &str) -> (r: Vec<Session>)
    ensures
        r.deep_view() == spec_filter_by_project(sessions.deep_view(), filter@),
{
    let ghost sv = sessions.deep_view();
    let filter_lower = crate::text::to_lowercase(filter);
    let filter_chars = str_to_chars(filter_lower.as_str());
    let n = sessions.len();
    let mut out: Vec<Session> = Vec::new();
    let mut i: usize = 0;
    proof {
        reveal(Seq::filter);
        assert(sv.take(0) =~= Seq::<SessionView>::empty());
        assert(out.deep_view() =~~= spec_filter_by_project(sv.take(0), filter@));
    }
    while i < n
        invariant
            n == sessions@.len(),
            sv == sessions.deep_view(),
            sv.len() == n,
            i <= n,
            filter_chars@ == crate::text::lower_of(filter@),
            out.deep_view() == spec_filter_by_project(sv.take(i as int), filter@),
        decreases n - i,
    {
        proof {
            reveal(Seq::filter);
            assert(sv[i as int] == sessions@[i as int].deep_view());
            assert(sv.take(i + 1).drop_last() =~= sv.take(i as int));
            assert(sv.take(i + 1).last() == sv[i as int]);
        }
        let ghost before = out.deep_view();
        let project_lower = crate::text::to_lowercase(sessions[i].project.as_str());
        let project_chars = str_to_chars(project_lower.as_str());
        if contains_chars(project_chars.as_slice(), filter_chars.as_slice()) {
            out.push(sessions[i].duplicate());
            proof {
                assert(out.deep_view() =~~= before.push(sv[i as int]));
            }
        }
        i = i + 1;
    }
    proof {
        assert(sv.take(n as int) =~= sv);
    }
    out
}

/// The sessions with at least the given number of turns.
pub open spec fn spec_filter_by_min_turns(ss: Seq<SessionView>, min: usize) -> Seq<SessionView> {
    ss.filter(|s: SessionView| s.turn_count >= min)
}

/// Filter out sessions with fewer conversation turns than asked for.
pub fn filter_by_min_turns(sessions: &Vec<Session>, min: usize) -> (r: Vec<Session>)
    ensures
        r.deep_view() == spec_filter_by_min_turns(sessions.deep_view(), min),
{
    let ghost sv = sessions.deep_view();
    let n = sessions.len();
    let mut out: Vec<Session> = Vec::new();
    let mut i: usize = 0;
    proof {
        reveal(Seq::filter);
        assert(sv.take(0) =~= Seq::<SessionView>::empty());
        assert(out.deep_view() =~~= spec_filter_by_min_turns(sv.take(0), min));
    }
    while i < n
        invariant
            n == sessions@.len(),
            sv == sessions.deep_view(),
            sv.len() == n,
            i <= n,
            out.deep_view() == spec_filter_by_min_turns(sv.take(i as int), min),
        decreases n - i,
    {
        proof {
            reveal(Seq::filter);
            assert(sv[i as int] == sessions@[i as int].deep_view());
            assert(sv.take(i + 1).drop_last() =~= sv.take(i as int));
            assert(sv.take(i + 1).last() == sv[i as int]);
        }
        let ghost before = out.deep_view();
        if sessions[i].turn_count >= min {
            out.push(sessions[i].duplicate());
            proof {
                assert(out.deep_view() =~~= before.push(sv[i as int]));
            }
        }
        i = i + 1;
    }
    proof {
        assert(sv.take(n as int) =~= sv);
    }
    out
}

} // verus!
