//! Transcript search: a compiled pattern run over candidate files with a
//! short-circuiting per-file scan, and materialization of the sessions
//! whose transcript matches.

use vstd::prelude::*;
use grep_matcher::Matcher;
use crate::catalog::{
    extract_session_metadata, sort_sessions_by_modified_desc, sorted_by_modified_desc,
    spec_build_session, SessionFileData, SessionFileDataView,
};
use crate::session::{Session, SessionSource, SessionSourceView, SessionView};

verus! {

#[verifier::external_type_specification]
#[verifier::external_body]
pub struct ExRegexMatcher(grep_regex::RegexMatcher);

/// Whether the pattern is valid search-pattern syntax; a function of the
/// pattern alone.
pub uninterp spec fn pattern_compiles(p: Seq<char>) -> bool;

/// The pattern a matcher was compiled from.
pub uninterp spec fn matcher_pattern(m: grep_regex::RegexMatcher) -> Seq<char>;

/// Whether the pattern matches somewhere in the line; a function of the
/// pattern and the line alone.
pub uninterp spec fn regex_line_match(p: Seq<char>, line: Seq<char>) -> bool;

/// Relies on `grep_regex::RegexMatcher::new_line_matcher`: compiles the
/// pattern once, failing exactly on invalid pattern syntax; the error is
/// rendered as its display text.
#[verifier::external_body]
fn compile_matcher(pattern: &str) -> (r: Result<grep_regex::RegexMatcher, String>)
    ensures
        r is Ok <==> pattern_compiles(pattern@),
        r matches Ok(m) ==> matcher_pattern(m) == pattern@,
{
    grep_regex::RegexMatcher::new_line_matcher(pattern).map_err(|e| e.to_string())
}

/// Relies on `grep_matcher::Matcher::is_match` for
/// `grep_regex::RegexMatcher`: whether the pattern matches in the given
/// line. This matcher's error type has no values, so the call cannot fail.
#[verifier::external_body]
fn matcher_is_match(m: &grep_regex::RegexMatcher, line: &str) -> (r: bool)
    ensures
        r == regex_line_match(matcher_pattern(*m), line@),
{
    m.is_match(line.as_bytes()).unwrap_or(false)
}

/// Whether any line of the transcript matches the pattern.
pub open spec fn spec_any_line_matches(p: Seq<char>, lines: Seq<Seq<char>>) -> bool {
    exists|i: int| 0 <= i < lines.len() && regex_line_match(p, lines[i])
}

/// Short-circuiting per-file scan: stops at the first matching line.
fn transcript_matches(m: &grep_regex::RegexMatcher, lines: &Vec<String>) -> (r: bool)
    ensures
        r == spec_any_line_matches(matcher_pattern(*m), lines.deep_view()),
{
    let ghost lv = lines.deep_view();
    let n = lines.len();
    let mut i: usize = 0;
    while i < n
        invariant
            n == lines@.len(),
            lv == lines.deep_view(),
            lv.len() == n,
            i <= n,
            forall|k: int| 0 <= k < i ==> !regex_line_match(matcher_pattern(*m), lv[k]),
        decreases n - i,
    {
        proof {
            assert(lv[i as int] == lines@[i as int]@);
        }
        if matcher_is_match(m, lines[i].as_str()) {
            return true;
        }
        i = i + 1;
    }
    false
}

/// The sessions that a transcript search over candidate files yields:
/// valid session files with at least one matching line, built, empty
/// sessions dropped, in input order.
pub open spec fn spec_matching_sessions(
    p: Seq<char>,
    files: Seq<SessionFileDataView>,
    src: SessionSourceView,
) -> Seq<SessionView>
    decreases files.len(),
{
    if files.len() == 0 {
        Seq::empty()
    } else {
        let rest = spec_matching_sessions(p, files.drop_last(), src);
        let f = files.last();
        if crate::session::spec_valid_session_file(f.filepath) && spec_any_line_matches(
            p,
            f.lines,
        ) {
            match spec_build_session(f, src) {
                Some(s) => rest.push(s),
                None => rest,
            }
        } else {
            rest
        }
    }
}

/// Search the transcripts of candidate files for a pattern: compile the
/// pattern once, keep the files with at least one matching line, build
/// exactly those sessions and sort them by modified descending. Invalid
/// pattern syntax is a hard error carrying the syntax error's text; it
/// occurs exactly when the pattern does not compile.
pub fn search_sessions(pattern: &str, files: &Vec<SessionFileData>, source: &SessionSource) -> (r:
    Result<Vec<Session>, String>)
    ensures
        r is Ok <==> pattern_compiles(pattern@),
        r matches Ok(v) ==> sorted_by_modified_desc(v.deep_view())
            && v.deep_view().to_multiset() == spec_matching_sessions(
            pattern@,
            files.deep_view(),
            source.deep_view(),
        ).to_multiset(),
{
    let matcher = match compile_matcher(pattern) {
        Ok(m) => m,
        Err(e) => {
            return Err(e);
        },
    };
    let ghost fv = files.deep_view();
    let n = files.len();
    let mut built: Vec<Session> = Vec::new();
    let mut i: usize = 0;
    proof {
        assert(built.deep_view() =~~= spec_matching_sessions(
            pattern@,
            fv.take(0),
            source.deep_view(),
        ));
    }
    while i < n
        invariant
            n == files@.len(),
            fv == files.deep_view(),
            fv.len() == n,
            i <= n,
            matcher_pattern(matcher) == pattern@,
            built.deep_view() == spec_matching_sessions(
                pattern@,
                fv.take(i as int),
                source.deep_view(),
            ),
        decreases n - i,
    {
        let file = &files[i];
        proof {
            assert(fv[i as int] == files@[i as int].deep_view());
            assert(fv.take(i + 1).drop_last() =~= fv.take(i as int));
            assert(fv.take(i + 1).last() == fv[i as int]);
        }
        let ghost before = built.deep_view();
        if crate::session::is_valid_session_file(file.filepath.as_str()) && transcript_matches(
            &matcher,
            &file.lines,
        ) {
            match extract_session_metadata(file, source.duplicate()) {
                Some(s) => {
                    built.push(s);
                    proof {
                        assert(built.deep_view() =~~= before.push(
                            built@.last().deep_view(),
                        ));
                    }
                },
                None => {},
            }
        }
        i = i + 1;
    }
    proof {
        assert(fv.take(n as int) =~= fv);
    }
    Ok(sort_sessions_by_modified_desc(built))
}

} // verus!
