//! Character-level text utilities shared by the session catalog.
//!
//! All text manipulation in this crate works over `Vec<char>` / `Seq<char>`,
//! so that every transformation can be stated and proved against a direct
//! mathematical description.

use vstd::prelude::*;

verus! {

/// The Unicode `White_Space` characters, as used by `char::is_whitespace`.
pub open spec fn is_space_char(c: char) -> bool {
    c == ' ' || c == '\t' || c == '\n' || c == '\r' || c == '\u{b}' || c == '\u{c}'
        || c == '\u{85}' || c == '\u{a0}' || c == '\u{1680}'
        || ('\u{2000}' <= c && c <= '\u{200a}')
        || c == '\u{2028}' || c == '\u{2029}' || c == '\u{202f}' || c == '\u{205f}'
        || c == '\u{3000}'
}

pub fn is_space(c: char) -> (r: bool)
    ensures
        r == is_space_char(c),
{
    c == ' ' || c == '\t' || c == '\n' || c == '\r' || c == '\u{b}' || c == '\u{c}'
        || c == '\u{85}' || c == '\u{a0}' || c == '\u{1680}'
        || ('\u{2000}' <= c && c <= '\u{200a}')
        || c == '\u{2028}' || c == '\u{2029}' || c == '\u{202f}' || c == '\u{205f}'
        || c == '\u{3000}'
}

/// Decimal digit in `'0' ..= '9'`.
pub open spec fn is_digit_char(c: char) -> bool {
    '0' <= c && c <= '9'
}

pub fn is_digit(c: char) -> (r: bool)
    ensures
        r == is_digit_char(c),
{
    '0' <= c && c <= '9'
}

/// The characters of a string slice, in order.
pub fn str_to_chars(s: &str) -> (r: Vec<char>)
    ensures
        r@ == s@,
{
    let n = s.unicode_len();
    let mut r: Vec<char> = Vec::new();
    let mut i: usize = 0;
    while i < n
        invariant
            n == s@.len(),
            i <= n,
            r@ == s@.take(i as int),
        decreases n - i,
    {
        r.push(s.get_char(i));
        i = i + 1;
        proof {
            assert(s@.take(i as int) == s@.take(i - 1).push(s@[i - 1]));
        }
    }
    proof {
        assert(s@.take(n as int) == s@);
    }
    r
}

/// Relies on `String::push`: appends one character to the end of the string.
#[verifier::external_body]
pub fn push_char(s: &mut String, c: char)
    ensures
        final(s)@ == old(s)@.push(c),
{
    s.push(c);
}

/// A `String` holding exactly the given characters.
pub fn chars_to_string(v: &[char]) -> (r: String)
    ensures
        r@ == v@,
{
    let mut r = String::new();
    let n = v.len();
    let mut i: usize = 0;
    while i < n
        invariant
            n == v@.len(),
            i <= n,
            r@ == v@.take(i as int),
        decreases n - i,
    {
        push_char(&mut r, v[i]);
        i = i + 1;
        proof {
            assert(v@.take(i as int) == v@.take(i - 1).push(v@[i - 1]));
        }
    }
    proof {
        assert(v@.take(n as int) == v@);
    }
    r
}

/// Character-for-character equality of two string slices.
pub fn str_eq(a: &str, b: &str) -> (r: bool)
    ensures
        r == (a@ == b@),
{
    let na = a.unicode_len();
    let nb = b.unicode_len();
    if na != nb {
        proof {
            assert(a@ != b@);
        }
        return false;
    }
    let mut i: usize = 0;
    while i < na
        invariant
            na == a@.len(),
            na == b@.len(),
            i <= na,
            forall|j: int| 0 <= j < i ==> a@[j] == b@[j],
        decreases na - i,
    {
        if a.get_char(i) != b.get_char(i) {
            proof {
                assert(a@ != b@);
            }
            return false;
        }
        i = i + 1;
    }
    proof {
        assert(a@ =~= b@);
    }
    true
}

/// `needle` occurs in `hay` starting at position `i`.
pub open spec fn matches_at(hay: Seq<char>, needle: Seq<char>, i: int) -> bool {
    0 <= i && i + needle.len() <= hay.len() && hay.subrange(i, i + needle.len()) == needle
}

/// `needle` occurs somewhere in `hay`.
pub open spec fn contains_sub(hay: Seq<char>, needle: Seq<char>) -> bool {
    exists|i: int| matches_at(hay, needle, i)
}

/// `needle` is a prefix of `hay`.
pub open spec fn is_prefix_of(needle: Seq<char>, hay: Seq<char>) -> bool {
    needle.len() <= hay.len() && hay.subrange(0, needle.len() as int) == needle
}

/// Whether `hay` starts with `needle`, checked from position `from`.
fn matches_here(hay: &[char], needle: &[char], from: usize) -> (r: bool)
    requires
        from + needle@.len() <= hay@.len(),
    ensures
        r == matches_at(hay@, needle@, from as int),
{
    let n = needle.len();
    let hn = hay.len();
    let mut j: usize = 0;
    while j < n
        invariant
            n == needle@.len(),
            hn == hay@.len(),
            from + n <= hay@.len(),
            j <= n,
            forall|k: int| 0 <= k < j ==> hay@[from + k] == needle@[k],
        decreases n - j,
    {
        if hay[from + j] != needle[j] {
            proof {
                assert(hay@.subrange(from as int, from + needle@.len())[j as int] == hay@[from + j]);
            }
            return false;
        }
        j = j + 1;
    }
    proof {
        assert(hay@.subrange(from as int, from + needle@.len()) =~= needle@);
    }
    true
}

/// Substring search.
pub fn contains_chars(hay: &[char], needle: &[char]) -> (r: bool)
    ensures
        r == contains_sub(hay@, needle@),
{
    let nh = hay.len();
    let nn = needle.len();
    if nn > nh {
        proof {
            assert(forall|i: int| !matches_at(hay@, needle@, i));
        }
        return false;
    }
    let limit = nh - nn;
    let mut i: usize = 0;
    loop
        invariant
            nn <= nh,
            nh == hay@.len(),
            nn == needle@.len(),
            limit == nh - nn,
            i <= limit,
            forall|k: int| 0 <= k < i ==> !matches_at(hay@, needle@, k),
        decreases limit - i,
    {
        if matches_here(hay, needle, i) {
            return true;
        }
        if i == limit {
            proof {
                assert(forall|k: int| matches_at(hay@, needle@, k) ==> 0 <= k <= nh - nn);
            }
            return false;
        }
        i = i + 1;
    }
}

/// Whether `hay` starts with `needle`.
pub fn starts_with_chars(hay: &[char], needle: &[char]) -> (r: bool)
    ensures
        r == is_prefix_of(needle@, hay@),
{
    if needle.len() > hay.len() {
        return false;
    }
    matches_here(hay, needle, 0)
}

} // verus!

verus! {

// ---------------------------------------------------------------------------
// Splitting and joining
// ---------------------------------------------------------------------------

/// One step of left-to-right splitting: a separator starts a new piece, any
/// other character extends the last piece.
pub open spec fn split_step(acc: Seq<Seq<char>>, c: char, sep: char) -> Seq<Seq<char>>
    recommends
        acc.len() > 0,
{
    if c == sep {
        acc.push(Seq::empty())
    } else {
        acc.update(acc.len() - 1, acc.last().push(c))
    }
}

/// The pieces of `s` between occurrences of `sep`, empty pieces kept.
pub open spec fn spec_split(s: Seq<char>, sep: char) -> Seq<Seq<char>>
    decreases s.len(),
{
    if s.len() == 0 {
        seq![Seq::empty()]
    } else {
        split_step(spec_split(s.drop_last(), sep), s.last(), sep)
    }
}

pub proof fn lemma_split_len(s: Seq<char>, sep: char)
    ensures
        spec_split(s, sep).len() >= 1,
    decreases s.len(),
{
    if s.len() > 0 {
        lemma_split_len(s.drop_last(), sep);
    }
}

pub fn split_on_char(v: &[char], sep: char) -> (r: Vec<Vec<char>>)
    ensures
        r.deep_view() == spec_split(v@, sep),
{
    let n = v.len();
    let mut r: Vec<Vec<char>> = Vec::new();
    r.push(Vec::new());
    proof {
        assert(r.deep_view() =~~= spec_split(v@.take(0), sep));
    }
    let mut i: usize = 0;
    while i < n
        invariant
            n == v@.len(),
            i <= n,
            r@.len() >= 1,
            r.deep_view() == spec_split(v@.take(i as int), sep),
        decreases n - i,
    {
        let ghost prev = r.deep_view();
        let c = v[i];
        if c == sep {
            r.push(Vec::new());
            proof {
                assert(r.deep_view() =~~= prev.push(Seq::empty()));
            }
        } else {
            let mut last = r.pop().unwrap();
            last.push(c);
            r.push(last);
            proof {
                assert(r.deep_view() =~~= prev.update(prev.len() - 1, prev.last().push(c)));
            }
        }
        i = i + 1;
        proof {
            assert(v@.take(i as int).drop_last() =~= v@.take(i - 1));
            assert(v@.take(i as int).last() == v@[i - 1]);
        }
    }
    proof {
        assert(v@.take(n as int) =~= v@);
    }
    r
}

/// The pieces joined with `sep` between them.
pub open spec fn spec_join(parts: Seq<Seq<char>>, sep: Seq<char>) -> Seq<char>
    decreases parts.len(),
{
    if parts.len() == 0 {
        Seq::empty()
    } else if parts.len() == 1 {
        parts[0]
    } else {
        spec_join(parts.drop_last(), sep) + sep + parts.last()
    }
}

pub fn join_strings(parts: &Vec<String>, sep: &str) -> (r: String)
    ensures
        r@ == spec_join(parts.deep_view(), sep@),
{
    let n = parts.len();
    let mut r = String::new();
    let mut i: usize = 0;
    while i < n
        invariant
            n == parts@.len(),
            i <= n,
            r@ == spec_join(parts.deep_view().take(i as int), sep@),
        decreases n - i,
    {
        if i > 0 {
            r.append(sep);
        }
        r.append(parts[i].as_str());
        i = i + 1;
        proof {
            let dv = parts.deep_view();
            assert(dv.take(i as int).drop_last() =~= dv.take(i - 1));
            assert(dv.take(i as int).last() == parts[i - 1]@);
            assert(dv.take(i as int)[0] == parts[0]@);
        }
    }
    proof {
        assert(parts.deep_view().take(n as int) =~= parts.deep_view());
    }
    r
}

// ---------------------------------------------------------------------------
// Trimming
// ---------------------------------------------------------------------------

/// `s` without its leading whitespace.
pub open spec fn spec_trim_start(s: Seq<char>) -> Seq<char>
    decreases s.len(),
{
    if s.len() > 0 && is_space_char(s[0]) {
        spec_trim_start(s.skip(1))
    } else {
        s
    }
}

/// `s` without its trailing whitespace.
pub open spec fn spec_trim_end(s: Seq<char>) -> Seq<char>
    decreases s.len(),
{
    if s.len() > 0 && is_space_char(s.last()) {
        spec_trim_end(s.drop_last())
    } else {
        s
    }
}

/// `s` without leading and trailing whitespace.
pub open spec fn spec_trim(s: Seq<char>) -> Seq<char> {
    spec_trim_end(spec_trim_start(s))
}

pub fn trim_chars(v: &[char]) -> (r: Vec<char>)
    ensures
        r@ == spec_trim(v@),
{
    let n = v.len();
    let mut a: usize = 0;
    proof {
        assert(v@.skip(0) =~= v@);
    }
    while a < n && is_space(v[a])
        invariant
            n == v@.len(),
            a <= n,
            spec_trim_start(v@) == spec_trim_start(v@.skip(a as int)),
        decreases n - a,
    {
        proof {
            assert(v@.skip(a as int).skip(1) =~= v@.skip(a + 1));
        }
        a = a + 1;
    }
    proof {
        assert(spec_trim_start(v@) == v@.skip(a as int));
    }
    let ghost t = v@.skip(a as int);
    let mut b: usize = n;
    proof {
        assert(t.take(n - a) =~= t);
    }
    while b > a && is_space(v[b - 1])
        invariant
            n == v@.len(),
            a <= b <= n,
            t == v@.skip(a as int),
            spec_trim_end(t) == spec_trim_end(t.take(b - a)),
        decreases b,
    {
        proof {
            assert(t.take(b - a).last() == v@[b - 1]);
            assert(t.take(b - a).drop_last() =~= t.take(b - 1 - a));
        }
        b = b - 1;
    }
    proof {
        if b > a {
            assert(t.take(b - a).last() == v@[b - 1]);
        }
        assert(spec_trim_end(t) == t.take(b - a));
    }
    let mut r: Vec<char> = Vec::new();
    let mut i: usize = a;
    while i < b
        invariant
            a <= i <= b <= n,
            n == v@.len(),
            r@ == v@.subrange(a as int, i as int),
        decreases b - i,
    {
        r.push(v[i]);
        i = i + 1;
        proof {
            assert(v@.subrange(a as int, i as int) =~= v@.subrange(a as int, i - 1).push(v@[i - 1]));
        }
    }
    proof {
        assert(r@ =~= t.take(b - a));
    }
    r
}

// ---------------------------------------------------------------------------
// Case folding
// ---------------------------------------------------------------------------

/// What `str::to_lowercase` returns; a function of the characters alone.
pub uninterp spec fn lower_of(s: Seq<char>) -> Seq<char>;

/// Relies on `str::to_lowercase`: Unicode lowercasing, determined by the
/// input characters alone; an empty string stays empty.
#[verifier::external_body]
pub fn to_lowercase(s: &str) -> (r: String)
    ensures
        r@ == lower_of(s@),
        s@.len() == 0 ==> r@.len() == 0,
{
    s.to_lowercase()
}

} // verus!

verus! {

// ---------------------------------------------------------------------------
// Decimal numbers
// ---------------------------------------------------------------------------

/// The character for one decimal digit.
pub open spec fn digit_char(d: int) -> char {
    if d == 0 {
        '0'
    } else if d == 1 {
        '1'
    } else if d == 2 {
        '2'
    } else if d == 3 {
        '3'
    } else if d == 4 {
        '4'
    } else if d == 5 {
        '5'
    } else if d == 6 {
        '6'
    } else if d == 7 {
        '7'
    } else if d == 8 {
        '8'
    } else {
        '9'
    }
}

/// The decimal rendering of a number, most significant digit first.
pub open spec fn spec_u64_string(n: nat) -> Seq<char>
    decreases n,
{
    if n < 10 {
        seq![digit_char(n as int)]
    } else {
        spec_u64_string(n / 10).push(digit_char((n % 10) as int))
    }
}

fn digit_to_char(d: u64) -> (c: char)
    requires
        d < 10,
    ensures
        c == digit_char(d as int),
{
    if d == 0 {
        '0'
    } else if d == 1 {
        '1'
    } else if d == 2 {
        '2'
    } else if d == 3 {
        '3'
    } else if d == 4 {
        '4'
    } else if d == 5 {
        '5'
    } else if d == 6 {
        '6'
    } else if d == 7 {
        '7'
    } else if d == 8 {
        '8'
    } else {
        '9'
    }
}

/// The decimal rendering of `n`.
pub fn u64_to_string(n: u64) -> (r: String)
    ensures
        r@ == spec_u64_string(n as nat),
    decreases n,
{
    if n < 10 {
        let mut r = String::new();
        push_char(&mut r, digit_to_char(n));
        r
    } else {
        let mut r = u64_to_string(n / 10);
        push_char(&mut r, digit_to_char(n % 10));
        r
    }
}

/// The numeric value of one digit character.
pub open spec fn digit_val(c: char) -> int {
    c as int - '0' as int
}

/// Every character is a decimal digit.
pub open spec fn all_digits(s: Seq<char>) -> bool {
    forall|i: int| 0 <= i < s.len() ==> is_digit_char(#[trigger] s[i])
}

/// The value of a digit string read in base ten.
pub open spec fn dec_value(s: Seq<char>) -> int
    decreases s.len(),
{
    if s.len() == 0 {
        0
    } else {
        dec_value(s.drop_last()) * 10 + digit_val(s.last())
    }
}

/// A non-empty all-digit string whose value fits in a `u64`.
pub open spec fn parses_as_u64(s: Seq<char>) -> bool {
    s.len() > 0 && all_digits(s) && dec_value(s) <= u64::MAX
}

proof fn lemma_dec_value_nonneg(s: Seq<char>)
    requires
        all_digits(s),
    ensures
        dec_value(s) >= 0,
    decreases s.len(),
{
    if s.len() > 0 {
        assert(is_digit_char(s[s.len() - 1]));
        assert(all_digits(s.drop_last())) by {
            assert(forall|i: int|
                0 <= i < s.len() - 1 ==> #[trigger] s.drop_last()[i] == s[i]);
        }
        lemma_dec_value_nonneg(s.drop_last());
    }
}

proof fn lemma_dec_value_prefix(s: Seq<char>, i: int)
    requires
        all_digits(s),
        0 <= i <= s.len(),
    ensures
        dec_value(s) >= dec_value(s.take(i)),
    decreases s.len() - i,
{
    if i < s.len() {
        lemma_dec_value_prefix(s, i + 1);
        assert(s.take(i + 1).drop_last() =~= s.take(i));
        assert(is_digit_char(s[i]));
        assert(all_digits(s.take(i))) by {
            assert(forall|j: int| 0 <= j < i ==> #[trigger] s.take(i)[j] == s[j]);
        }
        lemma_dec_value_nonneg(s.take(i));
        assert(dec_value(s.take(i + 1)) == dec_value(s.take(i)) * 10 + digit_val(s[i]));
        assert(dec_value(s.take(i)) * 10 >= dec_value(s.take(i))) by (nonlinear_arith)
            requires dec_value(s.take(i)) >= 0;
        assert(digit_val(s[i]) >= 0);
    } else {
        assert(s.take(i) =~= s);
    }
}

/// Parse an all-digit string as a base-ten `u64`.
pub fn parse_u64_digits(v: &[char]) -> (r: Option<u64>)
    ensures
        r is Some <==> parses_as_u64(v@),
        r matches Some(x) ==> x == dec_value(v@),
{
    let n = v.len();
    if n == 0 {
        return None;
    }
    let mut acc: u64 = 0;
    let mut i: usize = 0;
    while i < n
        invariant
            n == v@.len(),
            i <= n,
            all_digits(v@.take(i as int)),
            acc == dec_value(v@.take(i as int)),
        decreases n - i,
    {
        let c = v[i];
        if !is_digit(c) {
            proof {
                assert(!all_digits(v@));
            }
            return None;
        }
        let d: u64 = (c as u32 as u64) - 48;
        proof {
            assert(d == digit_val(c));
            assert(d < 10);
        }
        let m = acc.checked_mul(10);
        proof {
            assert(v@.take(i + 1).drop_last() =~= v@.take(i as int));
            assert(v@.take(i + 1).last() == v@[i as int]);
            assert(all_digits(v@.take(i + 1))) by {
                assert(forall|j: int|
                    0 <= j < i + 1 ==> #[trigger] v@.take(i + 1)[j] == v@[j]);
            }
        }
        if m.is_none() {
            proof {
                assert(dec_value(v@.take(i + 1)) > u64::MAX) by {
                    assert(dec_value(v@.take(i as int)) * 10 > u64::MAX);
                    assert(digit_val(v@[i as int]) >= 0);
                }
                if all_digits(v@) {
                    lemma_dec_value_prefix(v@, i + 1);
                }
            }
            return None;
        }
        let m = m.unwrap();
        let s = m.checked_add(d);
        if s.is_none() {
            proof {
                assert(dec_value(v@.take(i + 1)) > u64::MAX);
                if all_digits(v@) {
                    lemma_dec_value_prefix(v@, i + 1);
                }
            }
            return None;
        }
        acc = s.unwrap();
        i = i + 1;
    }
    proof {
        assert(v@.take(n as int) =~= v@);
    }
    Some(acc)
}

// ---------------------------------------------------------------------------
// Padding and truncation
// ---------------------------------------------------------------------------

/// `n` space characters.
pub open spec fn spaces(n: nat) -> Seq<char> {
    Seq::new(n, |i: int| ' ')
}

/// `s` padded with trailing spaces to width `w`, or unchanged if already wider.
pub open spec fn spec_pad_right(s: Seq<char>, w: nat) -> Seq<char> {
    if s.len() >= w {
        s
    } else {
        s + spaces((w - s.len()) as nat)
    }
}

/// `s` padded with leading spaces to width `w`, or unchanged if already wider.
pub open spec fn spec_pad_left(s: Seq<char>, w: nat) -> Seq<char> {
    if s.len() >= w {
        s
    } else {
        spaces((w - s.len()) as nat) + s
    }
}

pub fn pad_right(s: &str, w: usize) -> (r: String)
    ensures
        r@ == spec_pad_right(s@, w as nat),
{
    let mut r = String::from_str(s);
    let mut len = s.unicode_len();
    if len >= w {
        return r;
    }
    let ghost orig = s@;
    while len < w
        invariant
            len <= w,
            len == r@.len(),
            r@ == orig + spaces((len - orig.len()) as nat),
            orig.len() <= len,
        decreases w - len,
    {
        push_char(&mut r, ' ');
        len = len + 1;
        proof {
            assert(r@ =~= orig + spaces((len - orig.len()) as nat));
        }
    }
    r
}

pub fn pad_left(s: &str, w: usize) -> (r: String)
    ensures
        r@ == spec_pad_left(s@, w as nat),
{
    let len = s.unicode_len();
    if len >= w {
        return String::from_str(s);
    }
    let mut r = String::new();
    let mut i: usize = 0;
    while i < w - len
        invariant
            len < w,
            i <= w - len,
            r@ == spaces(i as nat),
        decreases w - len - i,
    {
        push_char(&mut r, ' ');
        i = i + 1;
        proof {
            assert(r@ =~= spaces(i as nat));
        }
    }
    r.append(s);
    proof {
        assert(r@ =~= spec_pad_left(s@, w as nat));
    }
    r
}

/// The first `max` characters of `s` (all of `s` if shorter).
pub open spec fn spec_take_chars(s: Seq<char>, max: nat) -> Seq<char> {
    if s.len() <= max {
        s
    } else {
        s.take(max as int)
    }
}

pub fn take_chars(s: &str, max: usize) -> (r: String)
    ensures
        r@ == spec_take_chars(s@, max as nat),
{
    let len = s.unicode_len();
    if len <= max {
        String::from_str(s)
    } else {
        let sub = s.substring_char(0, max);
        proof {
            assert(s@.subrange(0, max as int) == s@.take(max as int));
        }
        String::from_str(sub)
    }
}

} // verus!

verus! {

// ---------------------------------------------------------------------------
// Suffixes, ranges and character search
// ---------------------------------------------------------------------------

/// `needle` is a suffix of `hay`.
pub open spec fn is_suffix_of(needle: Seq<char>, hay: Seq<char>) -> bool {
    needle.len() <= hay.len()
        && hay.subrange(hay.len() - needle.len(), hay.len() as int) == needle
}

/// Whether `hay` ends with `needle`.
pub fn ends_with_chars(hay: &[char], needle: &[char]) -> (r: bool)
    ensures
        r == is_suffix_of(needle@, hay@),
{
    let nh = hay.len();
    let nn = needle.len();
    if nn > nh {
        return false;
    }
    matches_here(hay, needle, nh - nn)
}

/// A copy of `v[a .. b]`.
pub fn subrange_chars(v: &[char], a: usize, b: usize) -> (r: Vec<char>)
    requires
        a <= b <= v@.len(),
    ensures
        r@ == v@.subrange(a as int, b as int),
{
    let mut r: Vec<char> = Vec::new();
    let mut i: usize = a;
    while i < b
        invariant
            a <= i <= b <= v@.len(),
            r@ == v@.subrange(a as int, i as int),
        decreases b - i,
    {
        r.push(v[i]);
        i = i + 1;
        proof {
            assert(v@.subrange(a as int, i as int)
                =~= v@.subrange(a as int, i - 1).push(v@[i - 1]));
        }
    }
    r
}

/// The position of the first occurrence of `c` in `s`.
pub open spec fn spec_find_char(s: Seq<char>, c: char) -> Option<int>
    decreases s.len(),
{
    if s.len() == 0 {
        None
    } else if s[0] == c {
        Some(0)
    } else {
        match spec_find_char(s.skip(1), c) {
            Some(i) => Some(i + 1),
            None => None,
        }
    }
}

proof fn lemma_find_char_at(s: Seq<char>, c: char, i: int)
    requires
        0 <= i <= s.len(),
        forall|j: int| 0 <= j < i ==> s[j] != c,
        i < s.len() ==> s[i] == c,
    ensures
        i < s.len() ==> spec_find_char(s, c) == Some(i),
        i == s.len() ==> spec_find_char(s, c) is None,
    decreases s.len(),
{
    if s.len() > 0 && s[0] != c {
        assert(forall|j: int| 0 <= j < i - 1 ==> s.skip(1)[j] == s[j + 1]);
        lemma_find_char_at(s.skip(1), c, i - 1);
        assert(i - 1 < s.skip(1).len() ==> s.skip(1)[i - 1] == s[i]);
    }
}

/// The position of the first occurrence of `c`, or `v.len()` if absent.
pub fn find_char(v: &[char], c: char) -> (r: usize)
    ensures
        r < v@.len() ==> spec_find_char(v@, c) == Some(r as int),
        r == v@.len() ==> spec_find_char(v@, c) is None,
        r <= v@.len(),
{
    let n = v.len();
    let mut i: usize = 0;
    while i < n
        invariant
            n == v@.len(),
            i <= n,
            forall|j: int| 0 <= j < i ==> v@[j] != c,
        decreases n - i,
    {
        if v[i] == c {
            proof {
                lemma_find_char_at(v@, c, i as int);
            }
            return i;
        }
        i = i + 1;
    }
    proof {
        lemma_find_char_at(v@, c, n as int);
    }
    n
}

/// The position of the last occurrence of `c` in `s`.
pub open spec fn spec_rfind_char(s: Seq<char>, c: char) -> Option<int>
    decreases s.len(),
{
    if s.len() == 0 {
        None
    } else if s.last() == c {
        Some(s.len() - 1)
    } else {
        spec_rfind_char(s.drop_last(), c)
    }
}

proof fn lemma_rfind_char_at(s: Seq<char>, c: char, i: int)
    requires
        -1 <= i < s.len(),
        forall|j: int| i < j < s.len() ==> s[j] != c,
        0 <= i ==> s[i] == c,
    ensures
        0 <= i ==> spec_rfind_char(s, c) == Some(i),
        i == -1 ==> spec_rfind_char(s, c) is None,
    decreases s.len(),
{
    if s.len() > 0 && s.last() != c {
        assert(forall|j: int| i < j < s.len() - 1 ==> s.drop_last()[j] == s[j]);
        lemma_rfind_char_at(s.drop_last(), c, i);
    }
}

/// The position after the last occurrence of `c`, or `0` if absent.
pub fn rfind_char(v: &[char], c: char) -> (r: usize)
    ensures
        r > 0 ==> spec_rfind_char(v@, c) == Some(r - 1),
        r == 0 ==> spec_rfind_char(v@, c) is None,
        r <= v@.len(),
{
    let n = v.len();
    let mut i: usize = n;
    while i > 0
        invariant
            n == v@.len(),
            i <= n,
            forall|j: int| i <= j < n ==> v@[j] != c,
        decreases i,
    {
        if v[i - 1] == c {
            proof {
                lemma_rfind_char_at(v@, c, i - 1);
            }
            return i;
        }
        i = i - 1;
    }
    proof {
        lemma_rfind_char_at(v@, c, -1);
    }
    0
}

// ---------------------------------------------------------------------------
// Words: maximal runs of non-whitespace
// ---------------------------------------------------------------------------

/// Length of the leading run of non-whitespace characters.
pub open spec fn first_word_len(s: Seq<char>) -> nat
    decreases s.len(),
{
    if s.len() == 0 || is_space_char(s[0]) {
        0
    } else {
        1 + first_word_len(s.skip(1))
    }
}

/// The whitespace-separated words of `s`, in order, without empties.
pub open spec fn spec_words(s: Seq<char>) -> Seq<Seq<char>>
    decreases s.len(),
{
    if s.len() == 0 {
        Seq::empty()
    } else if is_space_char(s[0]) {
        spec_words(s.skip(1))
    } else {
        let k = first_word_len(s) as int;
        if 0 < k <= s.len() {
            seq![s.take(k)] + spec_words(s.skip(k))
        } else {
            Seq::empty()
        }
    }
}

} // verus!

verus! {

proof fn lemma_first_word_len_exact(t: Seq<char>, k: nat)
    requires
        k <= t.len(),
        forall|m: int| 0 <= m < k ==> !is_space_char(#[trigger] t[m]),
        k == t.len() || is_space_char(t[k as int]),
    ensures
        first_word_len(t) == k,
    decreases k,
{
    if k == 0 {
    } else {
        assert(!is_space_char(t[0]));
        assert(forall|m: int| 0 <= m < k - 1 ==> t.skip(1)[m] == t[m + 1]);
        if k < t.len() {
            assert(t.skip(1)[k - 1] == t[k as int]);
        }
        lemma_first_word_len_exact(t.skip(1), (k - 1) as nat);
    }
}

/// The words of `s` joined with single spaces: all whitespace collapsed.
pub fn collapse_whitespace(v: &[char]) -> (r: Vec<char>)
    ensures
        r@ == spec_join(spec_words(v@), " "@),
{
    let n = v.len();
    let mut out: Vec<char> = Vec::new();
    let ghost mut ws: Seq<Seq<char>> = Seq::empty();
    let mut i: usize = 0;
    proof {
        assert(v@.skip(0) =~= v@);
        reveal_strlit(" ");
    }
    while i < n
        invariant
            n == v@.len(),
            i <= n,
            spec_words(v@) == ws + spec_words(v@.skip(i as int)),
            out@ == spec_join(ws, " "@),
            ws.len() == 0 <==> out@.len() == 0,
            forall|m: int| 0 <= m < ws.len() ==> #[trigger] ws[m].len() > 0,
            " "@ =~= seq![' '],
        decreases n - i,
    {
        if is_space(v[i]) {
            proof {
                assert(v@.skip(i as int).skip(1) =~= v@.skip(i + 1));
                assert(spec_words(v@.skip(i as int)) == spec_words(v@.skip(i + 1)));
            }
            i = i + 1;
        } else {
            let mut j: usize = i;
            while j < n && !is_space(v[j])
                invariant
                    n == v@.len(),
                    i <= j <= n,
                    forall|m: int| i <= m < j ==> !is_space_char(#[trigger] v@[m]),
                decreases n - j,
            {
                j = j + 1;
            }
            let word = subrange_chars(v, i, j);
            proof {
                let t = v@.skip(i as int);
                assert(forall|m: int| 0 <= m < j - i ==> t[m] == v@[m + i]);
                if j < n {
                    assert(t[j - i] == v@[j as int]);
                }
                lemma_first_word_len_exact(t, (j - i) as nat);
                assert(t.take(j - i) =~= word@);
                assert(t.skip(j - i) =~= v@.skip(j as int));
                assert(spec_words(t) == seq![word@] + spec_words(v@.skip(j as int)));
                assert(ws + spec_words(t) =~~= ws.push(word@) + spec_words(v@.skip(j as int)));
            }
            let ghost prev_out = out@;
            if out.len() > 0 {
                out.push(' ');
            }
            let mut k: usize = i;
            let ghost base = out@;
            while k < j
                invariant
                    i <= k <= j <= n,
                    n == v@.len(),
                    out@ == base + v@.subrange(i as int, k as int),
                decreases j - k,
            {
                out.push(v[k]);
                k = k + 1;
                proof {
                    assert(base + v@.subrange(i as int, k as int)
                        =~= (base + v@.subrange(i as int, k - 1)).push(v@[k - 1]));
                }
            }
            proof {
                assert((ws.push(word@)).drop_last() =~= ws);
                if ws.len() == 0 {
                    assert(out@ =~= spec_join(ws.push(word@), " "@));
                } else {
                    assert(out@ =~= prev_out + " "@ + word@);
                    assert(out@ =~= spec_join(ws.push(word@), " "@));
                }
                ws = ws.push(word@);
                assert(word@.len() == j - i);
            }
            i = j;
        }
    }
    proof {
        assert(v@.skip(n as int) =~= Seq::<char>::empty());
        assert(ws + spec_words(v@.skip(n as int)) =~= ws);
    }
    out
}

/// `s` without its leading run of `#` and `*` characters.
pub open spec fn spec_strip_marks(s: Seq<char>) -> Seq<char>
    decreases s.len(),
{
    if s.len() > 0 && (s[0] == '#' || s[0] == '*') {
        spec_strip_marks(s.skip(1))
    } else {
        s
    }
}

/// The display normalization of a summary text: whitespace collapsed to
/// single spaces, leading markdown heading and bullet marks stripped, and
/// the result truncated to `max` characters, broken at the last word
/// boundary past the halfway point, with a trailing ellipsis.
pub open spec fn spec_normalize_summary(text: Seq<char>, max: nat) -> Seq<char> {
    let collapsed = spec_join(spec_words(text), " "@);
    let stripped = spec_trim_start(spec_strip_marks(collapsed));
    if stripped.len() <= max {
        stripped
    } else {
        let t = stripped.take(max as int);
        let bp = match spec_rfind_char(t, ' ') {
            Some(b) => if b > max / 2 {
                b
            } else {
                t.len() as int
            },
            None => t.len() as int,
        };
        t.take(bp) + "..."@
    }
}

/// Normalize text for display: collapse whitespace, strip leading markdown
/// marks, truncate gracefully at a word boundary.
pub fn normalize_summary(text: &str, max_chars: usize) -> (r: String)
    ensures
        r@ == spec_normalize_summary(text@, max_chars as nat),
{
    let chars = str_to_chars(text);
    let collapsed = collapse_whitespace(chars.as_slice());
    let n = collapsed.len();
    let mut a: usize = 0;
    proof {
        assert(collapsed@.skip(0) =~= collapsed@);
    }
    while a < n && (collapsed[a] == '#' || collapsed[a] == '*')
        invariant
            n == collapsed@.len(),
            a <= n,
            spec_strip_marks(collapsed@) == spec_strip_marks(collapsed@.skip(a as int)),
        decreases n - a,
    {
        proof {
            assert(collapsed@.skip(a as int).skip(1) =~= collapsed@.skip(a + 1));
        }
        a = a + 1;
    }
    proof {
        assert(spec_strip_marks(collapsed@) == collapsed@.skip(a as int));
    }
    let ghost marked = collapsed@.skip(a as int);
    let mut b: usize = a;
    while b < n && is_space(collapsed[b])
        invariant
            a <= b <= n,
            n == collapsed@.len(),
            marked == collapsed@.skip(a as int),
            spec_trim_start(marked) == spec_trim_start(collapsed@.skip(b as int)),
        decreases n - b,
    {
        proof {
            assert(collapsed@.skip(b as int).skip(1) =~= collapsed@.skip(b + 1));
        }
        b = b + 1;
    }
    proof {
        assert(spec_trim_start(marked) == collapsed@.skip(b as int));
    }
    let stripped = subrange_chars(collapsed.as_slice(), b, n);
    proof {
        assert(stripped@ =~= collapsed@.skip(b as int));
    }
    if stripped.len() <= max_chars {
        return chars_to_string(stripped.as_slice());
    }
    let t = subrange_chars(stripped.as_slice(), 0, max_chars);
    proof {
        assert(t@ =~= stripped@.take(max_chars as int));
    }
    let pos = rfind_char(t.as_slice(), ' ');
    let bp: usize = if pos > 0 && pos - 1 > max_chars / 2 {
        pos - 1
    } else {
        t.len()
    };
    let head = subrange_chars(t.as_slice(), 0, bp);
    proof {
        assert(head@ =~= t@.take(bp as int));
    }
    let mut r = chars_to_string(head.as_slice());
    r.append("...");
    r
}

} // verus!

verus! {

/// The lines of a text, separated by `\n`, without a trailing empty piece
/// (so a trailing newline adds no line).
pub open spec fn spec_lines_of(s: Seq<char>) -> Seq<Seq<char>> {
    let parts = spec_split(s, '\n');
    if parts.last().len() == 0 {
        parts.drop_last()
    } else {
        parts
    }
}

/// Split a text into its lines.
pub fn lines_of(s: &str) -> (r: Vec<String>)
    ensures
        r.deep_view() == spec_lines_of(s@),
{
    let chars = str_to_chars(s);
    let mut parts = split_on_char(chars.as_slice(), '\n');
    proof {
        lemma_split_len(s@, '\n');
        assert(parts@[parts@.len() - 1].deep_view() == parts.deep_view()[parts@.len() - 1]);
    }
    let last_len = parts[parts.len() - 1].len();
    if last_len == 0 {
        let ghost before = parts.deep_view();
        let _ = parts.pop();
        proof {
            assert(parts.deep_view() =~~= before.drop_last());
        }
    }
    let n = parts.len();
    let mut r: Vec<String> = Vec::new();
    let mut i: usize = 0;
    while i < n
        invariant
            n == parts@.len(),
            i <= n,
            r@.len() == i,
            forall|k: int| 0 <= k < i ==> r.deep_view()[k] == parts.deep_view()[k],
        decreases n - i,
    {
        let ghost before = r.deep_view();
        r.push(chars_to_string(parts[i].as_slice()));
        i = i + 1;
        proof {
            assert(r.deep_view() =~~= before.push(parts@[i - 1].deep_view()));
            assert(parts@[i - 1].deep_view() == parts.deep_view()[i - 1]);
        }
    }
    proof {
        assert(r.deep_view() =~~= parts.deep_view());
    }
    r
}

/// The first line of a text; the text itself when it has no lines at all.
pub open spec fn spec_first_line(t: Seq<char>) -> Seq<char> {
    if spec_lines_of(t).len() == 0 {
        t
    } else {
        spec_lines_of(t)[0]
    }
}

/// The first line of a text.
pub fn first_line_of(s: &str) -> (r: String)
    ensures
        r@ == spec_first_line(s@),
{
    let lines = lines_of(s);
    if lines.len() == 0 {
        String::from_str(s)
    } else {
        proof {
            assert(lines.deep_view()[0] == lines@[0].deep_view());
        }
        lines[0].clone()
    }
}

} // verus!
