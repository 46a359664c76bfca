//! Character-level text helpers shared by the parsers.
//!
//! Text is handled as sequences of `char`; the spec functions here give the
//! meaning of the handful of `str` operations the rest of the crate relies on
//! (trimming, splitting on whitespace, searching, joining).

use vstd::prelude::*;

verus! {

// ---------------------------------------------------------------------------
// Specifications
// ---------------------------------------------------------------------------

/// Unicode `White_Space`: the characters for which `char::is_whitespace` holds.
pub open spec fn is_ws(c: char) -> bool {
    ('\u{9}' <= c && c <= '\u{d}') || c == ' ' || c == '\u{85}' || c == '\u{a0}'
        || c == '\u{1680}' || ('\u{2000}' <= c && c <= '\u{200a}') || c == '\u{2028}'
        || c == '\u{2029}' || c == '\u{202f}' || c == '\u{205f}' || c == '\u{3000}'
}

/// What a character pattern accepts: whitespace, or one given character.
pub enum Pat {
    /// Any whitespace character.
    Space,
    /// Exactly this character.
    Ch(char),
    /// Any character but this one.
    Not(char),
    /// Whitespace, or this character.
    SpaceOr(char),
    /// Neither whitespace nor this character.
    NeitherSpaceNor(char),
}

pub open spec fn pat_hit(p: Pat, c: char) -> bool {
    match p {
        Pat::Space => is_ws(c),
        Pat::Ch(x) => c == x,
        Pat::Not(x) => c != x,
        Pat::SpaceOr(x) => is_ws(c) || c == x,
        Pat::NeitherSpaceNor(x) => !is_ws(c) && c != x,
    }
}

/// First index at or after `i` whose character the pattern does not accept.
pub open spec fn skip_fwd(s: Seq<char>, p: Pat, i: int) -> int
    decreases s.len() - i,
{
    if 0 <= i < s.len() && pat_hit(p, s[i]) {
        skip_fwd(s, p, i + 1)
    } else {
        i
    }
}

/// Last cut point at or before `j` such that `s[cut..j]` is all accepted.
pub open spec fn skip_back(s: Seq<char>, p: Pat, j: int) -> int
    decreases j,
{
    if 0 < j <= s.len() && pat_hit(p, s[j - 1]) {
        skip_back(s, p, j - 1)
    } else {
        j
    }
}

/// `s` without the accepted characters at both ends (`str::trim`, `trim_matches`).
pub open spec fn trim_pat(s: Seq<char>, p: Pat) -> Seq<char> {
    let a = skip_fwd(s, p, 0);
    let b = skip_back(s, p, s.len() as int);
    if a < b {
        s.subrange(a, b)
    } else {
        Seq::empty()
    }
}

/// `str::trim`.
pub open spec fn trim(s: Seq<char>) -> Seq<char> {
    trim_pat(s, Pat::Space)
}

/// `str::trim_start_matches` with a single character.
pub open spec fn trim_start_char(s: Seq<char>, c: char) -> Seq<char> {
    s.subrange(skip_fwd(s, Pat::Ch(c), 0), s.len() as int)
}

/// `str::trim_end_matches` with a single character.
pub open spec fn trim_end_char(s: Seq<char>, c: char) -> Seq<char> {
    s.subrange(0, skip_back(s, Pat::Ch(c), s.len() as int))
}

/// First index at or after `i` holding whitespace, or the length.
pub open spec fn next_ws(s: Seq<char>, i: int) -> int
    decreases s.len() - i,
{
    if 0 <= i < s.len() && !is_ws(s[i]) {
        next_ws(s, i + 1)
    } else {
        i
    }
}

/// The first whitespace-separated token (`split_whitespace().next()`), or empty.
pub open spec fn first_token(s: Seq<char>) -> Seq<char> {
    let a = skip_fwd(s, Pat::Space, 0);
    if a < s.len() {
        s.subrange(a, next_ws(s, a))
    } else {
        Seq::empty()
    }
}

/// Index of the first `c` at or after `i`, or the length (`find(c).unwrap_or(len)`).
pub open spec fn find_char(s: Seq<char>, c: char, i: int) -> int
    decreases s.len() - i,
{
    if 0 <= i < s.len() && s[i] != c {
        find_char(s, c, i + 1)
    } else {
        i
    }
}

/// `needle` occurs in `s` starting at index `i`.
pub open spec fn occurs_at(s: Seq<char>, needle: Seq<char>, i: int) -> bool {
    0 <= i && i + needle.len() <= s.len() && s.subrange(i, i + needle.len()) == needle
}

/// `str::contains` with a string pattern.
pub open spec fn has_sub(s: Seq<char>, needle: Seq<char>) -> bool {
    exists|i: int| occurs_at(s, needle, i)
}

/// The pieces joined with `sep` between neighbours (`slice::join`).
pub open spec fn join(parts: Seq<Seq<char>>, sep: Seq<char>) -> Seq<char>
    decreases parts.len(),
{
    if parts.len() == 0 {
        Seq::empty()
    } else if parts.len() == 1 {
        parts[0]
    } else {
        join(parts.drop_last(), sep) + sep + parts.last()
    }
}

/// The views of a sequence of strings.
pub open spec fn views(v: Seq<String>) -> Seq<Seq<char>> {
    v.map_values(|x: String| x@)
}

// ---------------------------------------------------------------------------
// Lemmas
// ---------------------------------------------------------------------------

pub proof fn lemma_skip_fwd_bounds(s: Seq<char>, p: Pat, i: int)
    requires
        0 <= i <= s.len(),
    ensures
        i <= skip_fwd(s, p, i) <= s.len(),
        forall|k: int| i <= k < skip_fwd(s, p, i) ==> pat_hit(p, #[trigger] s[k]),
        skip_fwd(s, p, i) < s.len() ==> !pat_hit(p, s[skip_fwd(s, p, i)]),
    decreases s.len() - i,
{
    if i < s.len() && pat_hit(p, s[i]) {
        lemma_skip_fwd_bounds(s, p, i + 1);
    }
}

pub proof fn lemma_skip_back_bounds(s: Seq<char>, p: Pat, j: int)
    requires
        0 <= j <= s.len(),
    ensures
        0 <= skip_back(s, p, j) <= j,
        forall|k: int| skip_back(s, p, j) <= k < j ==> pat_hit(p, #[trigger] s[k]),
        skip_back(s, p, j) > 0 ==> !pat_hit(p, s[skip_back(s, p, j) - 1]),
    decreases j,
{
    if 0 < j && pat_hit(p, s[j - 1]) {
        lemma_skip_back_bounds(s, p, j - 1);
    }
}

pub proof fn lemma_next_ws_bounds(s: Seq<char>, i: int)
    requires
        0 <= i <= s.len(),
    ensures
        i <= next_ws(s, i) <= s.len(),
    decreases s.len() - i,
{
    if i < s.len() && !is_ws(s[i]) {
        lemma_next_ws_bounds(s, i + 1);
    }
}

pub proof fn lemma_find_char_bounds(s: Seq<char>, c: char, i: int)
    requires
        0 <= i <= s.len(),
    ensures
        i <= find_char(s, c, i) <= s.len(),
        find_char(s, c, i) < s.len() ==> s[find_char(s, c, i)] == c,
        forall|k: int| i <= k < find_char(s, c, i) ==> #[trigger] s[k] != c,
    decreases s.len() - i,
{
    if i < s.len() && s[i] != c {
        lemma_find_char_bounds(s, c, i + 1);
    }
}

/// A trimmed text neither starts nor ends with whitespace, and a text that
/// ends in a character other than whitespace trims to something non-empty.
pub proof fn lemma_trim_shape(s: Seq<char>)
    ensures
        trim(s).len() > 0 ==> !is_ws(trim(s)[0]) && !is_ws(trim(s).last()),
        s.len() > 0 && !is_ws(s.last()) ==> trim(s).len() > 0,
{
    lemma_skip_fwd_bounds(s, Pat::Space, 0);
    lemma_skip_back_bounds(s, Pat::Space, s.len() as int);
    if s.len() > 0 && !is_ws(s.last()) {
        let a = skip_fwd(s, Pat::Space, 0);
        if a >= s.len() {
            assert(pat_hit(Pat::Space, s[s.len() - 1]));
        }
    }
}

/// Trimming never lengthens.
pub proof fn lemma_trim_pat_len(s: Seq<char>, p: Pat)
    ensures
        trim_pat(s, p).len() <= s.len(),
{
    lemma_skip_fwd_bounds(s, p, 0);
    lemma_skip_back_bounds(s, p, s.len() as int);
}

// ---------------------------------------------------------------------------
// Standard-library character classes and conversions
// ---------------------------------------------------------------------------

/// What `char::is_alphanumeric` answers for a character (Unicode `Alphabetic`
/// or `Numeric`; the tables behind it are not restated here).
pub uninterp spec fn alnum(c: char) -> bool;

/// An ASCII character lowercased: `A`..`Z` become `a`..`z`, the rest stay.
pub open spec fn ascii_lower(c: char) -> char {
    if 'A' <= c && c <= 'Z' {
        ((c as int) + 32) as char
    } else {
        c
    }
}

/// What `str::to_lowercase` returns for a text (Unicode lowercase mapping).
pub uninterp spec fn lowercase_of(s: Seq<char>) -> Seq<char>;

/// What `Path::new(p).file_stem()` gives for a path text, read back as text
/// (`None` where the path has no file name).
pub uninterp spec fn file_stem_of(p: Seq<char>) -> Option<Seq<char>>;

/// What `Path::new(p).parent()` gives for a path text, read back as text
/// (`None` for a root or an empty path).
pub uninterp spec fn parent_of(p: Seq<char>) -> Option<Seq<char>>;

/// `std::path::Path::parent` (then `to_str`) on a path text; the result is
/// the named `parent_of` of the input.
#[verifier::external_body]
pub(crate) fn parent_chars(v: &Vec<char>) -> (out: Option<Vec<char>>)
    ensures
        match out {
            Some(x) => parent_of(v@) == Some(x@),
            None => parent_of(v@) is None,
        },
{
    let s: String = v.iter().collect();
    std::path::Path::new(&s).parent().and_then(|x| x.to_str()).map(|x| x.chars().collect())
}

/// `char::is_alphanumeric`; its answer is the named `alnum`, and on ASCII it
/// holds exactly for letters and digits.
#[verifier::external_body]
pub(crate) fn is_alphanumeric(c: char) -> (b: bool)
    ensures
        b == alnum(c),
        c <= '\x7f' ==> (b <==> (('a' <= c && c <= 'z') || ('A' <= c && c <= 'Z') || ('0' <= c
            && c <= '9'))),
{
    c.is_alphanumeric()
}

/// `str::to_lowercase`; the result is the named `lowercase_of` of the input,
/// and an all-ASCII input has each letter `A`..`Z` lowercased, the rest kept.
#[verifier::external_body]
pub(crate) fn to_lowercase_chars(v: &Vec<char>) -> (out: Vec<char>)
    ensures
        out@ == lowercase_of(v@),
        (forall|i: int| 0 <= i < v@.len() ==> #[trigger] v@[i] <= '\x7f') ==> out@ == v@.map_values(
            |c: char| ascii_lower(c),
        ),
{
    let s: String = v.iter().collect();
    s.to_lowercase().chars().collect()
}

/// `std::path::Path::file_stem` (then `to_str`) on a path text; the result is
/// the named `file_stem_of` of the input, and a non-empty name with neither
/// `/` nor `.` is its own stem.
#[verifier::external_body]
pub(crate) fn file_stem_chars(v: &Vec<char>) -> (out: Option<Vec<char>>)
    ensures
        match out {
            Some(x) => file_stem_of(v@) == Some(x@),
            None => file_stem_of(v@) is None,
        },
        v@.len() > 0 && !v@.contains('/') && !v@.contains('.') ==> out is Some && out->0@ == v@,
{
    let s: String = v.iter().collect();
    std::path::Path::new(&s).file_stem().and_then(|x| x.to_str()).map(|x| x.chars().collect())
}

// ---------------------------------------------------------------------------
// Executable helpers
// ---------------------------------------------------------------------------

/// Appends one character to a string (`String::push`).
#[verifier::external_body]
pub(crate) fn push_char(s: &mut String, c: char)
    ensures
        final(s)@ == old(s)@.push(c),
{
    s.push(c);
}

/// The characters of a string slice, in order.
pub fn chars_of(s: &str) -> (out: Vec<char>)
    ensures
        out@ == s@,
{
    let mut out: Vec<char> = Vec::new();
    for c in it: s.chars()
        invariant
            out@ == it.seq().take(it.index() as int),
    {
        out.push(c);
    }
    out
}

/// A string holding exactly the given characters.
pub fn string_of(v: &Vec<char>) -> (out: String)
    ensures
        out@ == v@,
{
    let mut out = String::new();
    let mut i: usize = 0;
    while i < v.len()
        invariant
            i <= v.len(),
            out@ == v@.take(i as int),
        decreases v.len() - i,
    {
        push_char(&mut out, v[i]);
        i += 1;
        assert(out@ =~= v@.take(i as int));
    }
    assert(v@.take(v.len() as int) =~= v@);
    out
}

/// The characters of `v` from `a` up to `b`.
pub fn sub_chars(v: &Vec<char>, a: usize, b: usize) -> (out: Vec<char>)
    requires
        a <= b <= v.len(),
    ensures
        out@ == v@.subrange(a as int, b as int),
{
    let mut out: Vec<char> = Vec::new();
    let mut i: usize = a;
    while i < b
        invariant
            a <= i <= b <= v.len(),
            out@ == v@.subrange(a as int, i as int),
        decreases b - i,
    {
        out.push(v[i]);
        i += 1;
        assert(out@ =~= v@.subrange(a as int, i as int));
    }
    out
}

/// `char::is_whitespace`.
pub fn is_whitespace(c: char) -> (b: bool)
    ensures
        b == is_ws(c),
{
    ('\u{9}' <= c && c <= '\u{d}') || c == ' ' || c == '\u{85}' || c == '\u{a0}'
        || c == '\u{1680}' || ('\u{2000}' <= c && c <= '\u{200a}') || c == '\u{2028}'
        || c == '\u{2029}' || c == '\u{202f}' || c == '\u{205f}' || c == '\u{3000}'
}

fn hits(p: &Pat, c: char) -> (b: bool)
    ensures
        b == pat_hit(*p, c),
{
    match p {
        Pat::Space => is_whitespace(c),
        Pat::Ch(x) => c == *x,
        Pat::Not(x) => c != *x,
        Pat::SpaceOr(x) => is_whitespace(c) || c == *x,
        Pat::NeitherSpaceNor(x) => !is_whitespace(c) && c != *x,
    }
}

pub fn skip_fwd_exec(v: &Vec<char>, p: &Pat, i: usize) -> (r: usize)
    requires
        i <= v.len(),
    ensures
        r == skip_fwd(v@, *p, i as int),
{
    let mut k = i;
    while k < v.len() && hits(p, v[k])
        invariant
            i <= k <= v.len(),
            skip_fwd(v@, *p, k as int) == skip_fwd(v@, *p, i as int),
        decreases v.len() - k,
    {
        k += 1;
    }
    k
}

pub fn skip_back_exec(v: &Vec<char>, p: &Pat, j: usize) -> (r: usize)
    requires
        j <= v.len(),
    ensures
        r == skip_back(v@, *p, j as int),
{
    let mut k = j;
    while k > 0 && hits(p, v[k - 1])
        invariant
            k <= j <= v.len(),
            skip_back(v@, *p, k as int) == skip_back(v@, *p, j as int),
        decreases k,
    {
        k -= 1;
    }
    k
}

/// `trim` / `trim_matches` on characters.
pub fn trim_pat_chars(v: &Vec<char>, p: &Pat) -> (out: Vec<char>)
    ensures
        out@ == trim_pat(v@, *p),
{
    let a = skip_fwd_exec(v, p, 0);
    let b = skip_back_exec(v, p, v.len());
    proof {
        lemma_skip_fwd_bounds(v@, *p, 0);
        lemma_skip_back_bounds(v@, *p, v@.len() as int);
    }
    if a < b {
        sub_chars(v, a, b)
    } else {
        Vec::new()
    }
}

/// `str::trim` on characters.
pub fn trim_chars(v: &Vec<char>) -> (out: Vec<char>)
    ensures
        out@ == trim(v@),
{
    trim_pat_chars(v, &Pat::Space)
}

/// `trim_start_matches(c)` on characters.
pub fn trim_start_chars(v: &Vec<char>, c: char) -> (out: Vec<char>)
    ensures
        out@ == trim_start_char(v@, c),
{
    let a = skip_fwd_exec(v, &Pat::Ch(c), 0);
    proof {
        lemma_skip_fwd_bounds(v@, Pat::Ch(c), 0);
    }
    sub_chars(v, a, v.len())
}

/// `trim_end_matches(c)` on characters.
pub fn trim_end_chars(v: &Vec<char>, c: char) -> (out: Vec<char>)
    ensures
        out@ == trim_end_char(v@, c),
{
    let b = skip_back_exec(v, &Pat::Ch(c), v.len());
    proof {
        lemma_skip_back_bounds(v@, Pat::Ch(c), v@.len() as int);
    }
    sub_chars(v, 0, b)
}

/// The first whitespace-separated token, or empty.
pub fn first_token_chars(v: &Vec<char>) -> (out: Vec<char>)
    ensures
        out@ == first_token(v@),
{
    let a = skip_fwd_exec(v, &Pat::Space, 0);
    proof {
        lemma_skip_fwd_bounds(v@, Pat::Space, 0);
    }
    if a < v.len() {
        let mut k = a;
        while k < v.len() && !is_whitespace(v[k])
            invariant
                a <= k <= v.len(),
                next_ws(v@, k as int) == next_ws(v@, a as int),
            decreases v.len() - k,
        {
            k += 1;
        }
        sub_chars(v, a, k)
    } else {
        Vec::new()
    }
}

/// Index of the first `c` at or after `i`, or the length.
pub fn find_char_exec(v: &Vec<char>, c: char, i: usize) -> (r: usize)
    requires
        i <= v.len(),
    ensures
        r == find_char(v@, c, i as int),
{
    let mut k = i;
    while k < v.len() && v[k] != c
        invariant
            i <= k <= v.len(),
            find_char(v@, c, k as int) == find_char(v@, c, i as int),
        decreases v.len() - k,
    {
        k += 1;
    }
    k
}

/// Whether `v` holds the character `c`.
pub fn contains_char(v: &Vec<char>, c: char) -> (b: bool)
    ensures
        b == v@.contains(c),
{
    let r = find_char_exec(v, c, 0);
    proof {
        lemma_find_char_bounds(v@, c, 0);
    }
    r < v.len()
}

/// Whether `needle` occurs in `v` at index `i`.
pub fn occurs_at_exec(v: &Vec<char>, needle: &Vec<char>, i: usize) -> (b: bool)
    ensures
        b == occurs_at(v@, needle@, i as int),
{
    if i > v.len() || needle.len() > v.len() - i {
        return false;
    }
    let mut k: usize = 0;
    while k < needle.len()
        invariant
            i + needle.len() <= v.len(),
            k <= needle.len(),
            forall|m: int| 0 <= m < k ==> v@[i + m] == needle@[m],
        decreases needle.len() - k,
    {
        if v[i + k] != needle[k] {
            assert(v@.subrange(i as int, i + needle.len())[k as int] != needle@[k as int]);
            return false;
        }
        k += 1;
    }
    assert(v@.subrange(i as int, i + needle.len()) =~= needle@);
    true
}

/// Whether `needle` starts `v` (`str::starts_with`).
pub fn starts_with_chars(v: &Vec<char>, needle: &Vec<char>) -> (b: bool)
    ensures
        b == needle@.is_prefix_of(v@),
{
    let r = occurs_at_exec(v, needle, 0);
    assert(r == needle@.is_prefix_of(v@)) by {
        if needle@.len() <= v@.len() {
            if r {
                assert forall|k: int| 0 <= k < needle@.len() implies needle@[k] == v@[k] by {
                    assert(v@.subrange(0, needle@.len() as int)[k] == v@[k]);
                }
            }
            if needle@.is_prefix_of(v@) {
                assert(v@.subrange(0, needle@.len() as int) =~= needle@);
            }
        }
    }
    r
}

/// Whether `needle` ends `v` (`str::ends_with`).
pub fn ends_with_chars(v: &Vec<char>, needle: &Vec<char>) -> (b: bool)
    ensures
        b == (needle@.len() <= v@.len() && occurs_at(v@, needle@, v@.len() - needle@.len())),
{
    if needle.len() > v.len() {
        return false;
    }
    occurs_at_exec(v, needle, v.len() - needle.len())
}

/// Whether `needle` occurs anywhere in `v` (`str::contains`).
pub fn has_sub_chars(v: &Vec<char>, needle: &Vec<char>) -> (b: bool)
    ensures
        b == has_sub(v@, needle@),
{
    if needle.len() > v.len() {
        assert(!has_sub(v@, needle@));
        return false;
    }
    let last = v.len() - needle.len();
    let mut i: usize = 0;
    while i <= last
        invariant
            last == v.len() - needle.len(),
            i <= last + 1,
            forall|k: int| 0 <= k < i ==> !occurs_at(v@, needle@, k),
        decreases last + 1 - i,
    {
        if occurs_at_exec(v, needle, i) {
            return true;
        }
        if i == last {
            assert forall|k: int| !occurs_at(v@, needle@, k) by {
                if 0 <= k && k + needle@.len() <= v@.len() {
                    assert(k <= i);
                }
            }
            return false;
        }
        i += 1;
    }
    false
}

/// Whether `v` spells exactly `lit`.
pub fn eq_lit(v: &Vec<char>, lit: &str) -> (b: bool)
    ensures
        b == (v@ == lit@),
{
    let w = chars_of(lit);
    if v.len() != w.len() {
        return false;
    }
    let mut k: usize = 0;
    while k < v.len()
        invariant
            v.len() == w.len(),
            w@ == lit@,
            k <= v.len(),
            forall|m: int| 0 <= m < k ==> v@[m] == w@[m],
        decreases v.len() - k,
    {
        if v[k] != w[k] {
            return false;
        }
        k += 1;
    }
    assert(v@ =~= w@);
    true
}

/// The pieces joined with `sep` between neighbours.
pub fn join_chars(parts: &Vec<Vec<char>>, sep: &Vec<char>) -> (out: Vec<char>)
    ensures
        out@ == join(parts@.map_values(|p: Vec<char>| p@), sep@),
{
    let ghost pv = parts@.map_values(|p: Vec<char>| p@);
    let mut out: Vec<char> = Vec::new();
    let mut i: usize = 0;
    while i < parts.len()
        invariant
            i <= parts.len(),
            pv == parts@.map_values(|p: Vec<char>| p@),
            out@ == join(pv.take(i as int), sep@),
        decreases parts.len() - i,
    {
        if i > 0 {
            let mut s = sep.clone();
            out.append(&mut s);
        }
        let mut p = parts[i].clone();
        out.append(&mut p);
        assert(pv.take(i + 1).drop_last() =~= pv.take(i as int));
        assert(pv.take(i + 1).last() == pv[i as int]);
        if i == 0 {
            assert(pv.take(1) =~= seq![pv[0]]);
        }
        i += 1;
    }
    assert(pv.take(parts.len() as int) =~= pv);
    out
}

/// Strings holding the given character sequences.
pub fn strings_of(parts: &Vec<Vec<char>>) -> (out: Vec<String>)
    ensures
        views(out@) == parts@.map_values(|p: Vec<char>| p@),
{
    let mut res: Vec<String> = Vec::new();
    let mut k: usize = 0;
    while k < parts.len()
        invariant
            k <= parts.len(),
            views(res@) == parts@.take(k as int).map_values(|p: Vec<char>| p@),
        decreases parts.len() - k,
    {
        let ghost prev = views(res@);
        res.push(string_of(&parts[k]));
        assert(views(res@) =~= prev.push(parts@[k as int]@));
        assert(parts@.take(k + 1).map_values(|p: Vec<char>| p@) =~= parts@.take(
            k as int,
        ).map_values(|p: Vec<char>| p@).push(parts@[k as int]@));
        k += 1;
    }
    assert(parts@.take(parts.len() as int) =~= parts@);
    res
}

/// The characters of each string.
pub fn chars_list(args: &[String]) -> (out: Vec<Vec<char>>)
    ensures
        out@.map_values(|p: Vec<char>| p@) == args@.map_values(|x: String| x@),
{
    let mut out: Vec<Vec<char>> = Vec::new();
    let mut k: usize = 0;
    while k < args.len()
        invariant
            k <= args@.len(),
            out@.map_values(|p: Vec<char>| p@) == args@.take(k as int).map_values(|x: String| x@),
        decreases args.len() - k,
    {
        let ghost prev = out@.map_values(|p: Vec<char>| p@);
        out.push(chars_of(args[k].as_str()));
        assert(out@.map_values(|p: Vec<char>| p@) =~= prev.push(args@[k as int]@));
        assert(args@.take(k + 1).map_values(|x: String| x@) =~= args@.take(k as int).map_values(
            |x: String| x@,
        ).push(args@[k as int]@));
        k += 1;
    }
    assert(args@.take(args@.len() as int) =~= args@);
    out
}

/// A copy of a character vector.
pub fn copy_chars(v: &Vec<char>) -> (out: Vec<char>)
    ensures
        out@ == v@,
{
    let out = v.clone();
    assert(out@ =~= v@);
    out
}

// ---------------------------------------------------------------------------
// Ordering of texts
// ---------------------------------------------------------------------------

/// `a` sorts strictly before `b` (lexicographic by character, as `String`'s `Ord`).
pub open spec fn lex_lt(a: Seq<char>, b: Seq<char>) -> bool
    decreases a.len(),
{
    if b.len() == 0 {
        false
    } else if a.len() == 0 {
        true
    } else if a[0] < b[0] {
        true
    } else if a[0] > b[0] {
        false
    } else {
        lex_lt(a.drop_first(), b.drop_first())
    }
}

pub proof fn lemma_lex_irreflexive(a: Seq<char>)
    ensures
        !lex_lt(a, a),
    decreases a.len(),
{
    if a.len() > 0 {
        lemma_lex_irreflexive(a.drop_first());
    }
}

pub proof fn lemma_lex_transitive(a: Seq<char>, b: Seq<char>, c: Seq<char>)
    requires
        lex_lt(a, b),
        lex_lt(b, c),
    ensures
        lex_lt(a, c),
    decreases a.len(),
{
    if a.len() > 0 && b.len() > 0 && c.len() > 0 {
        if a[0] == b[0] && b[0] == c[0] {
            lemma_lex_transitive(a.drop_first(), b.drop_first(), c.drop_first());
        }
    }
}

pub proof fn lemma_lex_total(a: Seq<char>, b: Seq<char>)
    requires
        a != b,
    ensures
        lex_lt(a, b) || lex_lt(b, a),
    decreases a.len(),
{
    if a.len() > 0 && b.len() > 0 && a[0] == b[0] {
        if a.drop_first() == b.drop_first() {
            assert(a =~= seq![a[0]] + a.drop_first());
            assert(b =~= seq![b[0]] + b.drop_first());
        }
        lemma_lex_total(a.drop_first(), b.drop_first());
    } else if a.len() == 0 && b.len() == 0 {
        assert(a =~= b);
    }
}

/// Whether `a` sorts strictly before `b`.
pub fn lex_less(a: &Vec<char>, b: &Vec<char>) -> (r: bool)
    ensures
        r == lex_lt(a@, b@),
{
    let mut k: usize = 0;
    assert(a@.skip(0) =~= a@);
    assert(b@.skip(0) =~= b@);
    while k < a.len() && k < b.len() && a[k] == b[k]
        invariant
            k <= a.len(),
            k <= b.len(),
            lex_lt(a@.skip(k as int), b@.skip(k as int)) == lex_lt(a@, b@),
        decreases a.len() - k,
    {
        assert(a@.skip(k as int).drop_first() =~= a@.skip(k + 1));
        assert(b@.skip(k as int).drop_first() =~= b@.skip(k + 1));
        k += 1;
    }
    if k == b.len() {
        assert(b@.skip(k as int).len() == 0);
        false
    } else if k == a.len() {
        assert(a@.skip(k as int).len() == 0);
        true
    } else {
        assert(a@.skip(k as int)[0] == a@[k as int]);
        assert(b@.skip(k as int)[0] == b@[k as int]);
        a[k] < b[k]
    }
}

/// A copy of a list of strings.
pub fn copy_strings(v: &Vec<String>) -> (out: Vec<String>)
    ensures
        out@ == v@,
{
    let mut out: Vec<String> = Vec::new();
    let mut k: usize = 0;
    while k < v.len()
        invariant
            k <= v.len(),
            out@ == v@.take(k as int),
        decreases v.len() - k,
    {
        out.push(v[k].clone());
        assert(out@ =~= v@.take(k + 1));
        k += 1;
    }
    assert(v@.take(v.len() as int) =~= v@);
    out
}

/// `str::to_lowercase` on a string slice.
pub fn to_lowercase(s: &str) -> (out: String)
    ensures
        out@ == lowercase_of(s@),
{
    let v = chars_of(s);
    string_of(&to_lowercase_chars(&v))
}

} // verus!
