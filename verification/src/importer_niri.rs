//! Reading niri's own key bindings out of its KDL configuration.
//!
//! The `binds` section of a niri configuration is regular enough that a small
//! dedicated scanner suffices: comments (`//` and `/* */`) are dropped outside
//! string literals, `import` / `include` lines name further files, every
//! `binds { ... }` block is cut into its child nodes, and each node becomes a
//! shortcut entry with a category and a readable description.

use vstd::prelude::*;

use crate::store::{ShortcutEntry, EntryView, entry_views};
use crate::text::{
    Pat, chars_of, contains_char, eq_lit, find_char, find_char_exec, first_token, first_token_chars,
    has_sub, has_sub_chars, is_alphanumeric, is_whitespace, is_ws, lemma_trim_pat_len, join, join_chars, lemma_find_char_bounds,
    lemma_skip_back_bounds, lemma_skip_fwd_bounds, occurs_at_exec, push_char, skip_back,
    skip_back_exec, skip_fwd, skip_fwd_exec, starts_with_chars, ends_with_chars, string_of,
    sub_chars, trim, trim_chars, trim_end_char, trim_end_chars, trim_pat, trim_pat_chars,
    trim_start_char, trim_start_chars, views, alnum, file_stem_of, file_stem_chars, occurs_at,
    strings_of, chars_list, lemma_trim_shape,
};

verus! {

// ---------------------------------------------------------------------------
// Comments
// ---------------------------------------------------------------------------

/// Position of the first `*/` at or after `j`, or the last position where one
/// could start when there is none.
pub open spec fn block_close(s: Seq<char>, j: int) -> int
    decreases s.len() - j,
{
    if 0 <= j && j + 1 < s.len() && !(s[j] == '*' && s[j + 1] == '/') {
        block_close(s, j + 1)
    } else {
        j
    }
}

/// The text from `i` on with comments removed; `in_str` tells whether `i`
/// lies inside a string literal.  Inside a literal a backslash carries the
/// next character with it.  A line comment runs to (not including) the next
/// newline; a block comment runs through its `*/`, or to the end of the text
/// when it is never closed.
pub open spec fn strip_from(s: Seq<char>, i: int, in_str: bool) -> Seq<char>
    decreases s.len() - i,
{
    if 0 <= i < s.len() {
        let c = s[i];
        if in_str {
            if c == '\\' && i + 1 < s.len() {
                seq![c, s[i + 1]] + strip_from(s, i + 2, true)
            } else if c == '"' {
                seq![c] + strip_from(s, i + 1, false)
            } else {
                seq![c] + strip_from(s, i + 1, true)
            }
        } else if c == '/' && i + 1 < s.len() && s[i + 1] == '/' {
            proof {
                lemma_find_char_bounds(s, '\n', i + 2);
            }
            strip_from(s, find_char(s, '\n', i + 2), false)
        } else if c == '/' && i + 1 < s.len() && s[i + 1] == '*' {
            proof {
                lemma_block_close_bounds(s, i + 2);
            }
            let k = block_close(s, i + 2);
            if k + 1 < s.len() {
                strip_from(s, k + 2, false)
            } else {
                Seq::empty()
            }
        } else if c == '"' {
            seq![c] + strip_from(s, i + 1, true)
        } else {
            seq![c] + strip_from(s, i + 1, false)
        }
    } else {
        Seq::empty()
    }
}

pub proof fn lemma_block_close_bounds(s: Seq<char>, j: int)
    requires
        0 <= j,
    ensures
        j <= block_close(s, j),
        block_close(s, j) + 1 < s.len() ==> s[block_close(s, j)] == '*' && s[block_close(s, j)
            + 1] == '/',
        block_close(s, j) + 1 >= s.len() ==> block_close(s, j) == j || block_close(s, j) + 1
            == s.len(),
    decreases s.len() - j,
{
    if j + 1 < s.len() && !(s[j] == '*' && s[j + 1] == '/') {
        lemma_block_close_bounds(s, j + 1);
    }
}

proof fn lemma_strip_plain(s: Seq<char>, i: int, in_str: bool)
    requires
        0 <= i <= s.len(),
        !s.contains('/'),
    ensures
        strip_from(s, i, in_str) == s.subrange(i, s.len() as int),
    decreases s.len() - i,
{
    if i < s.len() {
        assert(s[i] != '/') by {
            if s[i] == '/' {
                assert(s.contains('/'));
            }
        }
        let c = s[i];
        if in_str && c == '\\' && i + 1 < s.len() {
            lemma_strip_plain(s, i + 2, true);
            assert(seq![c, s[i + 1]] + s.subrange(i + 2, s.len() as int) =~= s.subrange(
                i,
                s.len() as int,
            ));
        } else {
            let next = if in_str {
                c != '"'
            } else {
                c == '"'
            };
            lemma_strip_plain(s, i + 1, next);
            assert(seq![c] + s.subrange(i + 1, s.len() as int) =~= s.subrange(i, s.len() as int));
        }
    } else {
        assert(s.subrange(i, s.len() as int) =~= Seq::<char>::empty());
    }
}

/// `a` can be read off `b` in order, skipping characters of `b`.
pub open spec fn subseq_of(a: Seq<char>, b: Seq<char>) -> bool
    decreases b.len(),
{
    if a.len() == 0 {
        true
    } else if b.len() == 0 {
        false
    } else if a[0] == b[0] {
        subseq_of(a.drop_first(), b.drop_first())
    } else {
        subseq_of(a, b.drop_first())
    }
}

proof fn lemma_subseq_drop(a: Seq<char>, b: Seq<char>)
    requires
        subseq_of(a, b),
        a.len() > 0,
    ensures
        subseq_of(a.drop_first(), b),
    decreases b.len(), 0int,
{
    if b.len() > 0 {
        if a[0] == b[0] {
            if a.len() > 1 {
                lemma_subseq_drop(a.drop_first(), b.drop_first());
                lemma_subseq_skip(a.drop_first(), b.drop_first(), b[0]);
                assert(seq![b[0]] + b.drop_first() =~= b);
            }
        } else {
            lemma_subseq_drop(a, b.drop_first());
            lemma_subseq_skip(a.drop_first(), b.drop_first(), b[0]);
            assert(seq![b[0]] + b.drop_first() =~= b);
        }
    }
}

proof fn lemma_subseq_skip(a: Seq<char>, b: Seq<char>, x: char)
    requires
        subseq_of(a, b),
    ensures
        subseq_of(a, seq![x] + b),
    decreases b.len(), 1int,
{
    let xb = seq![x] + b;
    assert(xb.drop_first() =~= b);
    if a.len() > 0 && a[0] == x {
        lemma_subseq_drop(a, b);
    }
}

proof fn lemma_subseq_skip_all(a: Seq<char>, p: Seq<char>, b: Seq<char>)
    requires
        subseq_of(a, b),
    ensures
        subseq_of(a, p + b),
    decreases p.len(),
{
    if p.len() > 0 {
        lemma_subseq_skip_all(a, p.drop_first(), b);
        lemma_subseq_skip(a, p.drop_first() + b, p[0]);
        assert(seq![p[0]] + (p.drop_first() + b) =~= p + b);
    }
}

proof fn lemma_subseq_keep(c: char, a: Seq<char>, b: Seq<char>)
    requires
        subseq_of(a, b),
    ensures
        subseq_of(seq![c] + a, seq![c] + b),
{
    assert((seq![c] + a).drop_first() =~= a);
    assert((seq![c] + b).drop_first() =~= b);
}

proof fn lemma_strip_subseq(s: Seq<char>, i: int, in_str: bool)
    requires
        0 <= i <= s.len(),
    ensures
        subseq_of(strip_from(s, i, in_str), s.subrange(i, s.len() as int)),
    decreases s.len() - i,
{
    let n = s.len() as int;
    if i < n {
        let c = s[i];
        assert(s.subrange(i, n) =~= seq![c] + s.subrange(i + 1, n));
        if in_str {
            if c == '\\' && i + 1 < n {
                lemma_strip_subseq(s, i + 2, true);
                assert(s.subrange(i + 1, n) =~= seq![s[i + 1]] + s.subrange(i + 2, n));
                let rest = strip_from(s, i + 2, true);
                lemma_subseq_keep(s[i + 1], rest, s.subrange(i + 2, n));
                lemma_subseq_keep(c, seq![s[i + 1]] + rest, s.subrange(i + 1, n));
                assert(seq![c, s[i + 1]] + rest =~= seq![c] + (seq![s[i + 1]] + rest));
            } else {
                lemma_strip_subseq(s, i + 1, c != '"');
                lemma_subseq_keep(c, strip_from(s, i + 1, c != '"'), s.subrange(i + 1, n));
            }
        } else if c == '/' && i + 1 < n && s[i + 1] == '/' {
            lemma_find_char_bounds(s, '\n', i + 2);
            let j = find_char(s, '\n', i + 2);
            lemma_strip_subseq(s, j, false);
            lemma_subseq_skip_all(strip_from(s, j, false), s.subrange(i, j), s.subrange(j, n));
            assert(s.subrange(i, j) + s.subrange(j, n) =~= s.subrange(i, n));
        } else if c == '/' && i + 1 < n && s[i + 1] == '*' {
            lemma_block_close_bounds(s, i + 2);
            let k = block_close(s, i + 2);
            if k + 1 < n {
                lemma_strip_subseq(s, k + 2, false);
                lemma_subseq_skip_all(
                    strip_from(s, k + 2, false),
                    s.subrange(i, k + 2),
                    s.subrange(k + 2, n),
                );
                assert(s.subrange(i, k + 2) + s.subrange(k + 2, n) =~= s.subrange(i, n));
            }
        } else {
            lemma_strip_subseq(s, i + 1, c == '"');
            lemma_subseq_keep(c, strip_from(s, i + 1, c == '"'), s.subrange(i + 1, n));
        }
    }
}

/// Stripping comments only removes characters: what is left reads off the
/// input in order.
pub proof fn law_strip_keeps_order(s: Seq<char>)
    ensures
        subseq_of(strip_from(s, 0, false), s),
{
    lemma_strip_subseq(s, 0, false);
    assert(s.subrange(0, s.len() as int) =~= s);
}

/// Text without any `/` holds no comment, and stripping gives it back unchanged.
pub proof fn law_strip_keeps_slash_free_text(s: Seq<char>)
    requires
        !s.contains('/'),
    ensures
        strip_from(s, 0, false) == s,
{
    lemma_strip_plain(s, 0, false);
    assert(s.subrange(0, s.len() as int) =~= s);
}

/// Text with KDL comments removed; `//` and `/*` inside string literals are kept.
pub fn strip_comments(s: &str) -> (out: String)
    ensures
        out@ == strip_from(s@, 0, false),
{
    let chars = chars_of(s);
    let n = chars.len();
    let mut out = String::new();
    let mut i: usize = 0;
    let mut in_str = false;
    while i < n
        invariant
            n == chars@.len(),
            chars@ == s@,
            i <= n,
            out@ + strip_from(s@, i as int, in_str) == strip_from(s@, 0, false),
        decreases n - i,
    {
        let c = chars[i];
        if in_str {
            push_char(&mut out, c);
            if c == '\\' && i + 1 < n {
                push_char(&mut out, chars[i + 1]);
                assert(out@ + strip_from(s@, i + 2, true) =~= strip_from(s@, 0, false));
                i += 2;
                continue;
            }
            if c == '"' {
                in_str = false;
            }
            i += 1;
            continue;
        }
        if c == '/' && i + 1 < n && chars[i + 1] == '/' {
            proof {
                lemma_find_char_bounds(s@, '\n', i + 2);
            }
            i = find_char_exec(&chars, '\n', i + 2);
            continue;
        }
        if c == '/' && i + 1 < n && chars[i + 1] == '*' {
            let mut k = i + 2;
            while k < n - 1 && !(chars[k] == '*' && chars[k + 1] == '/')
                invariant
                    n == chars@.len(),
                    chars@ == s@,
                    i + 2 <= k <= n,
                    n >= 2,
                    block_close(s@, k as int) == block_close(s@, i + 2),
                decreases n - k,
            {
                k += 1;
            }
            if k < n - 1 {
                i = k + 2;
            } else {
                i = n;
            }
            continue;
        }
        if c == '"' {
            in_str = true;
        }
        push_char(&mut out, c);
        i += 1;
    }
    out
}

// ---------------------------------------------------------------------------
// Identifiers, quoted values and imports
// ---------------------------------------------------------------------------

/// Characters that may occur in a niri identifier.
pub open spec fn ident_char(c: char) -> bool {
    alnum(c) || c == '_' || c == '-' || c == '+' || c == '@' || c == '$' || c == ':' || c
        == '.' || c == '/'
}

/// `word` occurs at `i` as a whole identifier: not preceded or followed by an
/// identifier character.
pub open spec fn ident_at(s: Seq<char>, i: int, word: Seq<char>) -> bool {
    &&& 0 <= i
    &&& i + word.len() <= s.len()
    &&& s.subrange(i, i + word.len()) == word
    &&& (i == 0 || !ident_char(s[i - 1]))
    &&& (i + word.len() == s.len() || !ident_char(s[i + word.len()]))
}

/// The value of a quoted string whose body starts at `j`, up to the closing
/// quote or the end of the text; a backslash is dropped and the character
/// after it kept.
pub open spec fn quoted(s: Seq<char>, j: int) -> Seq<char>
    decreases s.len() - j,
{
    if 0 <= j < s.len() && s[j] != '"' {
        if s[j] == '\\' && j + 1 < s.len() {
            seq![s[j + 1]] + quoted(s, j + 2)
        } else {
            seq![s[j]] + quoted(s, j + 1)
        }
    } else {
        Seq::empty()
    }
}

/// The path named by an `import "..."` or `include "..."` starting at `i`.
pub open spec fn import_at(s: Seq<char>, i: int) -> Option<Seq<char>> {
    let imp = ident_at(s, i, "import"@);
    let inc = ident_at(s, i, "include"@);
    if imp || inc {
        let j = skip_fwd(s, Pat::Space, i + (if imp { "import"@.len() } else { "include"@.len() }));
        if 0 <= j < s.len() && s[j] == '"' {
            Some(quoted(s, j + 1))
        } else {
            None
        }
    } else {
        None
    }
}

/// All imported paths named at or after `i`, in order.
pub open spec fn imports_from(s: Seq<char>, i: int) -> Seq<Seq<char>>
    decreases s.len() - i,
{
    if 0 <= i < s.len() {
        (match import_at(s, i) {
            Some(p) => seq![p],
            None => Seq::empty(),
        }) + imports_from(s, i + 1)
    } else {
        Seq::empty()
    }
}

/// `char` may occur in a niri identifier.
pub fn is_ident_char(c: char) -> (b: bool)
    ensures
        b == ident_char(c),
{
    is_alphanumeric(c) || c == '_' || c == '-' || c == '+' || c == '@' || c == '$' || c == ':'
        || c == '.' || c == '/'
}

/// Whether `word` occurs at `i` in `chars` as a whole identifier.
pub fn matches_ident(chars: &Vec<char>, i: usize, word: &Vec<char>) -> (b: bool)
    ensures
        b == ident_at(chars@, i as int, word@),
{
    if i > chars.len() || word.len() > chars.len() - i {
        return false;
    }
    if !occurs_at_exec(chars, word, i) {
        return false;
    }
    if i > 0 && is_ident_char(chars[i - 1]) {
        return false;
    }
    if i + word.len() < chars.len() {
        !is_ident_char(chars[i + word.len()])
    } else {
        true
    }
}

/// Reads a quoted value whose body starts at `j`.
fn read_quoted(chars: &Vec<char>, j: usize) -> (out: Vec<char>)
    requires
        j <= chars.len(),
    ensures
        out@ == quoted(chars@, j as int),
{
    let n = chars.len();
    let mut out: Vec<char> = Vec::new();
    let mut k = j;
    while k < n && chars[k] != '"'
        invariant
            n == chars@.len(),
            j <= k <= n,
            out@ + quoted(chars@, k as int) == quoted(chars@, j as int),
        decreases n - k,
    {
        if chars[k] == '\\' && k + 1 < n {
            out.push(chars[k + 1]);
            assert(out@ + quoted(chars@, k + 2) =~= quoted(chars@, j as int));
            k += 2;
        } else {
            out.push(chars[k]);
            assert(out@ + quoted(chars@, k + 1) =~= quoted(chars@, j as int));
            k += 1;
        }
    }
    out
}

/// The files named by `import "...";` and `include "...";` directives, in order.
pub fn find_imports(s: &str) -> (out: Vec<String>)
    ensures
        views(out@) == imports_from(s@, 0),
{
    let chars = chars_of(s);
    let w_import = chars_of("import");
    let w_include = chars_of("include");
    let n = chars.len();
    let mut out: Vec<String> = Vec::new();
    let mut i: usize = 0;
    while i < n
        invariant
            n == chars@.len(),
            chars@ == s@,
            w_import@ == "import"@,
            w_include@ == "include"@,
            i <= n,
            views(out@) + imports_from(s@, i as int) == imports_from(s@, 0),
        decreases n - i,
    {
        let is_import = matches_ident(&chars, i, &w_import);
        let is_include = matches_ident(&chars, i, &w_include);
        let ghost before = views(out@);
        if is_import || is_include {
            let kw_len = if is_import { w_import.len() } else { w_include.len() };
            let j = skip_fwd_exec(&chars, &Pat::Space, i + kw_len);
            proof {
                lemma_skip_fwd_bounds(chars@, Pat::Space, i + kw_len);
            }
            if j < n && chars[j] == '"' {
                let p = read_quoted(&chars, j + 1);
                out.push(string_of(&p));
                assert(views(out@) =~= before.push(p@));
            }
        }
        assert(views(out@) + imports_from(s@, i + 1) =~= imports_from(s@, 0));
        i += 1;
    }
    out
}

// ---------------------------------------------------------------------------
// Blocks
// ---------------------------------------------------------------------------

/// Where the brace group scanned from `i` ends: just past the `}` that brings
/// the nesting `depth` back to zero, or the end of the text.  Braces inside
/// string literals do not count.
pub open spec fn brace_scan(s: Seq<char>, i: int, depth: int, in_str: bool) -> int
    decreases s.len() - i,
{
    if 0 <= i < s.len() {
        let c = s[i];
        if in_str {
            if c == '\\' && i + 1 < s.len() {
                brace_scan(s, i + 2, depth, true)
            } else if c == '"' {
                brace_scan(s, i + 1, depth, false)
            } else {
                brace_scan(s, i + 1, depth, true)
            }
        } else if c == '"' {
            brace_scan(s, i + 1, depth, true)
        } else if c == '{' {
            brace_scan(s, i + 1, depth + 1, false)
        } else if c == '}' {
            if depth - 1 == 0 {
                i + 1
            } else {
                brace_scan(s, i + 1, depth - 1, false)
            }
        } else {
            brace_scan(s, i + 1, depth, false)
        }
    } else {
        i
    }
}

/// End of the brace group that opens at `open`.
pub open spec fn brace_end(s: Seq<char>, open: int) -> int {
    brace_scan(s, open, 0, false)
}

pub proof fn lemma_brace_scan_bounds(s: Seq<char>, i: int, depth: int, in_str: bool)
    requires
        0 <= i <= s.len(),
    ensures
        i <= brace_scan(s, i, depth, in_str) <= s.len(),
        i < s.len() ==> i < brace_scan(s, i, depth, in_str),
    decreases s.len() - i,
{
    if i < s.len() {
        let c = s[i];
        if in_str {
            if c == '\\' && i + 1 < s.len() {
                lemma_brace_scan_bounds(s, i + 2, depth, true);
            } else if c == '"' {
                lemma_brace_scan_bounds(s, i + 1, depth, false);
            } else {
                lemma_brace_scan_bounds(s, i + 1, depth, true);
            }
        } else if c == '"' {
            lemma_brace_scan_bounds(s, i + 1, depth, true);
        } else if c == '{' {
            lemma_brace_scan_bounds(s, i + 1, depth + 1, false);
        } else if c == '}' {
            if depth - 1 != 0 {
                lemma_brace_scan_bounds(s, i + 1, depth - 1, false);
            }
        } else {
            lemma_brace_scan_bounds(s, i + 1, depth, false);
        }
    }
}

/// A block's inside: the text between its outer braces when it has both.
pub open spec fn unbrace(b: Seq<char>) -> Seq<char> {
    if b.len() >= 2 && b[0] == '{' && b.last() == '}' {
        b.subrange(1, b.len() - 1)
    } else {
        b
    }
}

/// The trimmed insides of every `binds { ... }` block from `i` on.
pub open spec fn binds_from(s: Seq<char>, i: int) -> Seq<Seq<char>>
    decreases s.len() - i,
{
    if 0 <= i < s.len() {
        if ident_at(s, i, "binds"@) {
            proof {
                lemma_skip_fwd_bounds(s, Pat::Space, i + "binds"@.len());
            }
            let j = skip_fwd(s, Pat::Space, i + "binds"@.len());
            if j < s.len() && s[j] == '{' {
                proof {
                    lemma_brace_scan_bounds(s, j, 0, false);
                }
                let e = brace_end(s, j);
                seq![trim(unbrace(s.subrange(j, e)))] + binds_from(s, e)
            } else {
                binds_from(s, i + 1)
            }
        } else {
            binds_from(s, i + 1)
        }
    } else {
        Seq::empty()
    }
}

/// The brace group that opens at `open` (braces included) and the position
/// just after it.
pub fn match_brace(chars: &Vec<char>, open: usize) -> (r: (String, usize))
    ensures
        r.1 == brace_end(chars@, open as int),
        open <= chars@.len() ==> r.0@ == chars@.subrange(open as int, r.1 as int),
        open > chars@.len() ==> r.0@ == Seq::<char>::empty(),
{
    let n = chars.len();
    let mut opens: usize = 0;
    let mut closes: usize = 0;
    let ghost mut depth: int = 0;
    let mut in_str = false;
    let mut i = open;
    let mut s = String::new();
    if open > n {
        return (s, open);
    }
    while i < n
        invariant
            n == chars@.len(),
            open <= i <= n,
            opens + closes <= i - open,
            depth == opens - closes,
            s@ == chars@.subrange(open as int, i as int),
            brace_scan(chars@, i as int, depth, in_str) == brace_end(chars@, open as int),
        decreases n - i,
    {
        let c = chars[i];
        if in_str {
            push_char(&mut s, c);
            if c == '\\' && i + 1 < n {
                push_char(&mut s, chars[i + 1]);
                assert(s@ =~= chars@.subrange(open as int, i + 2));
                i += 2;
                continue;
            }
            if c == '"' {
                in_str = false;
            }
            assert(s@ =~= chars@.subrange(open as int, i + 1));
            i += 1;
            continue;
        }
        if c == '"' {
            in_str = true;
            push_char(&mut s, c);
            assert(s@ =~= chars@.subrange(open as int, i + 1));
            i += 1;
            continue;
        }
        if c == '{' {
            opens += 1;
            proof {
                depth = depth + 1;
            }
        } else if c == '}' {
            if closes + 1 == opens {
                push_char(&mut s, c);
                assert(s@ =~= chars@.subrange(open as int, i + 1));
                return (s, i + 1);
            }
            closes += 1;
            proof {
                depth = depth - 1;
            }
        }
        push_char(&mut s, c);
        assert(s@ =~= chars@.subrange(open as int, i + 1));
        i += 1;
    }
    (s, i)
}

/// Appends to `out` the trimmed inside of every top-level `binds { ... }` block.
pub fn extract_binds(out: &mut Vec<String>, text: &str)
    ensures
        views(final(out)@) == views(old(out)@) + binds_from(text@, 0),
{
    let chars = chars_of(text);
    let w_binds = chars_of("binds");
    let n = chars.len();
    let mut i: usize = 0;
    while i < n
        invariant
            n == chars@.len(),
            chars@ == text@,
            w_binds@ == "binds"@,
            i <= n,
            views(out@) + binds_from(text@, i as int) == views(old(out)@) + binds_from(text@, 0),
        decreases n - i,
    {
        if matches_ident(&chars, i, &w_binds) {
            let j = skip_fwd_exec(&chars, &Pat::Space, i + w_binds.len());
            proof {
                lemma_skip_fwd_bounds(chars@, Pat::Space, i + w_binds.len());
            }
            if j < n && chars[j] == '{' {
                let (block, end) = match_brace(&chars, j);
                proof {
                    lemma_brace_scan_bounds(chars@, j as int, 0, false);
                }
                let bc = chars_of(block.as_str());
                let inner = if bc.len() >= 2 && bc[0] == '{' && bc[bc.len() - 1] == '}' {
                    sub_chars(&bc, 1, bc.len() - 1)
                } else {
                    bc
                };
                let t = trim_chars(&inner);
                let ghost before = views(out@);
                out.push(string_of(&t));
                assert(views(out@) =~= before.push(t@));
                assert(views(out@) + binds_from(text@, end as int) =~= views(old(out)@)
                    + binds_from(text@, 0));
                i = end;
                continue;
            }
        }
        i += 1;
    }
}

// ---------------------------------------------------------------------------
// Child nodes and tokens
// ---------------------------------------------------------------------------

/// The trimmed top-level child nodes of a block's inside, scanned from `i`.
/// A node ends at a top-level `;` (kept) or at the `}` closing its own braces
/// (kept); string literals and nested braces are not cut.  `buf` holds the
/// node read so far, `started` whether it has begun (a `;` before any node
/// text is dropped).
pub open spec fn split_scan(
    s: Seq<char>,
    i: int,
    in_str: bool,
    depth: int,
    buf: Seq<char>,
    started: bool,
) -> Seq<Seq<char>>
    decreases s.len() - i,
{
    if 0 <= i < s.len() {
        let c = s[i];
        if in_str {
            if c == '\\' && i + 1 < s.len() {
                split_scan(s, i + 2, true, depth, buf + seq![c, s[i + 1]], started)
            } else if c == '"' {
                split_scan(s, i + 1, false, depth, buf.push(c), started)
            } else {
                split_scan(s, i + 1, true, depth, buf.push(c), started)
            }
        } else if c == '"' {
            split_scan(s, i + 1, true, depth, buf.push(c), true)
        } else if c == '{' {
            split_scan(s, i + 1, false, depth + 1, buf.push(c), true)
        } else if c == '}' {
            if depth - 1 == 0 {
                seq![trim(buf.push(c))] + split_scan(s, i + 1, false, 0, Seq::empty(), false)
            } else {
                split_scan(s, i + 1, false, depth - 1, buf.push(c), started)
            }
        } else if c == ';' {
            if depth == 0 {
                if started {
                    seq![trim(buf.push(c))] + split_scan(s, i + 1, false, 0, Seq::empty(), false)
                } else {
                    split_scan(s, i + 1, false, 0, buf, started)
                }
            } else {
                split_scan(s, i + 1, false, depth, buf.push(c), started)
            }
        } else {
            split_scan(s, i + 1, false, depth, buf.push(c), started || !is_ws(c))
        }
    } else if started && trim(buf).len() > 0 {
        seq![trim(buf)]
    } else {
        Seq::empty()
    }
}

/// The top-level child nodes of a block's inside.
pub open spec fn split_nodes(s: Seq<char>) -> Seq<Seq<char>> {
    split_scan(s, 0, false, 0, Seq::empty(), false)
}

/// Every node produced from `buf` and the rest of the text fits in their length.
pub open spec fn nodes_fit(r: Seq<Seq<char>>, bound: int) -> bool {
    forall|k: int| 0 <= k < r.len() ==> (#[trigger] r[k]).len() <= bound
}

proof fn lemma_fit_cons(x: Seq<char>, rest: Seq<Seq<char>>, bound: int)
    requires
        x.len() <= bound,
        nodes_fit(rest, bound),
    ensures
        nodes_fit(seq![x] + rest, bound),
{
    assert forall|k: int| 0 <= k < (seq![x] + rest).len() implies (#[trigger] (seq![x]
        + rest)[k]).len() <= bound by {
        if k > 0 {
            assert((seq![x] + rest)[k] == rest[k - 1]);
        }
    }
}

/// No child node is longer than the text it was cut from.
pub proof fn lemma_split_scan_len(
    s: Seq<char>,
    i: int,
    in_str: bool,
    depth: int,
    buf: Seq<char>,
    started: bool,
)
    requires
        0 <= i <= s.len(),
    ensures
        nodes_fit(split_scan(s, i, in_str, depth, buf, started), buf.len() + s.len() - i),
    decreases s.len() - i,
{
    lemma_trim_pat_len(buf, Pat::Space);
    if i < s.len() {
        let c = s[i];
        lemma_trim_pat_len(buf.push(c), Pat::Space);
        if in_str {
            if c == '\\' && i + 1 < s.len() {
                lemma_split_scan_len(s, i + 2, true, depth, buf + seq![c, s[i + 1]], started);
            } else if c == '"' {
                lemma_split_scan_len(s, i + 1, false, depth, buf.push(c), started);
            } else {
                lemma_split_scan_len(s, i + 1, true, depth, buf.push(c), started);
            }
        } else if c == '"' {
            lemma_split_scan_len(s, i + 1, true, depth, buf.push(c), true);
        } else if c == '{' {
            lemma_split_scan_len(s, i + 1, false, depth + 1, buf.push(c), true);
        } else if c == '}' {
            if depth - 1 == 0 {
                lemma_split_scan_len(s, i + 1, false, 0, Seq::empty(), false);
                let rest = split_scan(s, i + 1, false, 0, Seq::empty(), false);
                lemma_fit_cons(trim(buf.push(c)), rest, buf.len() + s.len() - i);
            } else {
                lemma_split_scan_len(s, i + 1, false, depth - 1, buf.push(c), started);
            }
        } else if c == ';' {
            if depth == 0 {
                if started {
                    lemma_split_scan_len(s, i + 1, false, 0, Seq::empty(), false);
                    let rest = split_scan(s, i + 1, false, 0, Seq::empty(), false);
                    lemma_fit_cons(trim(buf.push(c)), rest, buf.len() + s.len() - i);
                } else {
                    lemma_split_scan_len(s, i + 1, false, 0, buf, started);
                }
            } else {
                lemma_split_scan_len(s, i + 1, false, depth, buf.push(c), started);
            }
        } else {
            lemma_split_scan_len(s, i + 1, false, depth, buf.push(c), started || !is_ws(c));
        }
    } else {
        if started && trim(buf).len() > 0 {
            lemma_fit_cons(trim(buf), Seq::empty(), buf.len() + s.len() - i);
        }
    }
}

/// A node is non-empty and has no whitespace at either end.
pub open spec fn clean_node(n: Seq<char>) -> bool {
    n.len() > 0 && !is_ws(n[0]) && !is_ws(n.last())
}

/// Every node of a list is clean.
pub open spec fn all_clean(r: Seq<Seq<char>>) -> bool {
    forall|k: int| 0 <= k < r.len() ==> clean_node(#[trigger] r[k])
}

proof fn lemma_clean_cons(x: Seq<char>, c: char, rest: Seq<Seq<char>>)
    requires
        !is_ws(c),
        all_clean(rest),
    ensures
        all_clean(seq![trim(x.push(c))] + rest),
{
    lemma_trim_shape(x.push(c));
    assert(x.push(c).last() == c);
    let r = seq![trim(x.push(c))] + rest;
    assert forall|k: int| 0 <= k < r.len() implies clean_node(#[trigger] r[k]) by {
        if k > 0 {
            assert(r[k] == rest[k - 1]);
        }
    }
}

proof fn lemma_split_scan_clean(
    s: Seq<char>,
    i: int,
    in_str: bool,
    depth: int,
    buf: Seq<char>,
    started: bool,
)
    requires
        0 <= i <= s.len(),
    ensures
        all_clean(split_scan(s, i, in_str, depth, buf, started)),
    decreases s.len() - i,
{
    let here = split_scan(s, i, in_str, depth, buf, started);
    if i < s.len() {
        let c = s[i];
        if in_str {
            if c == '\\' && i + 1 < s.len() {
                lemma_split_scan_clean(s, i + 2, true, depth, buf + seq![c, s[i + 1]], started);
                assert(here == split_scan(s, i + 2, true, depth, buf + seq![c, s[i + 1]], started));
            } else if c == '"' {
                lemma_split_scan_clean(s, i + 1, false, depth, buf.push(c), started);
                assert(here == split_scan(s, i + 1, false, depth, buf.push(c), started));
            } else {
                lemma_split_scan_clean(s, i + 1, true, depth, buf.push(c), started);
                assert(here == split_scan(s, i + 1, true, depth, buf.push(c), started));
            }
        } else if c == '"' {
            lemma_split_scan_clean(s, i + 1, true, depth, buf.push(c), true);
            assert(here == split_scan(s, i + 1, true, depth, buf.push(c), true));
        } else if c == '{' {
            lemma_split_scan_clean(s, i + 1, false, depth + 1, buf.push(c), true);
            assert(here == split_scan(s, i + 1, false, depth + 1, buf.push(c), true));
        } else if c == '}' {
            if depth - 1 == 0 {
                let rest = split_scan(s, i + 1, false, 0, Seq::empty(), false);
                lemma_split_scan_clean(s, i + 1, false, 0, Seq::empty(), false);
                lemma_clean_cons(buf, c, rest);
                assert(here == seq![trim(buf.push(c))] + rest);
            } else {
                lemma_split_scan_clean(s, i + 1, false, depth - 1, buf.push(c), started);
                assert(here == split_scan(s, i + 1, false, depth - 1, buf.push(c), started));
            }
        } else if c == ';' {
            if depth == 0 {
                if started {
                    let rest = split_scan(s, i + 1, false, 0, Seq::empty(), false);
                    lemma_split_scan_clean(s, i + 1, false, 0, Seq::empty(), false);
                    lemma_clean_cons(buf, c, rest);
                    assert(here == seq![trim(buf.push(c))] + rest);
                } else {
                    lemma_split_scan_clean(s, i + 1, false, 0, buf, started);
                    assert(here == split_scan(s, i + 1, false, 0, buf, started));
                }
            } else {
                lemma_split_scan_clean(s, i + 1, false, depth, buf.push(c), started);
                assert(here == split_scan(s, i + 1, false, depth, buf.push(c), started));
            }
        } else {
            lemma_split_scan_clean(s, i + 1, false, depth, buf.push(c), started || !is_ws(c));
            assert(here == split_scan(s, i + 1, false, depth, buf.push(c), started || !is_ws(c)));
        }
    } else {
        lemma_trim_shape(buf);
        if started && trim(buf).len() > 0 {
            assert(here == seq![trim(buf)]);
            assert(here[0] == trim(buf));
        } else {
            assert(here == Seq::<Seq<char>>::empty());
        }
    }
}

/// Every child node cut from a block is non-empty and has no whitespace at
/// either end.
pub proof fn law_split_nodes_are_trimmed(s: Seq<char>)
    ensures
        all_clean(split_nodes(s)),
{
    lemma_split_scan_clean(s, 0, false, 0, Seq::empty(), false);
}

/// Cuts a block's inside into its trimmed top-level child nodes.
pub fn split_child_nodes(s: &str) -> (out: Vec<String>)
    ensures
        views(out@) == split_nodes(s@),
{
    let chars = chars_of(s);
    let out = split_chars(&chars);
    let mut res: Vec<String> = Vec::new();
    let mut k: usize = 0;
    while k < out.len()
        invariant
            k <= out.len(),
            views(res@) == out@.take(k as int).map_values(|p: Vec<char>| p@),
        decreases out.len() - k,
    {
        let ghost prev = views(res@);
        res.push(string_of(&out[k]));
        assert(views(res@) =~= prev.push(out@[k as int]@));
        assert(out@.take(k + 1).map_values(|p: Vec<char>| p@) =~= out@.take(k as int).map_values(
            |p: Vec<char>| p@,
        ).push(out@[k as int]@));
        k += 1;
    }
    assert(out@.take(out.len() as int) =~= out@);
    res
}

/// The character-level cut behind `split_child_nodes`.
pub fn split_chars(chars: &Vec<char>) -> (out: Vec<Vec<char>>)
    ensures
        out@.map_values(|p: Vec<char>| p@) == split_nodes(chars@),
{
    let n = chars.len();
    let mut out: Vec<Vec<char>> = Vec::new();
    let mut in_str = false;
    let mut opens: usize = 0;
    let mut closes: usize = 0;
    let ghost mut depth: int = 0;
    let mut buf: Vec<char> = Vec::new();
    let mut started = false;
    let mut i: usize = 0;
    while i < n
        invariant
            n == chars@.len(),
            i <= n,
            opens + closes <= i,
            depth == opens - closes,
            out@.map_values(|p: Vec<char>| p@) + split_scan(
                chars@,
                i as int,
                in_str,
                depth,
                buf@,
                started,
            ) == split_nodes(chars@),
        decreases n - i,
    {
        let c = chars[i];
        let ghost before = out@.map_values(|p: Vec<char>| p@);
        let ghost old_buf = buf@;
        if in_str {
            buf.push(c);
            if c == '\\' && i + 1 < n {
                buf.push(chars[i + 1]);
                assert(buf@ =~= old_buf + seq![c, chars@[i + 1]]);
                i += 2;
                continue;
            }
            if c == '"' {
                in_str = false;
            }
            i += 1;
            continue;
        }
        if c == '"' {
            in_str = true;
            started = true;
            buf.push(c);
            i += 1;
        } else if c == '{' {
            started = true;
            opens += 1;
            proof {
                depth = depth + 1;
            }
            buf.push(c);
            i += 1;
        } else if c == '}' {
            buf.push(c);
            if closes + 1 == opens {
                let t = trim_chars(&buf);
                out.push(t);
                buf = Vec::new();
                started = false;
                assert(out@.map_values(|p: Vec<char>| p@) =~= before.push(trim(old_buf.push(c))));
                assert(out@.map_values(|p: Vec<char>| p@) + split_scan(
                    chars@,
                    i + 1,
                    false,
                    0,
                    buf@,
                    false,
                ) =~= split_nodes(chars@));
            }
            closes += 1;
            proof {
                depth = depth - 1;
            }
            i += 1;
        } else if c == ';' {
            if opens == closes {
                if started {
                    buf.push(c);
                    let t = trim_chars(&buf);
                    out.push(t);
                    buf = Vec::new();
                    started = false;
                    assert(out@.map_values(|p: Vec<char>| p@) =~= before.push(
                        trim(old_buf.push(c)),
                    ));
                    assert(out@.map_values(|p: Vec<char>| p@) + split_scan(
                        chars@,
                        i + 1,
                        false,
                        0,
                        buf@,
                        false,
                    ) =~= split_nodes(chars@));
                }
                i += 1;
            } else {
                buf.push(c);
                i += 1;
            }
        } else {
            if !started && !is_whitespace(c) {
                started = true;
            }
            buf.push(c);
            i += 1;
        }
    }
    let ghost before = out@.map_values(|p: Vec<char>| p@);
    let t = trim_chars(&buf);
    if started && t.len() > 0 {
        out.push(t);
        assert(out@.map_values(|p: Vec<char>| p@) =~= before.push(t@));
    } else {
        assert(before + Seq::<Seq<char>>::empty() =~= before);
    }
    out
}

/// Whitespace-separated tokens from `i` on; a quoted string is one token
/// with its quotes, whitespace inside it included, and a backslash inside
/// it keeps the next character (an escaped quote does not end it).  `cur`
/// is the token read so far.
pub open spec fn tok_scan(s: Seq<char>, i: int, in_str: bool, cur: Seq<char>) -> Seq<Seq<char>>
    decreases s.len() - i,
{
    if 0 <= i < s.len() {
        let c = s[i];
        if in_str {
            if c == '\\' && i + 1 < s.len() {
                tok_scan(s, i + 2, true, cur.push(c).push(s[i + 1]))
            } else {
                tok_scan(s, i + 1, c != '"', cur.push(c))
            }
        } else if c == '"' {
            tok_scan(s, i + 1, true, cur.push(c))
        } else if is_ws(c) {
            if cur.len() > 0 {
                seq![cur] + tok_scan(s, i + 1, false, Seq::empty())
            } else {
                tok_scan(s, i + 1, false, cur)
            }
        } else {
            tok_scan(s, i + 1, false, cur.push(c))
        }
    } else if cur.len() > 0 {
        seq![cur]
    } else {
        Seq::empty()
    }
}

/// The tokens of a text.
pub open spec fn tokens(s: Seq<char>) -> Seq<Seq<char>> {
    tok_scan(s, 0, false, Seq::empty())
}

fn tokenize_chars(v: &Vec<char>) -> (out: Vec<Vec<char>>)
    ensures
        out@.map_values(|p: Vec<char>| p@) == tokens(v@),
{
    let n = v.len();
    let mut out: Vec<Vec<char>> = Vec::new();
    let mut cur: Vec<char> = Vec::new();
    let mut in_str = false;
    let mut i: usize = 0;
    while i < n
        invariant
            n == v@.len(),
            i <= n,
            out@.map_values(|p: Vec<char>| p@) + tok_scan(v@, i as int, in_str, cur@) == tokens(
                v@,
            ),
        decreases n - i,
    {
        let c = v[i];
        let ghost before = out@.map_values(|p: Vec<char>| p@);
        if in_str {
            cur.push(c);
            if c == '\\' && i + 1 < n {
                cur.push(v[i + 1]);
                i += 1;
            } else if c == '"' {
                in_str = false;
            }
        } else if c == '"' {
            in_str = true;
            cur.push(c);
        } else if is_whitespace(c) {
            if cur.len() > 0 {
                let ghost t = cur@;
                let done = cur;
                out.push(done);
                cur = Vec::new();
                assert(out@.map_values(|p: Vec<char>| p@) =~= before.push(t));
                assert(out@.map_values(|p: Vec<char>| p@) + tok_scan(v@, i + 1, false, cur@)
                    =~= tokens(v@));
            }
        } else {
            cur.push(c);
        }
        i += 1;
    }
    let ghost before = out@.map_values(|p: Vec<char>| p@);
    if cur.len() > 0 {
        let ghost t = cur@;
        out.push(cur);
        assert(out@.map_values(|p: Vec<char>| p@) =~= before.push(t));
    } else {
        assert(before + Seq::<Seq<char>>::empty() =~= before);
    }
    out
}

/// Splits a line into whitespace-separated tokens, keeping quoted strings whole.
pub fn tokenize(text: &str) -> (out: Vec<String>)
    ensures
        views(out@) == tokens(text@),
{
    let v = chars_of(text);
    let toks = tokenize_chars(&v);
    strings_of(&toks)
}

/// An argument token without trailing `;` and surrounding quotes.
pub open spec fn clean_arg(t: Seq<char>) -> Seq<char> {
    trim_pat(trim_end_char(t, ';'), Pat::Ch('"'))
}

/// The positional arguments among argument tokens: `key=value` properties are left out.
pub open spec fn clean_args(toks: Seq<Seq<char>>) -> Seq<Seq<char>>
    decreases toks.len(),
{
    if toks.len() == 0 {
        Seq::empty()
    } else {
        let a = clean_arg(toks[0]);
        (if a.contains('=') {
            Seq::empty()
        } else {
            seq![a]
        }) + clean_args(toks.drop_first())
    }
}

/// An action node's name (first token, trailing `;` removed) and positional arguments.
pub open spec fn parse_action(text: Seq<char>) -> (Seq<char>, Seq<Seq<char>>) {
    let toks = tokens(text);
    if toks.len() > 0 {
        (trim_end_char(toks[0], ';'), clean_args(toks.drop_first()))
    } else {
        (Seq::empty(), Seq::empty())
    }
}

fn parse_action_chars(text: &Vec<char>) -> (r: (Vec<char>, Vec<Vec<char>>))
    ensures
        r.0@ == parse_action(text@).0,
        r.1@.map_values(|p: Vec<char>| p@) == parse_action(text@).1,
{
    let toks = tokenize_chars(text);
    let ghost tv = toks@.map_values(|p: Vec<char>| p@);
    if toks.len() == 0 {
        return (Vec::new(), Vec::new());
    }
    let name = trim_end_chars(&toks[0], ';');
    let mut args: Vec<Vec<char>> = Vec::new();
    let mut k: usize = 1;
    assert(tv.subrange(1, tv.len() as int) =~= tv.drop_first());
    while k < toks.len()
        invariant
            1 <= k <= toks.len(),
            tv == toks@.map_values(|p: Vec<char>| p@),
            args@.map_values(|p: Vec<char>| p@) + clean_args(tv.subrange(k as int, tv.len() as int))
                == clean_args(tv.drop_first()),
        decreases toks.len() - k,
    {
        let ghost before = args@.map_values(|p: Vec<char>| p@);
        let ghost rest = tv.subrange(k as int, tv.len() as int);
        assert(rest.drop_first() =~= tv.subrange(k + 1, tv.len() as int));
        let a0 = trim_end_chars(&toks[k], ';');
        let a = trim_pat_chars(&a0, &Pat::Ch('"'));
        if !contains_char(&a, '=') {
            let ghost av = a@;
            args.push(a);
            assert(args@.map_values(|p: Vec<char>| p@) =~= before.push(av));
            assert(args@.map_values(|p: Vec<char>| p@) + clean_args(rest.drop_first()) =~= before
                + clean_args(rest));
        } else {
            assert(before + clean_args(rest.drop_first()) =~= before + clean_args(rest));
        }
        k += 1;
    }
    (name, args)
}

/// Splits an action node into its name and positional arguments:
/// `spawn "keytip";` gives `("spawn", ["keytip"])`.
pub fn parse_action_node(text: &str) -> (r: (String, Vec<String>))
    ensures
        r.0@ == parse_action(text@).0,
        views(r.1@) == parse_action(text@).1,
{
    let v = chars_of(text);
    let (name, args) = parse_action_chars(&v);
    (string_of(&name), strings_of(&args))
}

/// A node's key combination: the first token before its block.
pub open spec fn combo_spec(node: Seq<char>) -> Seq<char> {
    let t = trim(node);
    first_token(trim(t.subrange(0, find_char(t, '{', 0))))
}

fn combo_chars(node: &Vec<char>) -> (out: Vec<char>)
    ensures
        out@ == combo_spec(node@),
{
    let t = trim_chars(node);
    let idx = find_char_exec(&t, '{', 0);
    proof {
        lemma_find_char_bounds(t@, '{', 0);
    }
    let head = sub_chars(&t, 0, idx);
    let th = trim_chars(&head);
    first_token_chars(&th)
}

/// The key combination of a binding node (the first token before its block).
pub fn combo_of(node: &str) -> (out: String)
    ensures
        out@ == combo_spec(node@),
{
    let v = chars_of(node);
    string_of(&combo_chars(&v))
}

/// The inside of a node's block: after the first `{`, without trailing `}`s, trimmed.
pub open spec fn block_inside(t: Seq<char>, idx: int) -> Seq<char> {
    trim(trim_end_char(t.subrange(idx + 1, t.len() as int), '}'))
}

fn block_inside_chars(t: &Vec<char>, idx: usize) -> (out: Vec<char>)
    requires
        idx < t.len(),
    ensures
        out@ == block_inside(t@, idx as int),
{
    let tail = sub_chars(t, idx + 1, t.len());
    let cut = trim_end_chars(&tail, '}');
    trim_chars(&cut)
}

/// The first child node that has an action name gives that name.
pub open spec fn first_named(cs: Seq<Seq<char>>) -> Seq<char>
    decreases cs.len(),
{
    if cs.len() == 0 {
        Seq::empty()
    } else {
        let c = trim(cs[0]);
        if c.len() > 0 && parse_action(c).0.len() > 0 {
            parse_action(c).0
        } else {
            first_named(cs.drop_first())
        }
    }
}

/// The name of a binding's first action (used for its category and action field).
pub open spec fn first_action_spec(node: Seq<char>) -> Seq<char> {
    let t = trim(node);
    let idx = find_char(t, '{', 0);
    if idx < t.len() {
        first_named(split_nodes(block_inside(t, idx)))
    } else {
        parse_action(t).0
    }
}

fn first_action_chars(node: &Vec<char>) -> (out: Vec<char>)
    ensures
        out@ == first_action_spec(node@),
{
    let t = trim_chars(node);
    let idx = find_char_exec(&t, '{', 0);
    proof {
        lemma_find_char_bounds(t@, '{', 0);
    }
    if idx < t.len() {
        let inner = block_inside_chars(&t, idx);
        let children = split_chars(&inner);
        let ghost cv = children@.map_values(|p: Vec<char>| p@);
        let mut k: usize = 0;
        assert(cv.subrange(0, cv.len() as int) =~= cv);
        while k < children.len()
            invariant
                k <= children.len(),
                cv == children@.map_values(|p: Vec<char>| p@),
                cv == split_nodes(inner@),
                first_named(cv) == first_action_spec(node@),
                first_named(cv.subrange(k as int, cv.len() as int)) == first_named(cv),
            decreases children.len() - k,
        {
            let ghost rest = cv.subrange(k as int, cv.len() as int);
            assert(rest.drop_first() =~= cv.subrange(k + 1, cv.len() as int));
            assert(rest[0] == children@[k as int]@);
            let c = trim_chars(&children[k]);
            if c.len() > 0 {
                let (name, _) = parse_action_chars(&c);
                if name.len() > 0 {
                    assert(first_named(rest) == name@);
                    return name;
                }
            }
            k += 1;
        }
        assert(cv.subrange(k as int, cv.len() as int) =~= Seq::<Seq<char>>::empty());
        Vec::new()
    } else {
        let (name, _) = parse_action_chars(&t);
        name
    }
}

/// The name of a binding's first action (used for its category and action field).
pub fn first_action_name(node: &str) -> (out: String)
    ensures
        out@ == first_action_spec(node@),
{
    let v = chars_of(node);
    string_of(&first_action_chars(&v))
}

// ---------------------------------------------------------------------------
// Translation tables
// ---------------------------------------------------------------------------

/// Chinese name of a dms IPC module, empty when unknown.
pub open spec fn dms_module_spec(m: Seq<char>) -> Seq<char> {
    if m == "spotlight"@ {
        "启动器"@
    } else if m == "clipboard"@ {
        "剪贴板"@
    } else if m == "processlist"@ {
        "进程列表"@
    } else if m == "powermenu"@ {
        "电源菜单"@
    } else if m == "settings"@ {
        "设置"@
    } else if m == "dankdash"@ {
        "壁纸"@
    } else if m == "notifications"@ {
        "通知中心"@
    } else if m == "notepad"@ {
        "便签"@
    } else if m == "lock"@ {
        "锁屏"@
    } else if m == "audio"@ {
        "音量"@
    } else if m == "mic"@ || m == "microphone"@ {
        "麦克风"@
    } else if m == "mpris"@ {
        "媒体播放"@
    } else if m == "brightness"@ {
        "亮度"@
    } else {
        Seq::empty()
    }
}

/// Chinese name of a dms IPC module, empty when unknown.
pub fn dms_module(m: &str) -> (r: &'static str)
    ensures
        r@ == dms_module_spec(m@),
{
    let v = chars_of(m);
    dms_module_chars(&v)
}

fn dms_module_chars(m: &Vec<char>) -> (r: &'static str)
    ensures
        r@ == dms_module_spec(m@),
{
    if eq_lit(m, "spotlight") {
        "启动器"
    } else if eq_lit(m, "clipboard") {
        "剪贴板"
    } else if eq_lit(m, "processlist") {
        "进程列表"
    } else if eq_lit(m, "powermenu") {
        "电源菜单"
    } else if eq_lit(m, "settings") {
        "设置"
    } else if eq_lit(m, "dankdash") {
        "壁纸"
    } else if eq_lit(m, "notifications") {
        "通知中心"
    } else if eq_lit(m, "notepad") {
        "便签"
    } else if eq_lit(m, "lock") {
        "锁屏"
    } else if eq_lit(m, "audio") {
        "音量"
    } else if eq_lit(m, "mic") || eq_lit(m, "microphone") {
        "麦克风"
    } else if eq_lit(m, "mpris") {
        "媒体播放"
    } else if eq_lit(m, "brightness") {
        "亮度"
    } else {
        proof {
            reveal_strlit("");
        }
        ""
    }
}
/// Chinese name of a dms IPC action, empty when unknown.
pub open spec fn dms_action_spec(a: Seq<char>) -> Seq<char> {
    if a == "toggle"@ {
        "切换"@
    } else if a == "focusOrToggle"@ {
        "聚焦/切换"@
    } else if a == "increment"@ {
        "增加"@
    } else if a == "decrement"@ {
        "减少"@
    } else if a == "mute"@ {
        "静音"@
    } else if a == "micmute"@ {
        "麦克风静音"@
    } else if a == "playPause"@ {
        "播放/暂停"@
    } else if a == "previous"@ {
        "上一个"@
    } else if a == "next"@ {
        "下一个"@
    } else if a == "lock"@ {
        "锁定"@
    } else if a == "wallpaper"@ {
        "切换壁纸"@
    } else {
        Seq::empty()
    }
}

/// Chinese name of a dms IPC action, empty when unknown.
pub fn dms_action(a: &str) -> (r: &'static str)
    ensures
        r@ == dms_action_spec(a@),
{
    let v = chars_of(a);
    dms_action_chars(&v)
}

fn dms_action_chars(a: &Vec<char>) -> (r: &'static str)
    ensures
        r@ == dms_action_spec(a@),
{
    if eq_lit(a, "toggle") {
        "切换"
    } else if eq_lit(a, "focusOrToggle") {
        "聚焦/切换"
    } else if eq_lit(a, "increment") {
        "增加"
    } else if eq_lit(a, "decrement") {
        "减少"
    } else if eq_lit(a, "mute") {
        "静音"
    } else if eq_lit(a, "micmute") {
        "麦克风静音"
    } else if eq_lit(a, "playPause") {
        "播放/暂停"
    } else if eq_lit(a, "previous") {
        "上一个"
    } else if eq_lit(a, "next") {
        "下一个"
    } else if eq_lit(a, "lock") {
        "锁定"
    } else if eq_lit(a, "wallpaper") {
        "切换壁纸"
    } else {
        proof {
            reveal_strlit("");
        }
        ""
    }
}
/// Display name for a known program stem.
pub open spec fn alias_spec(stem: Seq<char>) -> Option<Seq<char>> {
    if stem == "kitty"@ || stem == "alacritty"@ || stem == "wezterm"@ || stem == "foot"@ {
        Some("终端"@)
    } else if stem == "zen-browser"@ || stem == "zen"@ || stem == "firefox"@ || stem == "chrome"@ || stem == "chromium"@ || stem == "brave"@ {
        Some("浏览器"@)
    } else if stem == "feishu"@ {
        Some("飞书"@)
    } else if stem == "telegram"@ || stem == "telegram-desktop"@ {
        Some("Telegram"@)
    } else if stem == "wechat"@ || stem == "wechat-uos"@ {
        Some("微信"@)
    } else if stem == "code"@ || stem == "code-oss"@ || stem == "codium"@ {
        Some("VS Code"@)
    } else if stem == "nvim"@ || stem == "vim"@ || stem == "neovide"@ {
        Some("Neovim"@)
    } else if stem == "nautilus"@ || stem == "thunar"@ || stem == "dolphin"@ || stem == "pcmanfm"@ {
        Some("文件管理器"@)
    } else if stem == "kando"@ {
        Some("Kando 径向菜单"@)
    } else if stem == "mark-shot"@ || stem == "grim"@ || stem == "satty"@ || stem == "slurp"@ {
        Some("截图工具"@)
    } else if stem == "keytip"@ {
        Some("KeyTip 快捷键提示"@)
    } else {
        None
    }
}

/// Display name for a known program stem.
pub fn alias_chars(stem: &Vec<char>) -> (r: Option<&'static str>)
    ensures
        match r {
            Some(x) => alias_spec(stem@) == Some(x@),
            None => alias_spec(stem@) is None,
        },
{
    if eq_lit(stem, "kitty") || eq_lit(stem, "alacritty") || eq_lit(stem, "wezterm") || eq_lit(stem, "foot") {
        Some("终端")
    } else if eq_lit(stem, "zen-browser") || eq_lit(stem, "zen") || eq_lit(stem, "firefox") || eq_lit(stem, "chrome") || eq_lit(stem, "chromium") || eq_lit(stem, "brave") {
        Some("浏览器")
    } else if eq_lit(stem, "feishu") {
        Some("飞书")
    } else if eq_lit(stem, "telegram") || eq_lit(stem, "telegram-desktop") {
        Some("Telegram")
    } else if eq_lit(stem, "wechat") || eq_lit(stem, "wechat-uos") {
        Some("微信")
    } else if eq_lit(stem, "code") || eq_lit(stem, "code-oss") || eq_lit(stem, "codium") {
        Some("VS Code")
    } else if eq_lit(stem, "nvim") || eq_lit(stem, "vim") || eq_lit(stem, "neovide") {
        Some("Neovim")
    } else if eq_lit(stem, "nautilus") || eq_lit(stem, "thunar") || eq_lit(stem, "dolphin") || eq_lit(stem, "pcmanfm") {
        Some("文件管理器")
    } else if eq_lit(stem, "kando") {
        Some("Kando 径向菜单")
    } else if eq_lit(stem, "mark-shot") || eq_lit(stem, "grim") || eq_lit(stem, "satty") || eq_lit(stem, "slurp") {
        Some("截图工具")
    } else if eq_lit(stem, "keytip") {
        Some("KeyTip 快捷键提示")
    } else {
        None
    }
}
/// Fixed Chinese description of an argument-free niri action.
pub open spec fn fixed_action_spec(name: Seq<char>) -> Option<Seq<char>> {
    if name == "close"@ || name == "close-window"@ {
        Some("关闭窗口"@)
    } else if name == "quit"@ {
        Some("退出 niri"@)
    } else if name == "toggle-overview"@ {
        Some("切换总览"@)
    } else if name == "show-hotkey-overlay"@ {
        Some("显示快捷键浮层"@)
    } else if name == "set-column-width"@ {
        Some("设置列宽"@)
    } else if name == "toggle-column-tabbed-display"@ {
        Some("切换列标签显示"@)
    } else if name == "switch-focus-between-floating-and-tiling"@ {
        Some("浮动/平铺间切换焦点"@)
    } else if name == "focus-window-left"@ {
        Some("聚焦左侧窗口"@)
    } else if name == "focus-window-right"@ {
        Some("聚焦右侧窗口"@)
    } else if name == "focus-window-up"@ {
        Some("聚焦上方窗口"@)
    } else if name == "focus-window-down"@ {
        Some("聚焦下方窗口"@)
    } else if name == "move-window-left"@ {
        Some("窗口移向左侧"@)
    } else if name == "move-window-right"@ {
        Some("窗口移向右侧"@)
    } else if name == "move-window-up"@ {
        Some("窗口移向上方"@)
    } else if name == "move-window-down"@ {
        Some("窗口移向下方"@)
    } else if name == "swap-windows"@ {
        Some("交换窗口"@)
    } else if name == "column-left"@ {
        Some("列左移"@)
    } else if name == "column-right"@ {
        Some("列右移"@)
    } else if name == "focus-column-left"@ {
        Some("聚焦左列"@)
    } else if name == "focus-column-right"@ {
        Some("聚焦右列"@)
    } else if name == "move-column-left"@ {
        Some("列移向左"@)
    } else if name == "move-column-right"@ {
        Some("列移向右"@)
    } else if name == "move-column-to-first"@ {
        Some("列移到最左"@)
    } else if name == "move-column-to-last"@ {
        Some("列移到最右"@)
    } else if name == "center-column"@ {
        Some("列居中"@)
    } else if name == "consume-or-expel-window-left"@ {
        Some("吞入/吐出窗口（左）"@)
    } else if name == "consume-or-expel-window-right"@ {
        Some("吞入/吐出窗口（右）"@)
    } else if name == "toggle-column-tabbed"@ {
        Some("切换列标签排布"@)
    } else if name == "toggle-column-tiled"@ {
        Some("切换列平铺排布"@)
    } else if name == "focus-monitor-left"@ {
        Some("聚焦左显示器"@)
    } else if name == "focus-monitor-right"@ {
        Some("聚焦右显示器"@)
    } else if name == "focus-monitor-up"@ {
        Some("聚焦上显示器"@)
    } else if name == "focus-monitor-down"@ {
        Some("聚焦下显示器"@)
    } else if name == "move-window-to-monitor-left"@ {
        Some("窗口移到左显示器"@)
    } else if name == "move-window-to-monitor-right"@ {
        Some("窗口移到右显示器"@)
    } else if name == "move-window-to-monitor-up"@ {
        Some("窗口移到上显示器"@)
    } else if name == "move-window-to-monitor-down"@ {
        Some("窗口移到下显示器"@)
    } else if name == "move-to-workspace-down"@ || name == "move-to-workspace-up"@ {
        Some("移动至相邻工作区"@)
    } else if name == "workspace"@ {
        Some("新建工作区"@)
    } else if name == "workspace-up"@ {
        Some("上一工作区"@)
    } else if name == "workspace-down"@ {
        Some("下一工作区"@)
    } else if name == "screenshot"@ {
        Some("截图"@)
    } else if name == "screenshot-screen"@ {
        Some("截取屏幕"@)
    } else if name == "screenshot-window"@ {
        Some("截取窗口"@)
    } else if name == "toggle-fullscreen"@ {
        Some("切换全屏"@)
    } else if name == "fullscreen"@ || name == "fullscreen-window"@ {
        Some("全屏窗口"@)
    } else if name == "reset-window-height"@ {
        Some("重置窗口高度"@)
    } else if name == "toggle-keyboard-shortcuts-inhibit"@ {
        Some("禁止/允许键盘快捷键穿透"@)
    } else if name == "next-window"@ {
        Some("切换到下一个窗口"@)
    } else if name == "previous-window"@ {
        Some("切换到上一个窗口"@)
    } else if name == "toggle-window-floating"@ {
        Some("切换窗口浮动"@)
    } else if name == "set-window-floating"@ {
        Some("设为浮动窗口"@)
    } else if name == "maximize-column"@ {
        Some("最大化列"@)
    } else if name == "toggle-window-always-on-top"@ {
        Some("切换窗口置顶"@)
    } else if name == "set-window-always-on-top"@ {
        Some("窗口置顶"@)
    } else {
        None
    }
}

/// Fixed Chinese description of an argument-free niri action.
pub fn fixed_action_chars(name: &Vec<char>) -> (r: Option<&'static str>)
    ensures
        match r {
            Some(x) => fixed_action_spec(name@) == Some(x@),
            None => fixed_action_spec(name@) is None,
        },
{
    if eq_lit(name, "close") || eq_lit(name, "close-window") {
        Some("关闭窗口")
    } else if eq_lit(name, "quit") {
        Some("退出 niri")
    } else if eq_lit(name, "toggle-overview") {
        Some("切换总览")
    } else if eq_lit(name, "show-hotkey-overlay") {
        Some("显示快捷键浮层")
    } else if eq_lit(name, "set-column-width") {
        Some("设置列宽")
    } else if eq_lit(name, "toggle-column-tabbed-display") {
        Some("切换列标签显示")
    } else if eq_lit(name, "switch-focus-between-floating-and-tiling") {
        Some("浮动/平铺间切换焦点")
    } else if eq_lit(name, "focus-window-left") {
        Some("聚焦左侧窗口")
    } else if eq_lit(name, "focus-window-right") {
        Some("聚焦右侧窗口")
    } else if eq_lit(name, "focus-window-up") {
        Some("聚焦上方窗口")
    } else if eq_lit(name, "focus-window-down") {
        Some("聚焦下方窗口")
    } else if eq_lit(name, "move-window-left") {
        Some("窗口移向左侧")
    } else if eq_lit(name, "move-window-right") {
        Some("窗口移向右侧")
    } else if eq_lit(name, "move-window-up") {
        Some("窗口移向上方")
    } else if eq_lit(name, "move-window-down") {
        Some("窗口移向下方")
    } else if eq_lit(name, "swap-windows") {
        Some("交换窗口")
    } else if eq_lit(name, "column-left") {
        Some("列左移")
    } else if eq_lit(name, "column-right") {
        Some("列右移")
    } else if eq_lit(name, "focus-column-left") {
        Some("聚焦左列")
    } else if eq_lit(name, "focus-column-right") {
        Some("聚焦右列")
    } else if eq_lit(name, "move-column-left") {
        Some("列移向左")
    } else if eq_lit(name, "move-column-right") {
        Some("列移向右")
    } else if eq_lit(name, "move-column-to-first") {
        Some("列移到最左")
    } else if eq_lit(name, "move-column-to-last") {
        Some("列移到最右")
    } else if eq_lit(name, "center-column") {
        Some("列居中")
    } else if eq_lit(name, "consume-or-expel-window-left") {
        Some("吞入/吐出窗口（左）")
    } else if eq_lit(name, "consume-or-expel-window-right") {
        Some("吞入/吐出窗口（右）")
    } else if eq_lit(name, "toggle-column-tabbed") {
        Some("切换列标签排布")
    } else if eq_lit(name, "toggle-column-tiled") {
        Some("切换列平铺排布")
    } else if eq_lit(name, "focus-monitor-left") {
        Some("聚焦左显示器")
    } else if eq_lit(name, "focus-monitor-right") {
        Some("聚焦右显示器")
    } else if eq_lit(name, "focus-monitor-up") {
        Some("聚焦上显示器")
    } else if eq_lit(name, "focus-monitor-down") {
        Some("聚焦下显示器")
    } else if eq_lit(name, "move-window-to-monitor-left") {
        Some("窗口移到左显示器")
    } else if eq_lit(name, "move-window-to-monitor-right") {
        Some("窗口移到右显示器")
    } else if eq_lit(name, "move-window-to-monitor-up") {
        Some("窗口移到上显示器")
    } else if eq_lit(name, "move-window-to-monitor-down") {
        Some("窗口移到下显示器")
    } else if eq_lit(name, "move-to-workspace-down") || eq_lit(name, "move-to-workspace-up") {
        Some("移动至相邻工作区")
    } else if eq_lit(name, "workspace") {
        Some("新建工作区")
    } else if eq_lit(name, "workspace-up") {
        Some("上一工作区")
    } else if eq_lit(name, "workspace-down") {
        Some("下一工作区")
    } else if eq_lit(name, "screenshot") {
        Some("截图")
    } else if eq_lit(name, "screenshot-screen") {
        Some("截取屏幕")
    } else if eq_lit(name, "screenshot-window") {
        Some("截取窗口")
    } else if eq_lit(name, "toggle-fullscreen") {
        Some("切换全屏")
    } else if eq_lit(name, "fullscreen") || eq_lit(name, "fullscreen-window") {
        Some("全屏窗口")
    } else if eq_lit(name, "reset-window-height") {
        Some("重置窗口高度")
    } else if eq_lit(name, "toggle-keyboard-shortcuts-inhibit") {
        Some("禁止/允许键盘快捷键穿透")
    } else if eq_lit(name, "next-window") {
        Some("切换到下一个窗口")
    } else if eq_lit(name, "previous-window") {
        Some("切换到上一个窗口")
    } else if eq_lit(name, "toggle-window-floating") {
        Some("切换窗口浮动")
    } else if eq_lit(name, "set-window-floating") {
        Some("设为浮动窗口")
    } else if eq_lit(name, "maximize-column") {
        Some("最大化列")
    } else if eq_lit(name, "toggle-window-always-on-top") {
        Some("切换窗口置顶")
    } else if eq_lit(name, "set-window-always-on-top") {
        Some("窗口置顶")
    } else {
        None
    }
}
/// Chinese description of a niri action that may name its first argument.
pub open spec fn arg_action_spec(name: Seq<char>) -> Option<Seq<char>> {
    if name == "switch-workspace"@ || name == "focus-workspace"@ {
        Some("切换工作区"@)
    } else if name == "move-to-workspace"@ {
        Some("移动至工作区"@)
    } else if name == "set-window-height"@ {
        Some("设置窗口高度"@)
    } else if name == "switch-layout"@ || name == "set-layout"@ {
        Some("切换布局"@)
    } else {
        None
    }
}

/// Chinese description of a niri action that may name its first argument.
pub fn arg_action_chars(name: &Vec<char>) -> (r: Option<&'static str>)
    ensures
        match r {
            Some(x) => arg_action_spec(name@) == Some(x@),
            None => arg_action_spec(name@) is None,
        },
{
    if eq_lit(name, "switch-workspace") || eq_lit(name, "focus-workspace") {
        Some("切换工作区")
    } else if eq_lit(name, "move-to-workspace") {
        Some("移动至工作区")
    } else if eq_lit(name, "set-window-height") {
        Some("设置窗口高度")
    } else if eq_lit(name, "switch-layout") || eq_lit(name, "set-layout") {
        Some("切换布局")
    } else {
        None
    }
}

// ---------------------------------------------------------------------------
// Describing actions
// ---------------------------------------------------------------------------

fn cat(a: &Vec<char>, b: &Vec<char>) -> (out: Vec<char>)
    ensures
        out@ == a@ + b@,
{
    let mut x = a.clone();
    let mut y = b.clone();
    assert(x@ =~= a@);
    assert(y@ =~= b@);
    x.append(&mut y);
    x
}

fn lit_then(lit: &str, b: &Vec<char>) -> (out: Vec<char>)
    ensures
        out@ == lit@ + b@,
{
    let a = chars_of(lit);
    cat(&a, b)
}

/// A command's program stem: its file stem when it has one, else the text itself.
pub open spec fn stem_or_self(c: Seq<char>) -> Seq<char> {
    match file_stem_of(c) {
        Some(x) => x,
        None => c,
    }
}

/// Display name of a known program, looked up by the command's stem
/// (surrounding quotes removed first).
pub open spec fn app_alias_spec(cmd: Seq<char>) -> Option<Seq<char>> {
    alias_spec(stem_or_self(trim_pat(cmd, Pat::Ch('"'))))
}

fn app_alias_chars(cmd: &Vec<char>) -> (r: Option<&'static str>)
    ensures
        match r {
            Some(x) => app_alias_spec(cmd@) == Some(x@),
            None => app_alias_spec(cmd@) is None,
        },
{
    let c = trim_pat_chars(cmd, &Pat::Ch('"'));
    let stem = match file_stem_chars(&c) {
        Some(x) => x,
        None => c,
    };
    alias_chars(&stem)
}

/// Display name of a known program (`kitty` is a terminal, `firefox` a browser, ...).
pub fn app_alias(cmd: &str) -> (r: Option<&'static str>)
    ensures
        match r {
            Some(x) => app_alias_spec(cmd@) == Some(x@),
            None => app_alias_spec(cmd@) is None,
        },
{
    let v = chars_of(cmd);
    app_alias_chars(&v)
}

/// The part after the last `/` (`rsplit('/').next()`).
pub open spec fn after_last_slash(s: Seq<char>) -> Seq<char> {
    s.subrange(skip_back(s, Pat::Not('/'), s.len() as int), s.len() as int)
}

/// A bare program name: quotes, directories, leading `~` and a `.sh` suffix removed.
pub open spec fn bare_stem(a: Seq<char>) -> Seq<char> {
    let bare = trim_start_char(
        trim_start_char(after_last_slash(trim_pat(a, Pat::Ch('"'))), '~'),
        '/',
    );
    if ".sh"@.len() <= bare.len() && bare.subrange(bare.len() - ".sh"@.len(), bare.len() as int)
        == ".sh"@ {
        bare.subrange(0, bare.len() - ".sh"@.len())
    } else {
        bare
    }
}

/// Description of a `spawn` action from its arguments.
pub open spec fn spawn_spec(args: Seq<Seq<char>>) -> Seq<char> {
    if args.len() == 0 {
        "启动程序"@
    } else {
        let a = args[0];
        if a == "dms"@ && args.len() >= 4 && args[1] == "ipc"@ && args[2] == "call"@ {
            let m = dms_module_spec(args[3]);
            let verb = dms_action_spec(
                if args.len() > 4 {
                    args[4]
                } else {
                    Seq::empty()
                },
            );
            let mv = if verb.len() == 0 {
                m
            } else {
                m + "；"@ + verb
            };
            if mv.len() == 0 {
                "DMS 控制"@
            } else {
                mv
            }
        } else if a == "sh"@ && args.len() > 1 && args[1] == "-c"@ {
            if args.len() > 2 {
                let head = first_token(args[2]);
                match app_alias_spec(head) {
                    Some(al) => "运行："@ + al,
                    None => if head.len() > 0 {
                        "运行："@ + head
                    } else {
                        "运行脚本"@
                    },
                }
            } else {
                "运行脚本"@
            }
        } else {
            match app_alias_spec(a) {
                Some(al) => "启动 "@ + al,
                None => {
                    let stem = bare_stem(a);
                    if stem.len() == 0 {
                        "启动程序"@
                    } else {
                        "启动 "@ + stem
                    }
                },
            }
        }
    }
}

fn bare_stem_chars(a: &Vec<char>) -> (out: Vec<char>)
    ensures
        out@ == bare_stem(a@),
{
    let q = trim_pat_chars(a, &Pat::Ch('"'));
    let cut = skip_back_exec(&q, &Pat::Not('/'), q.len());
    proof {
        lemma_skip_back_bounds(q@, Pat::Not('/'), q@.len() as int);
    }
    let last = sub_chars(&q, cut, q.len());
    let t1 = trim_start_chars(&last, '~');
    let bare = trim_start_chars(&t1, '/');
    let sh = chars_of(".sh");
    if ends_with_chars(&bare, &sh) {
        sub_chars(&bare, 0, bare.len() - sh.len())
    } else {
        bare
    }
}

fn spawn_desc_chars(args: &Vec<Vec<char>>) -> (out: Vec<char>)
    ensures
        out@ == spawn_spec(args@.map_values(|p: Vec<char>| p@)),
{
    let ghost av = args@.map_values(|p: Vec<char>| p@);
    if args.len() == 0 {
        return chars_of("启动程序");
    }
    assert(av[0] == args@[0]@);
    let a = &args[0];
    if eq_lit(a, "dms") && args.len() >= 4 && eq_lit(&args[1], "ipc") && eq_lit(&args[2], "call") {
        assert(av[1] == args@[1]@ && av[2] == args@[2]@ && av[3] == args@[3]@);
        let m = dms_module_chars(&args[3]);
        let verb = if args.len() > 4 {
            assert(av[4] == args@[4]@);
            dms_action_chars(&args[4])
        } else {
            let e: Vec<char> = Vec::new();
            dms_action_chars(&e)
        };
        let mc = chars_of(m);
        let vc = chars_of(verb);
        let mv = if vc.len() == 0 {
            mc
        } else {
            let semi = lit_then("；", &vc);
            cat(&mc, &semi)
        };
        proof {
            assert(mv@ == (if vc@.len() == 0 {
                mc@
            } else {
                mc@ + "；"@ + vc@
            }));
        }
        if mv.len() == 0 {
            return chars_of("DMS 控制");
        }
        return mv;
    }
    if eq_lit(a, "sh") && args.len() > 1 && eq_lit(&args[1], "-c") {
        assert(av[1] == args@[1]@);
        if args.len() > 2 {
            assert(av[2] == args@[2]@);
            let head = first_token_chars(&args[2]);
            match app_alias_chars(&head) {
                Some(al) => {
                    let alc = chars_of(al);
                    return lit_then("运行：", &alc);
                },
                None => {
                    if head.len() > 0 {
                        return lit_then("运行：", &head);
                    }
                },
            }
        }
        return chars_of("运行脚本");
    }
    match app_alias_chars(a) {
        Some(al) => {
            let alc = chars_of(al);
            lit_then("启动 ", &alc)
        },
        None => {
            let stem = bare_stem_chars(a);
            if stem.len() == 0 {
                chars_of("启动程序")
            } else {
                lit_then("启动 ", &stem)
            }
        },
    }
}

/// A readable Chinese description of a `spawn` action's arguments: dms IPC
/// calls are translated, `sh -c` commands and known programs get their display
/// names, anything else shows its bare program name.
pub fn spawn_description(args: &[String]) -> (out: String)
    ensures
        out@ == spawn_spec(args@.map_values(|x: String| x@)),
{
    let v = chars_list(args);
    string_of(&spawn_desc_chars(&v))
}

/// Readable Chinese description of a niri action with its positional arguments.
pub open spec fn friendly_spec(name: Seq<char>, args: Seq<Seq<char>>) -> Seq<char> {
    if name == "spawn"@ {
        spawn_spec(args)
    } else {
        match fixed_action_spec(name) {
            Some(d) => d,
            None => match arg_action_spec(name) {
                Some(d) => if args.len() > 0 {
                    d + " "@ + args[0]
                } else {
                    d
                },
                None => {
                    let arg = join(args, " "@);
                    if arg.len() == 0 {
                        name
                    } else {
                        name + " "@ + arg
                    }
                },
            },
        }
    }
}

/// A description names direction `w` and not the opposite one `o`.
pub open spec fn names_direction(d: Seq<char>, w: char, o: char) -> bool {
    d.contains(w) && !d.contains(o)
}

/// Two mirrored actions `l` and `r` read differently, each naming its own
/// direction (`wl` / `wr`) and not the other's.
pub open spec fn mirrored(l: Seq<char>, r: Seq<char>, wl: char, wr: char, args: Seq<Seq<char>>) -> bool {
    &&& friendly_spec(l, args) != friendly_spec(r, args)
    &&& names_direction(friendly_spec(l, args), wl, wr)
    &&& names_direction(friendly_spec(r, args), wr, wl)
}

proof fn lemma_mirror_0(args: Seq<Seq<char>>)
    ensures
        mirrored("focus-window-left"@, "focus-window-right"@, '左', '右', args),
{
    reveal_strlit("close");
    reveal_strlit("close-window");
    reveal_strlit("focus-window-left");
    reveal_strlit("focus-window-right");
    reveal_strlit("quit");
    reveal_strlit("set-column-width");
    reveal_strlit("show-hotkey-overlay");
    reveal_strlit("spawn");
    reveal_strlit("switch-focus-between-floating-and-tiling");
    reveal_strlit("toggle-column-tabbed-display");
    reveal_strlit("toggle-overview");
    reveal_strlit("聚焦右侧窗口");
    reveal_strlit("聚焦左侧窗口");
    assert("focus-window-left"@.len() == 17);
    assert("spawn"@.len() == 5);
    assert("close"@.len() == 5);
    assert("close-window"@.len() == 12);
    assert("quit"@.len() == 4);
    assert("toggle-overview"@.len() == 15);
    assert("show-hotkey-overlay"@.len() == 19);
    assert("set-column-width"@.len() == 16);
    assert("toggle-column-tabbed-display"@.len() == 28);
    assert("switch-focus-between-floating-and-tiling"@.len() == 40);
    assert("focus-window-right"@.len() == 18);
    assert("spawn"@.len() == 5);
    assert("close"@.len() == 5);
    assert("close-window"@.len() == 12);
    assert("quit"@.len() == 4);
    assert("toggle-overview"@.len() == 15);
    assert("show-hotkey-overlay"@.len() == 19);
    assert("set-column-width"@.len() == 16);
    assert("toggle-column-tabbed-display"@.len() == 28);
    assert("switch-focus-between-floating-and-tiling"@.len() == 40);
    assert("focus-window-left"@.len() == 17);
    assert("聚焦左侧窗口"@.len() == 6);
    assert("聚焦左侧窗口"@[2] == '左');
    assert forall|i: int| 0 <= i < "聚焦左侧窗口"@.len() implies "聚焦左侧窗口"@[i] != '右' by {
        assert("聚焦左侧窗口"@[0] == '聚');
        assert("聚焦左侧窗口"@[1] == '焦');
        assert("聚焦左侧窗口"@[2] == '左');
        assert("聚焦左侧窗口"@[3] == '侧');
        assert("聚焦左侧窗口"@[4] == '窗');
        assert("聚焦左侧窗口"@[5] == '口');
    }
    assert("聚焦右侧窗口"@.len() == 6);
    assert("聚焦右侧窗口"@[2] == '右');
    assert forall|i: int| 0 <= i < "聚焦右侧窗口"@.len() implies "聚焦右侧窗口"@[i] != '左' by {
        assert("聚焦右侧窗口"@[0] == '聚');
        assert("聚焦右侧窗口"@[1] == '焦');
        assert("聚焦右侧窗口"@[2] == '右');
        assert("聚焦右侧窗口"@[3] == '侧');
        assert("聚焦右侧窗口"@[4] == '窗');
        assert("聚焦右侧窗口"@[5] == '口');
    }
}

proof fn lemma_mirror_1(args: Seq<Seq<char>>)
    ensures
        mirrored("focus-window-up"@, "focus-window-down"@, '上', '下', args),
{
    reveal_strlit("close");
    reveal_strlit("close-window");
    reveal_strlit("focus-window-down");
    reveal_strlit("focus-window-left");
    reveal_strlit("focus-window-right");
    reveal_strlit("focus-window-up");
    reveal_strlit("quit");
    reveal_strlit("set-column-width");
    reveal_strlit("show-hotkey-overlay");
    reveal_strlit("spawn");
    reveal_strlit("switch-focus-between-floating-and-tiling");
    reveal_strlit("toggle-column-tabbed-display");
    reveal_strlit("toggle-overview");
    reveal_strlit("聚焦上方窗口");
    reveal_strlit("聚焦下方窗口");
    assert("focus-window-up"@.len() == 15);
    assert("spawn"@.len() == 5);
    assert("close"@.len() == 5);
    assert("close-window"@.len() == 12);
    assert("quit"@.len() == 4);
    assert("toggle-overview"@[0] == 't' && "focus-window-up"@[0] == 'f');
    assert("show-hotkey-overlay"@.len() == 19);
    assert("set-column-width"@.len() == 16);
    assert("toggle-column-tabbed-display"@.len() == 28);
    assert("switch-focus-between-floating-and-tiling"@.len() == 40);
    assert("focus-window-left"@.len() == 17);
    assert("focus-window-right"@.len() == 18);
    assert("focus-window-down"@.len() == 17);
    assert("spawn"@.len() == 5);
    assert("close"@.len() == 5);
    assert("close-window"@.len() == 12);
    assert("quit"@.len() == 4);
    assert("toggle-overview"@.len() == 15);
    assert("show-hotkey-overlay"@.len() == 19);
    assert("set-column-width"@.len() == 16);
    assert("toggle-column-tabbed-display"@.len() == 28);
    assert("switch-focus-between-floating-and-tiling"@.len() == 40);
    assert("focus-window-left"@[13] == 'l' && "focus-window-down"@[13] == 'd');
    assert("focus-window-right"@.len() == 18);
    assert("focus-window-up"@.len() == 15);
    assert("聚焦上方窗口"@.len() == 6);
    assert("聚焦上方窗口"@[2] == '上');
    assert forall|i: int| 0 <= i < "聚焦上方窗口"@.len() implies "聚焦上方窗口"@[i] != '下' by {
        assert("聚焦上方窗口"@[0] == '聚');
        assert("聚焦上方窗口"@[1] == '焦');
        assert("聚焦上方窗口"@[2] == '上');
        assert("聚焦上方窗口"@[3] == '方');
        assert("聚焦上方窗口"@[4] == '窗');
        assert("聚焦上方窗口"@[5] == '口');
    }
    assert("聚焦下方窗口"@.len() == 6);
    assert("聚焦下方窗口"@[2] == '下');
    assert forall|i: int| 0 <= i < "聚焦下方窗口"@.len() implies "聚焦下方窗口"@[i] != '上' by {
        assert("聚焦下方窗口"@[0] == '聚');
        assert("聚焦下方窗口"@[1] == '焦');
        assert("聚焦下方窗口"@[2] == '下');
        assert("聚焦下方窗口"@[3] == '方');
        assert("聚焦下方窗口"@[4] == '窗');
        assert("聚焦下方窗口"@[5] == '口');
    }
}

proof fn lemma_mirror_2(args: Seq<Seq<char>>)
    ensures
        mirrored("move-window-left"@, "move-window-right"@, '左', '右', args),
{
    reveal_strlit("close");
    reveal_strlit("close-window");
    reveal_strlit("focus-window-down");
    reveal_strlit("focus-window-left");
    reveal_strlit("focus-window-right");
    reveal_strlit("focus-window-up");
    reveal_strlit("move-window-left");
    reveal_strlit("move-window-right");
    reveal_strlit("quit");
    reveal_strlit("set-column-width");
    reveal_strlit("show-hotkey-overlay");
    reveal_strlit("spawn");
    reveal_strlit("switch-focus-between-floating-and-tiling");
    reveal_strlit("toggle-column-tabbed-display");
    reveal_strlit("toggle-overview");
    reveal_strlit("窗口移向右侧");
    reveal_strlit("窗口移向左侧");
    assert("move-window-left"@.len() == 16);
    assert("spawn"@.len() == 5);
    assert("close"@.len() == 5);
    assert("close-window"@.len() == 12);
    assert("quit"@.len() == 4);
    assert("toggle-overview"@.len() == 15);
    assert("show-hotkey-overlay"@.len() == 19);
    assert("set-column-width"@[0] == 's' && "move-window-left"@[0] == 'm');
    assert("toggle-column-tabbed-display"@.len() == 28);
    assert("switch-focus-between-floating-and-tiling"@.len() == 40);
    assert("focus-window-left"@.len() == 17);
    assert("focus-window-right"@.len() == 18);
    assert("focus-window-up"@.len() == 15);
    assert("focus-window-down"@.len() == 17);
    assert("move-window-right"@.len() == 17);
    assert("spawn"@.len() == 5);
    assert("close"@.len() == 5);
    assert("close-window"@.len() == 12);
    assert("quit"@.len() == 4);
    assert("toggle-overview"@.len() == 15);
    assert("show-hotkey-overlay"@.len() == 19);
    assert("set-column-width"@.len() == 16);
    assert("toggle-column-tabbed-display"@.len() == 28);
    assert("switch-focus-between-floating-and-tiling"@.len() == 40);
    assert("focus-window-left"@[0] == 'f' && "move-window-right"@[0] == 'm');
    assert("focus-window-right"@.len() == 18);
    assert("focus-window-up"@.len() == 15);
    assert("focus-window-down"@[0] == 'f' && "move-window-right"@[0] == 'm');
    assert("move-window-left"@.len() == 16);
    assert("窗口移向左侧"@.len() == 6);
    assert("窗口移向左侧"@[4] == '左');
    assert forall|i: int| 0 <= i < "窗口移向左侧"@.len() implies "窗口移向左侧"@[i] != '右' by {
        assert("窗口移向左侧"@[0] == '窗');
        assert("窗口移向左侧"@[1] == '口');
        assert("窗口移向左侧"@[2] == '移');
        assert("窗口移向左侧"@[3] == '向');
        assert("窗口移向左侧"@[4] == '左');
        assert("窗口移向左侧"@[5] == '侧');
    }
    assert("窗口移向右侧"@.len() == 6);
    assert("窗口移向右侧"@[4] == '右');
    assert forall|i: int| 0 <= i < "窗口移向右侧"@.len() implies "窗口移向右侧"@[i] != '左' by {
        assert("窗口移向右侧"@[0] == '窗');
        assert("窗口移向右侧"@[1] == '口');
        assert("窗口移向右侧"@[2] == '移');
        assert("窗口移向右侧"@[3] == '向');
        assert("窗口移向右侧"@[4] == '右');
        assert("窗口移向右侧"@[5] == '侧');
    }
}

proof fn lemma_mirror_3(args: Seq<Seq<char>>)
    ensures
        mirrored("move-window-up"@, "move-window-down"@, '上', '下', args),
{
    reveal_strlit("close");
    reveal_strlit("close-window");
    reveal_strlit("focus-window-down");
    reveal_strlit("focus-window-left");
    reveal_strlit("focus-window-right");
    reveal_strlit("focus-window-up");
    reveal_strlit("move-window-down");
    reveal_strlit("move-window-left");
    reveal_strlit("move-window-right");
    reveal_strlit("move-window-up");
    reveal_strlit("quit");
    reveal_strlit("set-column-width");
    reveal_strlit("show-hotkey-overlay");
    reveal_strlit("spawn");
    reveal_strlit("switch-focus-between-floating-and-tiling");
    reveal_strlit("toggle-column-tabbed-display");
    reveal_strlit("toggle-overview");
    reveal_strlit("窗口移向上方");
    reveal_strlit("窗口移向下方");
    assert("move-window-up"@.len() == 14);
    assert("spawn"@.len() == 5);
    assert("close"@.len() == 5);
    assert("close-window"@.len() == 12);
    assert("quit"@.len() == 4);
    assert("toggle-overview"@.len() == 15);
    assert("show-hotkey-overlay"@.len() == 19);
    assert("set-column-width"@.len() == 16);
    assert("toggle-column-tabbed-display"@.len() == 28);
    assert("switch-focus-between-floating-and-tiling"@.len() == 40);
    assert("focus-window-left"@.len() == 17);
    assert("focus-window-right"@.len() == 18);
    assert("focus-window-up"@.len() == 15);
    assert("focus-window-down"@.len() == 17);
    assert("move-window-left"@.len() == 16);
    assert("move-window-right"@.len() == 17);
    assert("move-window-down"@.len() == 16);
    assert("spawn"@.len() == 5);
    assert("close"@.len() == 5);
    assert("close-window"@.len() == 12);
    assert("quit"@.len() == 4);
    assert("toggle-overview"@.len() == 15);
    assert("show-hotkey-overlay"@.len() == 19);
    assert("set-column-width"@[0] == 's' && "move-window-down"@[0] == 'm');
    assert("toggle-column-tabbed-display"@.len() == 28);
    assert("switch-focus-between-floating-and-tiling"@.len() == 40);
    assert("focus-window-left"@.len() == 17);
    assert("focus-window-right"@.len() == 18);
    assert("focus-window-up"@.len() == 15);
    assert("focus-window-down"@.len() == 17);
    assert("move-window-left"@[12] == 'l' && "move-window-down"@[12] == 'd');
    assert("move-window-right"@.len() == 17);
    assert("move-window-up"@.len() == 14);
    assert("窗口移向上方"@.len() == 6);
    assert("窗口移向上方"@[4] == '上');
    assert forall|i: int| 0 <= i < "窗口移向上方"@.len() implies "窗口移向上方"@[i] != '下' by {
        assert("窗口移向上方"@[0] == '窗');
        assert("窗口移向上方"@[1] == '口');
        assert("窗口移向上方"@[2] == '移');
        assert("窗口移向上方"@[3] == '向');
        assert("窗口移向上方"@[4] == '上');
        assert("窗口移向上方"@[5] == '方');
    }
    assert("窗口移向下方"@.len() == 6);
    assert("窗口移向下方"@[4] == '下');
    assert forall|i: int| 0 <= i < "窗口移向下方"@.len() implies "窗口移向下方"@[i] != '上' by {
        assert("窗口移向下方"@[0] == '窗');
        assert("窗口移向下方"@[1] == '口');
        assert("窗口移向下方"@[2] == '移');
        assert("窗口移向下方"@[3] == '向');
        assert("窗口移向下方"@[4] == '下');
        assert("窗口移向下方"@[5] == '方');
    }
}

proof fn lemma_mirror_4(args: Seq<Seq<char>>)
    ensures
        mirrored("column-left"@, "column-right"@, '左', '右', args),
{
    reveal_strlit("close");
    reveal_strlit("close-window");
    reveal_strlit("column-left");
    reveal_strlit("column-right");
    reveal_strlit("focus-window-down");
    reveal_strlit("focus-window-left");
    reveal_strlit("focus-window-right");
    reveal_strlit("focus-window-up");
    reveal_strlit("move-window-down");
    reveal_strlit("move-window-left");
    reveal_strlit("move-window-right");
    reveal_strlit("move-window-up");
    reveal_strlit("quit");
    reveal_strlit("set-column-width");
    reveal_strlit("show-hotkey-overlay");
    reveal_strlit("spawn");
    reveal_strlit("swap-windows");
    reveal_strlit("switch-focus-between-floating-and-tiling");
    reveal_strlit("toggle-column-tabbed-display");
    reveal_strlit("toggle-overview");
    reveal_strlit("列右移");
    reveal_strlit("列左移");
    assert("column-left"@.len() == 11);
    assert("spawn"@.len() == 5);
    assert("close"@.len() == 5);
    assert("close-window"@.len() == 12);
    assert("quit"@.len() == 4);
    assert("toggle-overview"@.len() == 15);
    assert("show-hotkey-overlay"@.len() == 19);
    assert("set-column-width"@.len() == 16);
    assert("toggle-column-tabbed-display"@.len() == 28);
    assert("switch-focus-between-floating-and-tiling"@.len() == 40);
    assert("focus-window-left"@.len() == 17);
    assert("focus-window-right"@.len() == 18);
    assert("focus-window-up"@.len() == 15);
    assert("focus-window-down"@.len() == 17);
    assert("move-window-left"@.len() == 16);
    assert("move-window-right"@.len() == 17);
    assert("move-window-up"@.len() == 14);
    assert("move-window-down"@.len() == 16);
    assert("swap-windows"@.len() == 12);
    assert("column-right"@.len() == 12);
    assert("spawn"@.len() == 5);
    assert("close"@.len() == 5);
    assert("close-window"@[1] == 'l' && "column-right"@[1] == 'o');
    assert("quit"@.len() == 4);
    assert("toggle-overview"@.len() == 15);
    assert("show-hotkey-overlay"@.len() == 19);
    assert("set-column-width"@.len() == 16);
    assert("toggle-column-tabbed-display"@.len() == 28);
    assert("switch-focus-between-floating-and-tiling"@.len() == 40);
    assert("focus-window-left"@.len() == 17);
    assert("focus-window-right"@.len() == 18);
    assert("focus-window-up"@.len() == 15);
    assert("focus-window-down"@.len() == 17);
    assert("move-window-left"@.len() == 16);
    assert("move-window-right"@.len() == 17);
    assert("move-window-up"@.len() == 14);
    assert("move-window-down"@.len() == 16);
    assert("swap-windows"@[0] == 's' && "column-right"@[0] == 'c');
    assert("column-left"@.len() == 11);
    assert("列左移"@.len() == 3);
    assert("列左移"@[1] == '左');
    assert forall|i: int| 0 <= i < "列左移"@.len() implies "列左移"@[i] != '右' by {
        assert("列左移"@[0] == '列');
        assert("列左移"@[1] == '左');
        assert("列左移"@[2] == '移');
    }
    assert("列右移"@.len() == 3);
    assert("列右移"@[1] == '右');
    assert forall|i: int| 0 <= i < "列右移"@.len() implies "列右移"@[i] != '左' by {
        assert("列右移"@[0] == '列');
        assert("列右移"@[1] == '右');
        assert("列右移"@[2] == '移');
    }
}

proof fn lemma_mirror_5(args: Seq<Seq<char>>)
    ensures
        mirrored("focus-column-left"@, "focus-column-right"@, '左', '右', args),
{
    reveal_strlit("close");
    reveal_strlit("close-window");
    reveal_strlit("column-left");
    reveal_strlit("column-right");
    reveal_strlit("focus-column-left");
    reveal_strlit("focus-column-right");
    reveal_strlit("focus-window-down");
    reveal_strlit("focus-window-left");
    reveal_strlit("focus-window-right");
    reveal_strlit("focus-window-up");
    reveal_strlit("move-window-down");
    reveal_strlit("move-window-left");
    reveal_strlit("move-window-right");
    reveal_strlit("move-window-up");
    reveal_strlit("quit");
    reveal_strlit("set-column-width");
    reveal_strlit("show-hotkey-overlay");
    reveal_strlit("spawn");
    reveal_strlit("swap-windows");
    reveal_strlit("switch-focus-between-floating-and-tiling");
    reveal_strlit("toggle-column-tabbed-display");
    reveal_strlit("toggle-overview");
    reveal_strlit("聚焦右列");
    reveal_strlit("聚焦左列");
    assert("focus-column-left"@.len() == 17);
    assert("spawn"@.len() == 5);
    assert("close"@.len() == 5);
    assert("close-window"@.len() == 12);
    assert("quit"@.len() == 4);
    assert("toggle-overview"@.len() == 15);
    assert("show-hotkey-overlay"@.len() == 19);
    assert("set-column-width"@.len() == 16);
    assert("toggle-column-tabbed-display"@.len() == 28);
    assert("switch-focus-between-floating-and-tiling"@.len() == 40);
    assert("focus-window-left"@[6] == 'w' && "focus-column-left"@[6] == 'c');
    assert("focus-window-right"@.len() == 18);
    assert("focus-window-up"@.len() == 15);
    assert("focus-window-down"@[6] == 'w' && "focus-column-left"@[6] == 'c');
    assert("move-window-left"@.len() == 16);
    assert("move-window-right"@[0] == 'm' && "focus-column-left"@[0] == 'f');
    assert("move-window-up"@.len() == 14);
    assert("move-window-down"@.len() == 16);
    assert("swap-windows"@.len() == 12);
    assert("column-left"@.len() == 11);
    assert("column-right"@.len() == 12);
    assert("focus-column-right"@.len() == 18);
    assert("spawn"@.len() == 5);
    assert("close"@.len() == 5);
    assert("close-window"@.len() == 12);
    assert("quit"@.len() == 4);
    assert("toggle-overview"@.len() == 15);
    assert("show-hotkey-overlay"@.len() == 19);
    assert("set-column-width"@.len() == 16);
    assert("toggle-column-tabbed-display"@.len() == 28);
    assert("switch-focus-between-floating-and-tiling"@.len() == 40);
    assert("focus-window-left"@.len() == 17);
    assert("focus-window-right"@[6] == 'w' && "focus-column-right"@[6] == 'c');
    assert("focus-window-up"@.len() == 15);
    assert("focus-window-down"@.len() == 17);
    assert("move-window-left"@.len() == 16);
    assert("move-window-right"@.len() == 17);
    assert("move-window-up"@.len() == 14);
    assert("move-window-down"@.len() == 16);
    assert("swap-windows"@.len() == 12);
    assert("column-left"@.len() == 11);
    assert("column-right"@.len() == 12);
    assert("focus-column-left"@.len() == 17);
    assert("聚焦左列"@.len() == 4);
    assert("聚焦左列"@[2] == '左');
    assert forall|i: int| 0 <= i < "聚焦左列"@.len() implies "聚焦左列"@[i] != '右' by {
        assert("聚焦左列"@[0] == '聚');
        assert("聚焦左列"@[1] == '焦');
        assert("聚焦左列"@[2] == '左');
        assert("聚焦左列"@[3] == '列');
    }
    assert("聚焦右列"@.len() == 4);
    assert("聚焦右列"@[2] == '右');
    assert forall|i: int| 0 <= i < "聚焦右列"@.len() implies "聚焦右列"@[i] != '左' by {
        assert("聚焦右列"@[0] == '聚');
        assert("聚焦右列"@[1] == '焦');
        assert("聚焦右列"@[2] == '右');
        assert("聚焦右列"@[3] == '列');
    }
}

proof fn lemma_mirror_6(args: Seq<Seq<char>>)
    ensures
        mirrored("move-column-left"@, "move-column-right"@, '左', '右', args),
{
    reveal_strlit("close");
    reveal_strlit("close-window");
    reveal_strlit("column-left");
    reveal_strlit("column-right");
    reveal_strlit("focus-column-left");
    reveal_strlit("focus-column-right");
    reveal_strlit("focus-window-down");
    reveal_strlit("focus-window-left");
    reveal_strlit("focus-window-right");
    reveal_strlit("focus-window-up");
    reveal_strlit("move-column-left");
    reveal_strlit("move-column-right");
    reveal_strlit("move-window-down");
    reveal_strlit("move-window-left");
    reveal_strlit("move-window-right");
    reveal_strlit("move-window-up");
    reveal_strlit("quit");
    reveal_strlit("set-column-width");
    reveal_strlit("show-hotkey-overlay");
    reveal_strlit("spawn");
    reveal_strlit("swap-windows");
    reveal_strlit("switch-focus-between-floating-and-tiling");
    reveal_strlit("toggle-column-tabbed-display");
    reveal_strlit("toggle-overview");
    reveal_strlit("列移向右");
    reveal_strlit("列移向左");
    assert("move-column-left"@.len() == 16);
    assert("spawn"@.len() == 5);
    assert("close"@.len() == 5);
    assert("close-window"@.len() == 12);
    assert("quit"@.len() == 4);
    assert("toggle-overview"@.len() == 15);
    assert("show-hotkey-overlay"@.len() == 19);
    assert("set-column-width"@[0] == 's' && "move-column-left"@[0] == 'm');
    assert("toggle-column-tabbed-display"@.len() == 28);
    assert("switch-focus-between-floating-and-tiling"@.len() == 40);
    assert("focus-window-left"@.len() == 17);
    assert("focus-window-right"@.len() == 18);
    assert("focus-window-up"@.len() == 15);
    assert("focus-window-down"@.len() == 17);
    assert("move-window-left"@[5] == 'w' && "move-column-left"@[5] == 'c');
    assert("move-window-right"@.len() == 17);
    assert("move-window-up"@.len() == 14);
    assert("move-window-down"@[5] == 'w' && "move-column-left"@[5] == 'c');
    assert("swap-windows"@.len() == 12);
    assert("column-left"@.len() == 11);
    assert("column-right"@.len() == 12);
    assert("focus-column-left"@.len() == 17);
    assert("focus-column-right"@.len() == 18);
    assert("move-column-right"@.len() == 17);
    assert("spawn"@.len() == 5);
    assert("close"@.len() == 5);
    assert("close-window"@.len() == 12);
    assert("quit"@.len() == 4);
    assert("toggle-overview"@.len() == 15);
    assert("show-hotkey-overlay"@.len() == 19);
    assert("set-column-width"@.len() == 16);
    assert("toggle-column-tabbed-display"@.len() == 28);
    assert("switch-focus-between-floating-and-tiling"@.len() == 40);
    assert("focus-window-left"@[0] == 'f' && "move-column-right"@[0] == 'm');
    assert("focus-window-right"@.len() == 18);
    assert("focus-window-up"@.len() == 15);
    assert("focus-window-down"@[0] == 'f' && "move-column-right"@[0] == 'm');
    assert("move-window-left"@.len() == 16);
    assert("move-window-right"@[5] == 'w' && "move-column-right"@[5] == 'c');
    assert("move-window-up"@.len() == 14);
    assert("move-window-down"@.len() == 16);
    assert("swap-windows"@.len() == 12);
    assert("column-left"@.len() == 11);
    assert("column-right"@.len() == 12);
    assert("focus-column-left"@[0] == 'f' && "move-column-right"@[0] == 'm');
    assert("focus-column-right"@.len() == 18);
    assert("move-column-left"@.len() == 16);
    assert("列移向左"@.len() == 4);
    assert("列移向左"@[3] == '左');
    assert forall|i: int| 0 <= i < "列移向左"@.len() implies "列移向左"@[i] != '右' by {
        assert("列移向左"@[0] == '列');
        assert("列移向左"@[1] == '移');
        assert("列移向左"@[2] == '向');
        assert("列移向左"@[3] == '左');
    }
    assert("列移向右"@.len() == 4);
    assert("列移向右"@[3] == '右');
    assert forall|i: int| 0 <= i < "列移向右"@.len() implies "列移向右"@[i] != '左' by {
        assert("列移向右"@[0] == '列');
        assert("列移向右"@[1] == '移');
        assert("列移向右"@[2] == '向');
        assert("列移向右"@[3] == '右');
    }
}

proof fn lemma_mirror_7(args: Seq<Seq<char>>)
    ensures
        mirrored("move-column-to-first"@, "move-column-to-last"@, '左', '右', args),
{
    reveal_strlit("close");
    reveal_strlit("close-window");
    reveal_strlit("column-left");
    reveal_strlit("column-right");
    reveal_strlit("focus-column-left");
    reveal_strlit("focus-column-right");
    reveal_strlit("focus-window-down");
    reveal_strlit("focus-window-left");
    reveal_strlit("focus-window-right");
    reveal_strlit("focus-window-up");
    reveal_strlit("move-column-left");
    reveal_strlit("move-column-right");
    reveal_strlit("move-column-to-first");
    reveal_strlit("move-column-to-last");
    reveal_strlit("move-window-down");
    reveal_strlit("move-window-left");
    reveal_strlit("move-window-right");
    reveal_strlit("move-window-up");
    reveal_strlit("quit");
    reveal_strlit("set-column-width");
    reveal_strlit("show-hotkey-overlay");
    reveal_strlit("spawn");
    reveal_strlit("swap-windows");
    reveal_strlit("switch-focus-between-floating-and-tiling");
    reveal_strlit("toggle-column-tabbed-display");
    reveal_strlit("toggle-overview");
    reveal_strlit("列移到最右");
    reveal_strlit("列移到最左");
    assert("move-column-to-first"@.len() == 20);
    assert("spawn"@.len() == 5);
    assert("close"@.len() == 5);
    assert("close-window"@.len() == 12);
    assert("quit"@.len() == 4);
    assert("toggle-overview"@.len() == 15);
    assert("show-hotkey-overlay"@.len() == 19);
    assert("set-column-width"@.len() == 16);
    assert("toggle-column-tabbed-display"@.len() == 28);
    assert("switch-focus-between-floating-and-tiling"@.len() == 40);
    assert("focus-window-left"@.len() == 17);
    assert("focus-window-right"@.len() == 18);
    assert("focus-window-up"@.len() == 15);
    assert("focus-window-down"@.len() == 17);
    assert("move-window-left"@.len() == 16);
    assert("move-window-right"@.len() == 17);
    assert("move-window-up"@.len() == 14);
    assert("move-window-down"@.len() == 16);
    assert("swap-windows"@.len() == 12);
    assert("column-left"@.len() == 11);
    assert("column-right"@.len() == 12);
    assert("focus-column-left"@.len() == 17);
    assert("focus-column-right"@.len() == 18);
    assert("move-column-left"@.len() == 16);
    assert("move-column-right"@.len() == 17);
    assert("move-column-to-last"@.len() == 19);
    assert("spawn"@.len() == 5);
    assert("close"@.len() == 5);
    assert("close-window"@.len() == 12);
    assert("quit"@.len() == 4);
    assert("toggle-overview"@.len() == 15);
    assert("show-hotkey-overlay"@[0] == 's' && "move-column-to-last"@[0] == 'm');
    assert("set-column-width"@.len() == 16);
    assert("toggle-column-tabbed-display"@.len() == 28);
    assert("switch-focus-between-floating-and-tiling"@.len() == 40);
    assert("focus-window-left"@.len() == 17);
    assert("focus-window-right"@.len() == 18);
    assert("focus-window-up"@.len() == 15);
    assert("focus-window-down"@.len() == 17);
    assert("move-window-left"@.len() == 16);
    assert("move-window-right"@.len() == 17);
    assert("move-window-up"@.len() == 14);
    assert("move-window-down"@.len() == 16);
    assert("swap-windows"@.len() == 12);
    assert("column-left"@.len() == 11);
    assert("column-right"@.len() == 12);
    assert("focus-column-left"@.len() == 17);
    assert("focus-column-right"@.len() == 18);
    assert("move-column-left"@.len() == 16);
    assert("move-column-right"@.len() == 17);
    assert("move-column-to-first"@.len() == 20);
    assert("列移到最左"@.len() == 5);
    assert("列移到最左"@[4] == '左');
    assert forall|i: int| 0 <= i < "列移到最左"@.len() implies "列移到最左"@[i] != '右' by {
        assert("列移到最左"@[0] == '列');
        assert("列移到最左"@[1] == '移');
        assert("列移到最左"@[2] == '到');
        assert("列移到最左"@[3] == '最');
        assert("列移到最左"@[4] == '左');
    }
    assert("列移到最右"@.len() == 5);
    assert("列移到最右"@[4] == '右');
    assert forall|i: int| 0 <= i < "列移到最右"@.len() implies "列移到最右"@[i] != '左' by {
        assert("列移到最右"@[0] == '列');
        assert("列移到最右"@[1] == '移');
        assert("列移到最右"@[2] == '到');
        assert("列移到最右"@[3] == '最');
        assert("列移到最右"@[4] == '右');
    }
}

proof fn lemma_mirror_8(args: Seq<Seq<char>>)
    ensures
        mirrored("consume-or-expel-window-left"@, "consume-or-expel-window-right"@, '左', '右', args),
{
    reveal_strlit("center-column");
    reveal_strlit("close");
    reveal_strlit("close-window");
    reveal_strlit("column-left");
    reveal_strlit("column-right");
    reveal_strlit("consume-or-expel-window-left");
    reveal_strlit("consume-or-expel-window-right");
    reveal_strlit("focus-column-left");
    reveal_strlit("focus-column-right");
    reveal_strlit("focus-window-down");
    reveal_strlit("focus-window-left");
    reveal_strlit("focus-window-right");
    reveal_strlit("focus-window-up");
    reveal_strlit("move-column-left");
    reveal_strlit("move-column-right");
    reveal_strlit("move-column-to-first");
    reveal_strlit("move-column-to-last");
    reveal_strlit("move-window-down");
    reveal_strlit("move-window-left");
    reveal_strlit("move-window-right");
    reveal_strlit("move-window-up");
    reveal_strlit("quit");
    reveal_strlit("set-column-width");
    reveal_strlit("show-hotkey-overlay");
    reveal_strlit("spawn");
    reveal_strlit("swap-windows");
    reveal_strlit("switch-focus-between-floating-and-tiling");
    reveal_strlit("toggle-column-tabbed-display");
    reveal_strlit("toggle-overview");
    reveal_strlit("吞入/吐出窗口（右）");
    reveal_strlit("吞入/吐出窗口（左）");
    assert("consume-or-expel-window-left"@.len() == 28);
    assert("spawn"@.len() == 5);
    assert("close"@.len() == 5);
    assert("close-window"@.len() == 12);
    assert("quit"@.len() == 4);
    assert("toggle-overview"@.len() == 15);
    assert("show-hotkey-overlay"@.len() == 19);
    assert("set-column-width"@.len() == 16);
    assert("toggle-column-tabbed-display"@[0] == 't' && "consume-or-expel-window-left"@[0] == 'c');
    assert("switch-focus-between-floating-and-tiling"@.len() == 40);
    assert("focus-window-left"@.len() == 17);
    assert("focus-window-right"@.len() == 18);
    assert("focus-window-up"@.len() == 15);
    assert("focus-window-down"@.len() == 17);
    assert("move-window-left"@.len() == 16);
    assert("move-window-right"@.len() == 17);
    assert("move-window-up"@.len() == 14);
    assert("move-window-down"@.len() == 16);
    assert("swap-windows"@.len() == 12);
    assert("column-left"@.len() == 11);
    assert("column-right"@.len() == 12);
    assert("focus-column-left"@.len() == 17);
    assert("focus-column-right"@.len() == 18);
    assert("move-column-left"@.len() == 16);
    assert("move-column-right"@.len() == 17);
    assert("move-column-to-first"@.len() == 20);
    assert("move-column-to-last"@.len() == 19);
    assert("center-column"@.len() == 13);
    assert("consume-or-expel-window-right"@.len() == 29);
    assert("spawn"@.len() == 5);
    assert("close"@.len() == 5);
    assert("close-window"@.len() == 12);
    assert("quit"@.len() == 4);
    assert("toggle-overview"@.len() == 15);
    assert("show-hotkey-overlay"@.len() == 19);
    assert("set-column-width"@.len() == 16);
    assert("toggle-column-tabbed-display"@.len() == 28);
    assert("switch-focus-between-floating-and-tiling"@.len() == 40);
    assert("focus-window-left"@.len() == 17);
    assert("focus-window-right"@.len() == 18);
    assert("focus-window-up"@.len() == 15);
    assert("focus-window-down"@.len() == 17);
    assert("move-window-left"@.len() == 16);
    assert("move-window-right"@.len() == 17);
    assert("move-window-up"@.len() == 14);
    assert("move-window-down"@.len() == 16);
    assert("swap-windows"@.len() == 12);
    assert("column-left"@.len() == 11);
    assert("column-right"@.len() == 12);
    assert("focus-column-left"@.len() == 17);
    assert("focus-column-right"@.len() == 18);
    assert("move-column-left"@.len() == 16);
    assert("move-column-right"@.len() == 17);
    assert("move-column-to-first"@.len() == 20);
    assert("move-column-to-last"@.len() == 19);
    assert("center-column"@.len() == 13);
    assert("consume-or-expel-window-left"@.len() == 28);
    assert("吞入/吐出窗口（左）"@.len() == 10);
    assert("吞入/吐出窗口（左）"@[8] == '左');
    assert forall|i: int| 0 <= i < "吞入/吐出窗口（左）"@.len() implies "吞入/吐出窗口（左）"@[i] != '右' by {
        assert("吞入/吐出窗口（左）"@[0] == '吞');
        assert("吞入/吐出窗口（左）"@[1] == '入');
        assert("吞入/吐出窗口（左）"@[2] == '/');
        assert("吞入/吐出窗口（左）"@[3] == '吐');
        assert("吞入/吐出窗口（左）"@[4] == '出');
        assert("吞入/吐出窗口（左）"@[5] == '窗');
        assert("吞入/吐出窗口（左）"@[6] == '口');
        assert("吞入/吐出窗口（左）"@[7] == '（');
        assert("吞入/吐出窗口（左）"@[8] == '左');
        assert("吞入/吐出窗口（左）"@[9] == '）');
    }
    assert("吞入/吐出窗口（右）"@.len() == 10);
    assert("吞入/吐出窗口（右）"@[8] == '右');
    assert forall|i: int| 0 <= i < "吞入/吐出窗口（右）"@.len() implies "吞入/吐出窗口（右）"@[i] != '左' by {
        assert("吞入/吐出窗口（右）"@[0] == '吞');
        assert("吞入/吐出窗口（右）"@[1] == '入');
        assert("吞入/吐出窗口（右）"@[2] == '/');
        assert("吞入/吐出窗口（右）"@[3] == '吐');
        assert("吞入/吐出窗口（右）"@[4] == '出');
        assert("吞入/吐出窗口（右）"@[5] == '窗');
        assert("吞入/吐出窗口（右）"@[6] == '口');
        assert("吞入/吐出窗口（右）"@[7] == '（');
        assert("吞入/吐出窗口（右）"@[8] == '右');
        assert("吞入/吐出窗口（右）"@[9] == '）');
    }
}

proof fn lemma_mirror_9(args: Seq<Seq<char>>)
    ensures
        mirrored("focus-monitor-left"@, "focus-monitor-right"@, '左', '右', args),
{
    reveal_strlit("center-column");
    reveal_strlit("close");
    reveal_strlit("close-window");
    reveal_strlit("column-left");
    reveal_strlit("column-right");
    reveal_strlit("consume-or-expel-window-left");
    reveal_strlit("consume-or-expel-window-right");
    reveal_strlit("focus-column-left");
    reveal_strlit("focus-column-right");
    reveal_strlit("focus-monitor-left");
    reveal_strlit("focus-monitor-right");
    reveal_strlit("focus-window-down");
    reveal_strlit("focus-window-left");
    reveal_strlit("focus-window-right");
    reveal_strlit("focus-window-up");
    reveal_strlit("move-column-left");
    reveal_strlit("move-column-right");
    reveal_strlit("move-column-to-first");
    reveal_strlit("move-column-to-last");
    reveal_strlit("move-window-down");
    reveal_strlit("move-window-left");
    reveal_strlit("move-window-right");
    reveal_strlit("move-window-up");
    reveal_strlit("quit");
    reveal_strlit("set-column-width");
    reveal_strlit("show-hotkey-overlay");
    reveal_strlit("spawn");
    reveal_strlit("swap-windows");
    reveal_strlit("switch-focus-between-floating-and-tiling");
    reveal_strlit("toggle-column-tabbed");
    reveal_strlit("toggle-column-tabbed-display");
    reveal_strlit("toggle-column-tiled");
    reveal_strlit("toggle-overview");
    reveal_strlit("聚焦右显示器");
    reveal_strlit("聚焦左显示器");
    assert("focus-monitor-left"@.len() == 18);
    assert("spawn"@.len() == 5);
    assert("close"@.len() == 5);
    assert("close-window"@.len() == 12);
    assert("quit"@.len() == 4);
    assert("toggle-overview"@.len() == 15);
    assert("show-hotkey-overlay"@.len() == 19);
    assert("set-column-width"@.len() == 16);
    assert("toggle-column-tabbed-display"@.len() == 28);
    assert("switch-focus-between-floating-and-tiling"@.len() == 40);
    assert("focus-window-left"@.len() == 17);
    assert("focus-window-right"@[6] == 'w' && "focus-monitor-left"@[6] == 'm');
    assert("focus-window-up"@.len() == 15);
    assert("focus-window-down"@.len() == 17);
    assert("move-window-left"@.len() == 16);
    assert("move-window-right"@.len() == 17);
    assert("move-window-up"@.len() == 14);
    assert("move-window-down"@.len() == 16);
    assert("swap-windows"@.len() == 12);
    assert("column-left"@.len() == 11);
    assert("column-right"@.len() == 12);
    assert("focus-column-left"@.len() == 17);
    assert("focus-column-right"@[6] == 'c' && "focus-monitor-left"@[6] == 'm');
    assert("move-column-left"@.len() == 16);
    assert("move-column-right"@.len() == 17);
    assert("move-column-to-first"@.len() == 20);
    assert("move-column-to-last"@.len() == 19);
    assert("center-column"@.len() == 13);
    assert("consume-or-expel-window-left"@.len() == 28);
    assert("consume-or-expel-window-right"@.len() == 29);
    assert("toggle-column-tabbed"@.len() == 20);
    assert("toggle-column-tiled"@.len() == 19);
    assert("focus-monitor-right"@.len() == 19);
    assert("spawn"@.len() == 5);
    assert("close"@.len() == 5);
    assert("close-window"@.len() == 12);
    assert("quit"@.len() == 4);
    assert("toggle-overview"@.len() == 15);
    assert("show-hotkey-overlay"@[0] == 's' && "focus-monitor-right"@[0] == 'f');
    assert("set-column-width"@.len() == 16);
    assert("toggle-column-tabbed-display"@.len() == 28);
    assert("switch-focus-between-floating-and-tiling"@.len() == 40);
    assert("focus-window-left"@.len() == 17);
    assert("focus-window-right"@.len() == 18);
    assert("focus-window-up"@.len() == 15);
    assert("focus-window-down"@.len() == 17);
    assert("move-window-left"@.len() == 16);
    assert("move-window-right"@.len() == 17);
    assert("move-window-up"@.len() == 14);
    assert("move-window-down"@.len() == 16);
    assert("swap-windows"@.len() == 12);
    assert("column-left"@.len() == 11);
    assert("column-right"@.len() == 12);
    assert("focus-column-left"@.len() == 17);
    assert("focus-column-right"@.len() == 18);
    assert("move-column-left"@.len() == 16);
    assert("move-column-right"@.len() == 17);
    assert("move-column-to-first"@.len() == 20);
    assert("move-column-to-last"@[0] == 'm' && "focus-monitor-right"@[0] == 'f');
    assert("center-column"@.len() == 13);
    assert("consume-or-expel-window-left"@.len() == 28);
    assert("consume-or-expel-window-right"@.len() == 29);
    assert("toggle-column-tabbed"@.len() == 20);
    assert("toggle-column-tiled"@[0] == 't' && "focus-monitor-right"@[0] == 'f');
    assert("focus-monitor-left"@.len() == 18);
    assert("聚焦左显示器"@.len() == 6);
    assert("聚焦左显示器"@[2] == '左');
    assert forall|i: int| 0 <= i < "聚焦左显示器"@.len() implies "聚焦左显示器"@[i] != '右' by {
        assert("聚焦左显示器"@[0] == '聚');
        assert("聚焦左显示器"@[1] == '焦');
        assert("聚焦左显示器"@[2] == '左');
        assert("聚焦左显示器"@[3] == '显');
        assert("聚焦左显示器"@[4] == '示');
        assert("聚焦左显示器"@[5] == '器');
    }
    assert("聚焦右显示器"@.len() == 6);
    assert("聚焦右显示器"@[2] == '右');
    assert forall|i: int| 0 <= i < "聚焦右显示器"@.len() implies "聚焦右显示器"@[i] != '左' by {
        assert("聚焦右显示器"@[0] == '聚');
        assert("聚焦右显示器"@[1] == '焦');
        assert("聚焦右显示器"@[2] == '右');
        assert("聚焦右显示器"@[3] == '显');
        assert("聚焦右显示器"@[4] == '示');
        assert("聚焦右显示器"@[5] == '器');
    }
}

proof fn lemma_mirror_10(args: Seq<Seq<char>>)
    ensures
        mirrored("focus-monitor-up"@, "focus-monitor-down"@, '上', '下', args),
{
    reveal_strlit("center-column");
    reveal_strlit("close");
    reveal_strlit("close-window");
    reveal_strlit("column-left");
    reveal_strlit("column-right");
    reveal_strlit("consume-or-expel-window-left");
    reveal_strlit("consume-or-expel-window-right");
    reveal_strlit("focus-column-left");
    reveal_strlit("focus-column-right");
    reveal_strlit("focus-monitor-down");
    reveal_strlit("focus-monitor-left");
    reveal_strlit("focus-monitor-right");
    reveal_strlit("focus-monitor-up");
    reveal_strlit("focus-window-down");
    reveal_strlit("focus-window-left");
    reveal_strlit("focus-window-right");
    reveal_strlit("focus-window-up");
    reveal_strlit("move-column-left");
    reveal_strlit("move-column-right");
    reveal_strlit("move-column-to-first");
    reveal_strlit("move-column-to-last");
    reveal_strlit("move-window-down");
    reveal_strlit("move-window-left");
    reveal_strlit("move-window-right");
    reveal_strlit("move-window-up");
    reveal_strlit("quit");
    reveal_strlit("set-column-width");
    reveal_strlit("show-hotkey-overlay");
    reveal_strlit("spawn");
    reveal_strlit("swap-windows");
    reveal_strlit("switch-focus-between-floating-and-tiling");
    reveal_strlit("toggle-column-tabbed");
    reveal_strlit("toggle-column-tabbed-display");
    reveal_strlit("toggle-column-tiled");
    reveal_strlit("toggle-overview");
    reveal_strlit("聚焦上显示器");
    reveal_strlit("聚焦下显示器");
    assert("focus-monitor-up"@.len() == 16);
    assert("spawn"@.len() == 5);
    assert("close"@.len() == 5);
    assert("close-window"@.len() == 12);
    assert("quit"@.len() == 4);
    assert("toggle-overview"@.len() == 15);
    assert("show-hotkey-overlay"@.len() == 19);
    assert("set-column-width"@[0] == 's' && "focus-monitor-up"@[0] == 'f');
    assert("toggle-column-tabbed-display"@.len() == 28);
    assert("switch-focus-between-floating-and-tiling"@.len() == 40);
    assert("focus-window-left"@.len() == 17);
    assert("focus-window-right"@.len() == 18);
    assert("focus-window-up"@.len() == 15);
    assert("focus-window-down"@.len() == 17);
    assert("move-window-left"@[0] == 'm' && "focus-monitor-up"@[0] == 'f');
    assert("move-window-right"@.len() == 17);
    assert("move-window-up"@.len() == 14);
    assert("move-window-down"@[0] == 'm' && "focus-monitor-up"@[0] == 'f');
    assert("swap-windows"@.len() == 12);
    assert("column-left"@.len() == 11);
    assert("column-right"@.len() == 12);
    assert("focus-column-left"@.len() == 17);
    assert("focus-column-right"@.len() == 18);
    assert("move-column-left"@[0] == 'm' && "focus-monitor-up"@[0] == 'f');
    assert("move-column-right"@.len() == 17);
    assert("move-column-to-first"@.len() == 20);
    assert("move-column-to-last"@.len() == 19);
    assert("center-column"@.len() == 13);
    assert("consume-or-expel-window-left"@.len() == 28);
    assert("consume-or-expel-window-right"@.len() == 29);
    assert("toggle-column-tabbed"@.len() == 20);
    assert("toggle-column-tiled"@.len() == 19);
    assert("focus-monitor-left"@.len() == 18);
    assert("focus-monitor-right"@.len() == 19);
    assert("focus-monitor-down"@.len() == 18);
    assert("spawn"@.len() == 5);
    assert("close"@.len() == 5);
    assert("close-window"@.len() == 12);
    assert("quit"@.len() == 4);
    assert("toggle-overview"@.len() == 15);
    assert("show-hotkey-overlay"@.len() == 19);
    assert("set-column-width"@.len() == 16);
    assert("toggle-column-tabbed-display"@.len() == 28);
    assert("switch-focus-between-floating-and-tiling"@.len() == 40);
    assert("focus-window-left"@.len() == 17);
    assert("focus-window-right"@[6] == 'w' && "focus-monitor-down"@[6] == 'm');
    assert("focus-window-up"@.len() == 15);
    assert("focus-window-down"@.len() == 17);
    assert("move-window-left"@.len() == 16);
    assert("move-window-right"@.len() == 17);
    assert("move-window-up"@.len() == 14);
    assert("move-window-down"@.len() == 16);
    assert("swap-windows"@.len() == 12);
    assert("column-left"@.len() == 11);
    assert("column-right"@.len() == 12);
    assert("focus-column-left"@.len() == 17);
    assert("focus-column-right"@[6] == 'c' && "focus-monitor-down"@[6] == 'm');
    assert("move-column-left"@.len() == 16);
    assert("move-column-right"@.len() == 17);
    assert("move-column-to-first"@.len() == 20);
    assert("move-column-to-last"@.len() == 19);
    assert("center-column"@.len() == 13);
    assert("consume-or-expel-window-left"@.len() == 28);
    assert("consume-or-expel-window-right"@.len() == 29);
    assert("toggle-column-tabbed"@.len() == 20);
    assert("toggle-column-tiled"@.len() == 19);
    assert("focus-monitor-left"@[14] == 'l' && "focus-monitor-down"@[14] == 'd');
    assert("focus-monitor-right"@.len() == 19);
    assert("focus-monitor-up"@.len() == 16);
    assert("聚焦上显示器"@.len() == 6);
    assert("聚焦上显示器"@[2] == '上');
    assert forall|i: int| 0 <= i < "聚焦上显示器"@.len() implies "聚焦上显示器"@[i] != '下' by {
        assert("聚焦上显示器"@[0] == '聚');
        assert("聚焦上显示器"@[1] == '焦');
        assert("聚焦上显示器"@[2] == '上');
        assert("聚焦上显示器"@[3] == '显');
        assert("聚焦上显示器"@[4] == '示');
        assert("聚焦上显示器"@[5] == '器');
    }
    assert("聚焦下显示器"@.len() == 6);
    assert("聚焦下显示器"@[2] == '下');
    assert forall|i: int| 0 <= i < "聚焦下显示器"@.len() implies "聚焦下显示器"@[i] != '上' by {
        assert("聚焦下显示器"@[0] == '聚');
        assert("聚焦下显示器"@[1] == '焦');
        assert("聚焦下显示器"@[2] == '下');
        assert("聚焦下显示器"@[3] == '显');
        assert("聚焦下显示器"@[4] == '示');
        assert("聚焦下显示器"@[5] == '器');
    }
}

proof fn lemma_mirror_11(args: Seq<Seq<char>>)
    ensures
        mirrored("move-window-to-monitor-left"@, "move-window-to-monitor-right"@, '左', '右', args),
{
    reveal_strlit("center-column");
    reveal_strlit("close");
    reveal_strlit("close-window");
    reveal_strlit("column-left");
    reveal_strlit("column-right");
    reveal_strlit("consume-or-expel-window-left");
    reveal_strlit("consume-or-expel-window-right");
    reveal_strlit("focus-column-left");
    reveal_strlit("focus-column-right");
    reveal_strlit("focus-monitor-down");
    reveal_strlit("focus-monitor-left");
    reveal_strlit("focus-monitor-right");
    reveal_strlit("focus-monitor-up");
    reveal_strlit("focus-window-down");
    reveal_strlit("focus-window-left");
    reveal_strlit("focus-window-right");
    reveal_strlit("focus-window-up");
    reveal_strlit("move-column-left");
    reveal_strlit("move-column-right");
    reveal_strlit("move-column-to-first");
    reveal_strlit("move-column-to-last");
    reveal_strlit("move-window-down");
    reveal_strlit("move-window-left");
    reveal_strlit("move-window-right");
    reveal_strlit("move-window-to-monitor-left");
    reveal_strlit("move-window-to-monitor-right");
    reveal_strlit("move-window-up");
    reveal_strlit("quit");
    reveal_strlit("set-column-width");
    reveal_strlit("show-hotkey-overlay");
    reveal_strlit("spawn");
    reveal_strlit("swap-windows");
    reveal_strlit("switch-focus-between-floating-and-tiling");
    reveal_strlit("toggle-column-tabbed");
    reveal_strlit("toggle-column-tabbed-display");
    reveal_strlit("toggle-column-tiled");
    reveal_strlit("toggle-overview");
    reveal_strlit("窗口移到右显示器");
    reveal_strlit("窗口移到左显示器");
    assert("move-window-to-monitor-left"@.len() == 27);
    assert("spawn"@.len() == 5);
    assert("close"@.len() == 5);
    assert("close-window"@.len() == 12);
    assert("quit"@.len() == 4);
    assert("toggle-overview"@.len() == 15);
    assert("show-hotkey-overlay"@.len() == 19);
    assert("set-column-width"@.len() == 16);
    assert("toggle-column-tabbed-display"@.len() == 28);
    assert("switch-focus-between-floating-and-tiling"@.len() == 40);
    assert("focus-window-left"@.len() == 17);
    assert("focus-window-right"@.len() == 18);
    assert("focus-window-up"@.len() == 15);
    assert("focus-window-down"@.len() == 17);
    assert("move-window-left"@.len() == 16);
    assert("move-window-right"@.len() == 17);
    assert("move-window-up"@.len() == 14);
    assert("move-window-down"@.len() == 16);
    assert("swap-windows"@.len() == 12);
    assert("column-left"@.len() == 11);
    assert("column-right"@.len() == 12);
    assert("focus-column-left"@.len() == 17);
    assert("focus-column-right"@.len() == 18);
    assert("move-column-left"@.len() == 16);
    assert("move-column-right"@.len() == 17);
    assert("move-column-to-first"@.len() == 20);
    assert("move-column-to-last"@.len() == 19);
    assert("center-column"@.len() == 13);
    assert("consume-or-expel-window-left"@.len() == 28);
    assert("consume-or-expel-window-right"@.len() == 29);
    assert("toggle-column-tabbed"@.len() == 20);
    assert("toggle-column-tiled"@.len() == 19);
    assert("focus-monitor-left"@.len() == 18);
    assert("focus-monitor-right"@.len() == 19);
    assert("focus-monitor-up"@.len() == 16);
    assert("focus-monitor-down"@.len() == 18);
    assert("move-window-to-monitor-right"@.len() == 28);
    assert("spawn"@.len() == 5);
    assert("close"@.len() == 5);
    assert("close-window"@.len() == 12);
    assert("quit"@.len() == 4);
    assert("toggle-overview"@.len() == 15);
    assert("show-hotkey-overlay"@.len() == 19);
    assert("set-column-width"@.len() == 16);
    assert("toggle-column-tabbed-display"@[0] == 't' && "move-window-to-monitor-right"@[0] == 'm');
    assert("switch-focus-between-floating-and-tiling"@.len() == 40);
    assert("focus-window-left"@.len() == 17);
    assert("focus-window-right"@.len() == 18);
    assert("focus-window-up"@.len() == 15);
    assert("focus-window-down"@.len() == 17);
    assert("move-window-left"@.len() == 16);
    assert("move-window-right"@.len() == 17);
    assert("move-window-up"@.len() == 14);
    assert("move-window-down"@.len() == 16);
    assert("swap-windows"@.len() == 12);
    assert("column-left"@.len() == 11);
    assert("column-right"@.len() == 12);
    assert("focus-column-left"@.len() == 17);
    assert("focus-column-right"@.len() == 18);
    assert("move-column-left"@.len() == 16);
    assert("move-column-right"@.len() == 17);
    assert("move-column-to-first"@.len() == 20);
    assert("move-column-to-last"@.len() == 19);
    assert("center-column"@.len() == 13);
    assert("consume-or-expel-window-left"@[0] == 'c' && "move-window-to-monitor-right"@[0] == 'm');
    assert("consume-or-expel-window-right"@.len() == 29);
    assert("toggle-column-tabbed"@.len() == 20);
    assert("toggle-column-tiled"@.len() == 19);
    assert("focus-monitor-left"@.len() == 18);
    assert("focus-monitor-right"@.len() == 19);
    assert("focus-monitor-up"@.len() == 16);
    assert("focus-monitor-down"@.len() == 18);
    assert("move-window-to-monitor-left"@.len() == 27);
    assert("窗口移到左显示器"@.len() == 8);
    assert("窗口移到左显示器"@[4] == '左');
    assert forall|i: int| 0 <= i < "窗口移到左显示器"@.len() implies "窗口移到左显示器"@[i] != '右' by {
        assert("窗口移到左显示器"@[0] == '窗');
        assert("窗口移到左显示器"@[1] == '口');
        assert("窗口移到左显示器"@[2] == '移');
        assert("窗口移到左显示器"@[3] == '到');
        assert("窗口移到左显示器"@[4] == '左');
        assert("窗口移到左显示器"@[5] == '显');
        assert("窗口移到左显示器"@[6] == '示');
        assert("窗口移到左显示器"@[7] == '器');
    }
    assert("窗口移到右显示器"@.len() == 8);
    assert("窗口移到右显示器"@[4] == '右');
    assert forall|i: int| 0 <= i < "窗口移到右显示器"@.len() implies "窗口移到右显示器"@[i] != '左' by {
        assert("窗口移到右显示器"@[0] == '窗');
        assert("窗口移到右显示器"@[1] == '口');
        assert("窗口移到右显示器"@[2] == '移');
        assert("窗口移到右显示器"@[3] == '到');
        assert("窗口移到右显示器"@[4] == '右');
        assert("窗口移到右显示器"@[5] == '显');
        assert("窗口移到右显示器"@[6] == '示');
        assert("窗口移到右显示器"@[7] == '器');
    }
}

proof fn lemma_mirror_12(args: Seq<Seq<char>>)
    ensures
        mirrored("move-window-to-monitor-up"@, "move-window-to-monitor-down"@, '上', '下', args),
{
    reveal_strlit("center-column");
    reveal_strlit("close");
    reveal_strlit("close-window");
    reveal_strlit("column-left");
    reveal_strlit("column-right");
    reveal_strlit("consume-or-expel-window-left");
    reveal_strlit("consume-or-expel-window-right");
    reveal_strlit("focus-column-left");
    reveal_strlit("focus-column-right");
    reveal_strlit("focus-monitor-down");
    reveal_strlit("focus-monitor-left");
    reveal_strlit("focus-monitor-right");
    reveal_strlit("focus-monitor-up");
    reveal_strlit("focus-window-down");
    reveal_strlit("focus-window-left");
    reveal_strlit("focus-window-right");
    reveal_strlit("focus-window-up");
    reveal_strlit("move-column-left");
    reveal_strlit("move-column-right");
    reveal_strlit("move-column-to-first");
    reveal_strlit("move-column-to-last");
    reveal_strlit("move-window-down");
    reveal_strlit("move-window-left");
    reveal_strlit("move-window-right");
    reveal_strlit("move-window-to-monitor-down");
    reveal_strlit("move-window-to-monitor-left");
    reveal_strlit("move-window-to-monitor-right");
    reveal_strlit("move-window-to-monitor-up");
    reveal_strlit("move-window-up");
    reveal_strlit("quit");
    reveal_strlit("set-column-width");
    reveal_strlit("show-hotkey-overlay");
    reveal_strlit("spawn");
    reveal_strlit("swap-windows");
    reveal_strlit("switch-focus-between-floating-and-tiling");
    reveal_strlit("toggle-column-tabbed");
    reveal_strlit("toggle-column-tabbed-display");
    reveal_strlit("toggle-column-tiled");
    reveal_strlit("toggle-overview");
    reveal_strlit("窗口移到上显示器");
    reveal_strlit("窗口移到下显示器");
    assert("move-window-to-monitor-up"@.len() == 25);
    assert("spawn"@.len() == 5);
    assert("close"@.len() == 5);
    assert("close-window"@.len() == 12);
    assert("quit"@.len() == 4);
    assert("toggle-overview"@.len() == 15);
    assert("show-hotkey-overlay"@.len() == 19);
    assert("set-column-width"@.len() == 16);
    assert("toggle-column-tabbed-display"@.len() == 28);
    assert("switch-focus-between-floating-and-tiling"@.len() == 40);
    assert("focus-window-left"@.len() == 17);
    assert("focus-window-right"@.len() == 18);
    assert("focus-window-up"@.len() == 15);
    assert("focus-window-down"@.len() == 17);
    assert("move-window-left"@.len() == 16);
    assert("move-window-right"@.len() == 17);
    assert("move-window-up"@.len() == 14);
    assert("move-window-down"@.len() == 16);
    assert("swap-windows"@.len() == 12);
    assert("column-left"@.len() == 11);
    assert("column-right"@.len() == 12);
    assert("focus-column-left"@.len() == 17);
    assert("focus-column-right"@.len() == 18);
    assert("move-column-left"@.len() == 16);
    assert("move-column-right"@.len() == 17);
    assert("move-column-to-first"@.len() == 20);
    assert("move-column-to-last"@.len() == 19);
    assert("center-column"@.len() == 13);
    assert("consume-or-expel-window-left"@.len() == 28);
    assert("consume-or-expel-window-right"@.len() == 29);
    assert("toggle-column-tabbed"@.len() == 20);
    assert("toggle-column-tiled"@.len() == 19);
    assert("focus-monitor-left"@.len() == 18);
    assert("focus-monitor-right"@.len() == 19);
    assert("focus-monitor-up"@.len() == 16);
    assert("focus-monitor-down"@.len() == 18);
    assert("move-window-to-monitor-left"@.len() == 27);
    assert("move-window-to-monitor-right"@.len() == 28);
    assert("move-window-to-monitor-down"@.len() == 27);
    assert("spawn"@.len() == 5);
    assert("close"@.len() == 5);
    assert("close-window"@.len() == 12);
    assert("quit"@.len() == 4);
    assert("toggle-overview"@.len() == 15);
    assert("show-hotkey-overlay"@.len() == 19);
    assert("set-column-width"@.len() == 16);
    assert("toggle-column-tabbed-display"@.len() == 28);
    assert("switch-focus-between-floating-and-tiling"@.len() == 40);
    assert("focus-window-left"@.len() == 17);
    assert("focus-window-right"@.len() == 18);
    assert("focus-window-up"@.len() == 15);
    assert("focus-window-down"@.len() == 17);
    assert("move-window-left"@.len() == 16);
    assert("move-window-right"@.len() == 17);
    assert("move-window-up"@.len() == 14);
    assert("move-window-down"@.len() == 16);
    assert("swap-windows"@.len() == 12);
    assert("column-left"@.len() == 11);
    assert("column-right"@.len() == 12);
    assert("focus-column-left"@.len() == 17);
    assert("focus-column-right"@.len() == 18);
    assert("move-column-left"@.len() == 16);
    assert("move-column-right"@.len() == 17);
    assert("move-column-to-first"@.len() == 20);
    assert("move-column-to-last"@.len() == 19);
    assert("center-column"@.len() == 13);
    assert("consume-or-expel-window-left"@.len() == 28);
    assert("consume-or-expel-window-right"@.len() == 29);
    assert("toggle-column-tabbed"@.len() == 20);
    assert("toggle-column-tiled"@.len() == 19);
    assert("focus-monitor-left"@.len() == 18);
    assert("focus-monitor-right"@.len() == 19);
    assert("focus-monitor-up"@.len() == 16);
    assert("focus-monitor-down"@.len() == 18);
    assert("move-window-to-monitor-left"@[23] == 'l' && "move-window-to-monitor-down"@[23] == 'd');
    assert("move-window-to-monitor-right"@.len() == 28);
    assert("move-window-to-monitor-up"@.len() == 25);
    assert("窗口移到上显示器"@.len() == 8);
    assert("窗口移到上显示器"@[4] == '上');
    assert forall|i: int| 0 <= i < "窗口移到上显示器"@.len() implies "窗口移到上显示器"@[i] != '下' by {
        assert("窗口移到上显示器"@[0] == '窗');
        assert("窗口移到上显示器"@[1] == '口');
        assert("窗口移到上显示器"@[2] == '移');
        assert("窗口移到上显示器"@[3] == '到');
        assert("窗口移到上显示器"@[4] == '上');
        assert("窗口移到上显示器"@[5] == '显');
        assert("窗口移到上显示器"@[6] == '示');
        assert("窗口移到上显示器"@[7] == '器');
    }
    assert("窗口移到下显示器"@.len() == 8);
    assert("窗口移到下显示器"@[4] == '下');
    assert forall|i: int| 0 <= i < "窗口移到下显示器"@.len() implies "窗口移到下显示器"@[i] != '上' by {
        assert("窗口移到下显示器"@[0] == '窗');
        assert("窗口移到下显示器"@[1] == '口');
        assert("窗口移到下显示器"@[2] == '移');
        assert("窗口移到下显示器"@[3] == '到');
        assert("窗口移到下显示器"@[4] == '下');
        assert("窗口移到下显示器"@[5] == '显');
        assert("窗口移到下显示器"@[6] == '示');
        assert("窗口移到下显示器"@[7] == '器');
    }
}

proof fn lemma_mirror_13(args: Seq<Seq<char>>)
    ensures
        mirrored("workspace-up"@, "workspace-down"@, '上', '下', args),
{
    reveal_strlit("center-column");
    reveal_strlit("close");
    reveal_strlit("close-window");
    reveal_strlit("column-left");
    reveal_strlit("column-right");
    reveal_strlit("consume-or-expel-window-left");
    reveal_strlit("consume-or-expel-window-right");
    reveal_strlit("focus-column-left");
    reveal_strlit("focus-column-right");
    reveal_strlit("focus-monitor-down");
    reveal_strlit("focus-monitor-left");
    reveal_strlit("focus-monitor-right");
    reveal_strlit("focus-monitor-up");
    reveal_strlit("focus-window-down");
    reveal_strlit("focus-window-left");
    reveal_strlit("focus-window-right");
    reveal_strlit("focus-window-up");
    reveal_strlit("move-column-left");
    reveal_strlit("move-column-right");
    reveal_strlit("move-column-to-first");
    reveal_strlit("move-column-to-last");
    reveal_strlit("move-to-workspace-down");
    reveal_strlit("move-to-workspace-up");
    reveal_strlit("move-window-down");
    reveal_strlit("move-window-left");
    reveal_strlit("move-window-right");
    reveal_strlit("move-window-to-monitor-down");
    reveal_strlit("move-window-to-monitor-left");
    reveal_strlit("move-window-to-monitor-right");
    reveal_strlit("move-window-to-monitor-up");
    reveal_strlit("move-window-up");
    reveal_strlit("quit");
    reveal_strlit("set-column-width");
    reveal_strlit("show-hotkey-overlay");
    reveal_strlit("spawn");
    reveal_strlit("swap-windows");
    reveal_strlit("switch-focus-between-floating-and-tiling");
    reveal_strlit("toggle-column-tabbed");
    reveal_strlit("toggle-column-tabbed-display");
    reveal_strlit("toggle-column-tiled");
    reveal_strlit("toggle-overview");
    reveal_strlit("workspace");
    reveal_strlit("workspace-down");
    reveal_strlit("workspace-up");
    reveal_strlit("上一工作区");
    reveal_strlit("下一工作区");
    assert("workspace-up"@.len() == 12);
    assert("spawn"@.len() == 5);
    assert("close"@.len() == 5);
    assert("close-window"@[0] == 'c' && "workspace-up"@[0] == 'w');
    assert("quit"@.len() == 4);
    assert("toggle-overview"@.len() == 15);
    assert("show-hotkey-overlay"@.len() == 19);
    assert("set-column-width"@.len() == 16);
    assert("toggle-column-tabbed-display"@.len() == 28);
    assert("switch-focus-between-floating-and-tiling"@.len() == 40);
    assert("focus-window-left"@.len() == 17);
    assert("focus-window-right"@.len() == 18);
    assert("focus-window-up"@.len() == 15);
    assert("focus-window-down"@.len() == 17);
    assert("move-window-left"@.len() == 16);
    assert("move-window-right"@.len() == 17);
    assert("move-window-up"@.len() == 14);
    assert("move-window-down"@.len() == 16);
    assert("swap-windows"@[0] == 's' && "workspace-up"@[0] == 'w');
    assert("column-left"@.len() == 11);
    assert("column-right"@[0] == 'c' && "workspace-up"@[0] == 'w');
    assert("focus-column-left"@.len() == 17);
    assert("focus-column-right"@.len() == 18);
    assert("move-column-left"@.len() == 16);
    assert("move-column-right"@.len() == 17);
    assert("move-column-to-first"@.len() == 20);
    assert("move-column-to-last"@.len() == 19);
    assert("center-column"@.len() == 13);
    assert("consume-or-expel-window-left"@.len() == 28);
    assert("consume-or-expel-window-right"@.len() == 29);
    assert("toggle-column-tabbed"@.len() == 20);
    assert("toggle-column-tiled"@.len() == 19);
    assert("focus-monitor-left"@.len() == 18);
    assert("focus-monitor-right"@.len() == 19);
    assert("focus-monitor-up"@.len() == 16);
    assert("focus-monitor-down"@.len() == 18);
    assert("move-window-to-monitor-left"@.len() == 27);
    assert("move-window-to-monitor-right"@.len() == 28);
    assert("move-window-to-monitor-up"@.len() == 25);
    assert("move-window-to-monitor-down"@.len() == 27);
    assert("move-to-workspace-down"@.len() == 22);
    assert("move-to-workspace-up"@.len() == 20);
    assert("workspace"@.len() == 9);
    assert("workspace-down"@.len() == 14);
    assert("spawn"@.len() == 5);
    assert("close"@.len() == 5);
    assert("close-window"@.len() == 12);
    assert("quit"@.len() == 4);
    assert("toggle-overview"@.len() == 15);
    assert("show-hotkey-overlay"@.len() == 19);
    assert("set-column-width"@.len() == 16);
    assert("toggle-column-tabbed-display"@.len() == 28);
    assert("switch-focus-between-floating-and-tiling"@.len() == 40);
    assert("focus-window-left"@.len() == 17);
    assert("focus-window-right"@.len() == 18);
    assert("focus-window-up"@.len() == 15);
    assert("focus-window-down"@.len() == 17);
    assert("move-window-left"@.len() == 16);
    assert("move-window-right"@.len() == 17);
    assert("move-window-up"@[0] == 'm' && "workspace-down"@[0] == 'w');
    assert("move-window-down"@.len() == 16);
    assert("swap-windows"@.len() == 12);
    assert("column-left"@.len() == 11);
    assert("column-right"@.len() == 12);
    assert("focus-column-left"@.len() == 17);
    assert("focus-column-right"@.len() == 18);
    assert("move-column-left"@.len() == 16);
    assert("move-column-right"@.len() == 17);
    assert("move-column-to-first"@.len() == 20);
    assert("move-column-to-last"@.len() == 19);
    assert("center-column"@.len() == 13);
    assert("consume-or-expel-window-left"@.len() == 28);
    assert("consume-or-expel-window-right"@.len() == 29);
    assert("toggle-column-tabbed"@.len() == 20);
    assert("toggle-column-tiled"@.len() == 19);
    assert("focus-monitor-left"@.len() == 18);
    assert("focus-monitor-right"@.len() == 19);
    assert("focus-monitor-up"@.len() == 16);
    assert("focus-monitor-down"@.len() == 18);
    assert("move-window-to-monitor-left"@.len() == 27);
    assert("move-window-to-monitor-right"@.len() == 28);
    assert("move-window-to-monitor-up"@.len() == 25);
    assert("move-window-to-monitor-down"@.len() == 27);
    assert("move-to-workspace-down"@.len() == 22);
    assert("move-to-workspace-up"@.len() == 20);
    assert("workspace"@.len() == 9);
    assert("workspace-up"@.len() == 12);
    assert("上一工作区"@.len() == 5);
    assert("上一工作区"@[0] == '上');
    assert forall|i: int| 0 <= i < "上一工作区"@.len() implies "上一工作区"@[i] != '下' by {
        assert("上一工作区"@[0] == '上');
        assert("上一工作区"@[1] == '一');
        assert("上一工作区"@[2] == '工');
        assert("上一工作区"@[3] == '作');
        assert("上一工作区"@[4] == '区');
    }
    assert("下一工作区"@.len() == 5);
    assert("下一工作区"@[0] == '下');
    assert forall|i: int| 0 <= i < "下一工作区"@.len() implies "下一工作区"@[i] != '上' by {
        assert("下一工作区"@[0] == '下');
        assert("下一工作区"@[1] == '一');
        assert("下一工作区"@[2] == '工');
        assert("下一工作区"@[3] == '作');
        assert("下一工作区"@[4] == '区');
    }
}

proof fn lemma_mirror_14(args: Seq<Seq<char>>)
    ensures
        mirrored("next-window"@, "previous-window"@, '下', '上', args),
{
    reveal_strlit("center-column");
    reveal_strlit("close");
    reveal_strlit("close-window");
    reveal_strlit("column-left");
    reveal_strlit("column-right");
    reveal_strlit("consume-or-expel-window-left");
    reveal_strlit("consume-or-expel-window-right");
    reveal_strlit("focus-column-left");
    reveal_strlit("focus-column-right");
    reveal_strlit("focus-monitor-down");
    reveal_strlit("focus-monitor-left");
    reveal_strlit("focus-monitor-right");
    reveal_strlit("focus-monitor-up");
    reveal_strlit("focus-window-down");
    reveal_strlit("focus-window-left");
    reveal_strlit("focus-window-right");
    reveal_strlit("focus-window-up");
    reveal_strlit("fullscreen");
    reveal_strlit("fullscreen-window");
    reveal_strlit("move-column-left");
    reveal_strlit("move-column-right");
    reveal_strlit("move-column-to-first");
    reveal_strlit("move-column-to-last");
    reveal_strlit("move-to-workspace-down");
    reveal_strlit("move-to-workspace-up");
    reveal_strlit("move-window-down");
    reveal_strlit("move-window-left");
    reveal_strlit("move-window-right");
    reveal_strlit("move-window-to-monitor-down");
    reveal_strlit("move-window-to-monitor-left");
    reveal_strlit("move-window-to-monitor-right");
    reveal_strlit("move-window-to-monitor-up");
    reveal_strlit("move-window-up");
    reveal_strlit("next-window");
    reveal_strlit("previous-window");
    reveal_strlit("quit");
    reveal_strlit("reset-window-height");
    reveal_strlit("screenshot");
    reveal_strlit("screenshot-screen");
    reveal_strlit("screenshot-window");
    reveal_strlit("set-column-width");
    reveal_strlit("show-hotkey-overlay");
    reveal_strlit("spawn");
    reveal_strlit("swap-windows");
    reveal_strlit("switch-focus-between-floating-and-tiling");
    reveal_strlit("toggle-column-tabbed");
    reveal_strlit("toggle-column-tabbed-display");
    reveal_strlit("toggle-column-tiled");
    reveal_strlit("toggle-fullscreen");
    reveal_strlit("toggle-keyboard-shortcuts-inhibit");
    reveal_strlit("toggle-overview");
    reveal_strlit("workspace");
    reveal_strlit("workspace-down");
    reveal_strlit("workspace-up");
    reveal_strlit("切换到上一个窗口");
    reveal_strlit("切换到下一个窗口");
    assert("next-window"@.len() == 11);
    assert("spawn"@.len() == 5);
    assert("close"@.len() == 5);
    assert("close-window"@.len() == 12);
    assert("quit"@.len() == 4);
    assert("toggle-overview"@.len() == 15);
    assert("show-hotkey-overlay"@.len() == 19);
    assert("set-column-width"@.len() == 16);
    assert("toggle-column-tabbed-display"@.len() == 28);
    assert("switch-focus-between-floating-and-tiling"@.len() == 40);
    assert("focus-window-left"@.len() == 17);
    assert("focus-window-right"@.len() == 18);
    assert("focus-window-up"@.len() == 15);
    assert("focus-window-down"@.len() == 17);
    assert("move-window-left"@.len() == 16);
    assert("move-window-right"@.len() == 17);
    assert("move-window-up"@.len() == 14);
    assert("move-window-down"@.len() == 16);
    assert("swap-windows"@.len() == 12);
    assert("column-left"@[0] == 'c' && "next-window"@[0] == 'n');
    assert("column-right"@.len() == 12);
    assert("focus-column-left"@.len() == 17);
    assert("focus-column-right"@.len() == 18);
    assert("move-column-left"@.len() == 16);
    assert("move-column-right"@.len() == 17);
    assert("move-column-to-first"@.len() == 20);
    assert("move-column-to-last"@.len() == 19);
    assert("center-column"@.len() == 13);
    assert("consume-or-expel-window-left"@.len() == 28);
    assert("consume-or-expel-window-right"@.len() == 29);
    assert("toggle-column-tabbed"@.len() == 20);
    assert("toggle-column-tiled"@.len() == 19);
    assert("focus-monitor-left"@.len() == 18);
    assert("focus-monitor-right"@.len() == 19);
    assert("focus-monitor-up"@.len() == 16);
    assert("focus-monitor-down"@.len() == 18);
    assert("move-window-to-monitor-left"@.len() == 27);
    assert("move-window-to-monitor-right"@.len() == 28);
    assert("move-window-to-monitor-up"@.len() == 25);
    assert("move-window-to-monitor-down"@.len() == 27);
    assert("move-to-workspace-down"@.len() == 22);
    assert("move-to-workspace-up"@.len() == 20);
    assert("workspace"@.len() == 9);
    assert("workspace-up"@.len() == 12);
    assert("workspace-down"@.len() == 14);
    assert("screenshot"@.len() == 10);
    assert("screenshot-screen"@.len() == 17);
    assert("screenshot-window"@.len() == 17);
    assert("toggle-fullscreen"@.len() == 17);
    assert("fullscreen"@.len() == 10);
    assert("fullscreen-window"@.len() == 17);
    assert("reset-window-height"@.len() == 19);
    assert("toggle-keyboard-shortcuts-inhibit"@.len() == 33);
    assert("previous-window"@.len() == 15);
    assert("spawn"@.len() == 5);
    assert("close"@.len() == 5);
    assert("close-window"@.len() == 12);
    assert("quit"@.len() == 4);
    assert("toggle-overview"@[0] == 't' && "previous-window"@[0] == 'p');
    assert("show-hotkey-overlay"@.len() == 19);
    assert("set-column-width"@.len() == 16);
    assert("toggle-column-tabbed-display"@.len() == 28);
    assert("switch-focus-between-floating-and-tiling"@.len() == 40);
    assert("focus-window-left"@.len() == 17);
    assert("focus-window-right"@.len() == 18);
    assert("focus-window-up"@[0] == 'f' && "previous-window"@[0] == 'p');
    assert("focus-window-down"@.len() == 17);
    assert("move-window-left"@.len() == 16);
    assert("move-window-right"@.len() == 17);
    assert("move-window-up"@.len() == 14);
    assert("move-window-down"@.len() == 16);
    assert("swap-windows"@.len() == 12);
    assert("column-left"@.len() == 11);
    assert("column-right"@.len() == 12);
    assert("focus-column-left"@.len() == 17);
    assert("focus-column-right"@.len() == 18);
    assert("move-column-left"@.len() == 16);
    assert("move-column-right"@.len() == 17);
    assert("move-column-to-first"@.len() == 20);
    assert("move-column-to-last"@.len() == 19);
    assert("center-column"@.len() == 13);
    assert("consume-or-expel-window-left"@.len() == 28);
    assert("consume-or-expel-window-right"@.len() == 29);
    assert("toggle-column-tabbed"@.len() == 20);
    assert("toggle-column-tiled"@.len() == 19);
    assert("focus-monitor-left"@.len() == 18);
    assert("focus-monitor-right"@.len() == 19);
    assert("focus-monitor-up"@.len() == 16);
    assert("focus-monitor-down"@.len() == 18);
    assert("move-window-to-monitor-left"@.len() == 27);
    assert("move-window-to-monitor-right"@.len() == 28);
    assert("move-window-to-monitor-up"@.len() == 25);
    assert("move-window-to-monitor-down"@.len() == 27);
    assert("move-to-workspace-down"@.len() == 22);
    assert("move-to-workspace-up"@.len() == 20);
    assert("workspace"@.len() == 9);
    assert("workspace-up"@.len() == 12);
    assert("workspace-down"@.len() == 14);
    assert("screenshot"@.len() == 10);
    assert("screenshot-screen"@.len() == 17);
    assert("screenshot-window"@.len() == 17);
    assert("toggle-fullscreen"@.len() == 17);
    assert("fullscreen"@.len() == 10);
    assert("fullscreen-window"@.len() == 17);
    assert("reset-window-height"@.len() == 19);
    assert("toggle-keyboard-shortcuts-inhibit"@.len() == 33);
    assert("next-window"@.len() == 11);
    assert("切换到下一个窗口"@.len() == 8);
    assert("切换到下一个窗口"@[3] == '下');
    assert forall|i: int| 0 <= i < "切换到下一个窗口"@.len() implies "切换到下一个窗口"@[i] != '上' by {
        assert("切换到下一个窗口"@[0] == '切');
        assert("切换到下一个窗口"@[1] == '换');
        assert("切换到下一个窗口"@[2] == '到');
        assert("切换到下一个窗口"@[3] == '下');
        assert("切换到下一个窗口"@[4] == '一');
        assert("切换到下一个窗口"@[5] == '个');
        assert("切换到下一个窗口"@[6] == '窗');
        assert("切换到下一个窗口"@[7] == '口');
    }
    assert("切换到上一个窗口"@.len() == 8);
    assert("切换到上一个窗口"@[3] == '上');
    assert forall|i: int| 0 <= i < "切换到上一个窗口"@.len() implies "切换到上一个窗口"@[i] != '下' by {
        assert("切换到上一个窗口"@[0] == '切');
        assert("切换到上一个窗口"@[1] == '换');
        assert("切换到上一个窗口"@[2] == '到');
        assert("切换到上一个窗口"@[3] == '上');
        assert("切换到上一个窗口"@[4] == '一');
        assert("切换到上一个窗口"@[5] == '个');
        assert("切换到上一个窗口"@[6] == '窗');
        assert("切换到上一个窗口"@[7] == '口');
    }
}

/// Mirrored niri actions are told apart whatever their arguments: each
/// left/right, up/down, first/last and next/previous pair of fixed actions
/// gets two different descriptions, each naming its own direction
/// (左/右, 上/下) and not the opposite one.
pub proof fn law_mirrored_actions_differ(args: Seq<Seq<char>>)
    ensures
        mirrored("focus-window-left"@, "focus-window-right"@, '左', '右', args),
        mirrored("focus-window-up"@, "focus-window-down"@, '上', '下', args),
        mirrored("move-window-left"@, "move-window-right"@, '左', '右', args),
        mirrored("move-window-up"@, "move-window-down"@, '上', '下', args),
        mirrored("column-left"@, "column-right"@, '左', '右', args),
        mirrored("focus-column-left"@, "focus-column-right"@, '左', '右', args),
        mirrored("move-column-left"@, "move-column-right"@, '左', '右', args),
        mirrored("move-column-to-first"@, "move-column-to-last"@, '左', '右', args),
        mirrored("consume-or-expel-window-left"@, "consume-or-expel-window-right"@, '左', '右', args),
        mirrored("focus-monitor-left"@, "focus-monitor-right"@, '左', '右', args),
        mirrored("focus-monitor-up"@, "focus-monitor-down"@, '上', '下', args),
        mirrored("move-window-to-monitor-left"@, "move-window-to-monitor-right"@, '左', '右', args),
        mirrored("move-window-to-monitor-up"@, "move-window-to-monitor-down"@, '上', '下', args),
        mirrored("workspace-up"@, "workspace-down"@, '上', '下', args),
        mirrored("next-window"@, "previous-window"@, '下', '上', args),
{
    lemma_mirror_0(args);
    lemma_mirror_1(args);
    lemma_mirror_2(args);
    lemma_mirror_3(args);
    lemma_mirror_4(args);
    lemma_mirror_5(args);
    lemma_mirror_6(args);
    lemma_mirror_7(args);
    lemma_mirror_8(args);
    lemma_mirror_9(args);
    lemma_mirror_10(args);
    lemma_mirror_11(args);
    lemma_mirror_12(args);
    lemma_mirror_13(args);
    lemma_mirror_14(args);
}

fn friendly_chars(name: &Vec<char>, args: &Vec<Vec<char>>) -> (out: Vec<char>)
    ensures
        out@ == friendly_spec(name@, args@.map_values(|p: Vec<char>| p@)),
{
    let ghost av = args@.map_values(|p: Vec<char>| p@);
    if eq_lit(name, "spawn") {
        return spawn_desc_chars(args);
    }
    match fixed_action_chars(name) {
        Some(d) => chars_of(d),
        None => match arg_action_chars(name) {
            Some(d) => {
                let dc = chars_of(d);
                if args.len() > 0 {
                    assert(av[0] == args@[0]@);
                    let sp = lit_then(" ", &args[0]);
                    cat(&dc, &sp)
                } else {
                    dc
                }
            },
            None => {
                let space = chars_of(" ");
                let arg = join_chars(args, &space);
                if arg.len() == 0 {
                    name.clone()
                } else {
                    let sp = lit_then(" ", &arg);
                    cat(name, &sp)
                }
            },
        },
    }
}

/// Readable Chinese description of a niri action with its positional arguments.
pub fn friendly_action(name: &str, args: &[String]) -> (out: String)
    ensures
        out@ == friendly_spec(name@, args@.map_values(|x: String| x@)),
{
    let n = chars_of(name);
    let v = chars_list(args);
    string_of(&friendly_chars(&n, &v))
}

/// The overlay group of a binding, decided by its first action's name.
pub open spec fn category_spec(a: Seq<char>) -> Seq<char> {
    if a == "spawn"@ {
        "启动程序"@
    } else if a == "close"@ || a == "quit"@ || a == "close-window"@ {
        "窗口"@
    } else if "focus-window"@.is_prefix_of(a) || "move-window"@.is_prefix_of(a) || a
        == "swap-windows"@ || "move-window-to-monitor"@.is_prefix_of(a)
        || "focus-monitor"@.is_prefix_of(a) || "consume-or-expel-window"@.is_prefix_of(a) || a
        == "next-window"@ || a == "previous-window"@ {
        "窗口与显示器"@
    } else if has_sub(a, "column"@) || has_sub(a, "layout"@) || "switch-layout"@.is_prefix_of(a)
        || "set-layout"@.is_prefix_of(a) || has_sub(a, "window-height"@) || a
        == "reset-window-height"@ || a == "maximize-column"@ || a == "set-column-width"@ || a
        == "toggle-column-tabbed-display"@ {
        "列与布局"@
    } else if a == "toggle-overview"@ || a == "show-hotkey-overlay"@ {
        "总览"@
    } else if has_sub(a, "workspace"@) {
        "工作区"@
    } else if "screenshot"@.is_prefix_of(a) {
        "截图"@
    } else if "switch"@.is_prefix_of(a) {
        "切换"@
    } else if has_sub(a, "fullscreen"@) || has_sub(a, "floating"@) || has_sub(a, "always-on-top"@)
        || a == "toggle-keyboard-shortcuts-inhibit"@ {
        "窗口状态"@
    } else {
        "其它"@
    }
}

fn starts_lit(v: &Vec<char>, lit: &str) -> (b: bool)
    ensures
        b == lit@.is_prefix_of(v@),
{
    let w = chars_of(lit);
    starts_with_chars(v, &w)
}

fn has_lit(v: &Vec<char>, lit: &str) -> (b: bool)
    ensures
        b == has_sub(v@, lit@),
{
    let w = chars_of(lit);
    has_sub_chars(v, &w)
}

fn category_chars(a: &Vec<char>) -> (r: &'static str)
    ensures
        r@ == category_spec(a@),
{
    if eq_lit(a, "spawn") {
        "启动程序"
    } else if eq_lit(a, "close") || eq_lit(a, "quit") || eq_lit(a, "close-window") {
        "窗口"
    } else if starts_lit(a, "focus-window") || starts_lit(a, "move-window") || eq_lit(
        a,
        "swap-windows",
    ) || starts_lit(a, "move-window-to-monitor") || starts_lit(a, "focus-monitor") || starts_lit(
        a,
        "consume-or-expel-window",
    ) || eq_lit(a, "next-window") || eq_lit(a, "previous-window") {
        "窗口与显示器"
    } else if has_lit(a, "column") || has_lit(a, "layout") || starts_lit(a, "switch-layout")
        || starts_lit(a, "set-layout") || has_lit(a, "window-height") || eq_lit(
        a,
        "reset-window-height",
    ) || eq_lit(a, "maximize-column") || eq_lit(a, "set-column-width") || eq_lit(
        a,
        "toggle-column-tabbed-display",
    ) {
        "列与布局"
    } else if eq_lit(a, "toggle-overview") || eq_lit(a, "show-hotkey-overlay") {
        "总览"
    } else if has_lit(a, "workspace") {
        "工作区"
    } else if starts_lit(a, "screenshot") {
        "截图"
    } else if starts_lit(a, "switch") {
        "切换"
    } else if has_lit(a, "fullscreen") || has_lit(a, "floating") || has_lit(a, "always-on-top")
        || eq_lit(a, "toggle-keyboard-shortcuts-inhibit") {
        "窗口状态"
    } else {
        "其它"
    }
}

/// The overlay group of a binding, decided by its first action's name.
pub fn categorize(first_action: &str) -> (r: &'static str)
    ensures
        r@ == category_spec(first_action@),
{
    let v = chars_of(first_action);
    category_chars(&v)
}

// ---------------------------------------------------------------------------
// Describing bindings
// ---------------------------------------------------------------------------

/// The first non-empty `hotkey-overlay-title="..."` value from `i` on, trimmed.
pub open spec fn title_scan(s: Seq<char>, i: int) -> Option<Seq<char>>
    decreases s.len() - i,
{
    if 0 <= i < s.len() {
        if ident_at(s, i, "hotkey-overlay-title"@) {
            let j = skip_fwd(s, Pat::SpaceOr('='), i + "hotkey-overlay-title"@.len());
            if 0 <= j < s.len() && s[j] == '"' && trim(quoted(s, j + 1)).len() > 0 {
                Some(trim(quoted(s, j + 1)))
            } else {
                title_scan(s, i + 1)
            }
        } else {
            title_scan(s, i + 1)
        }
    } else {
        None
    }
}

fn overlay_title_chars(chars: &Vec<char>) -> (r: Option<Vec<char>>)
    ensures
        match r {
            Some(t) => title_scan(chars@, 0) == Some(t@),
            None => title_scan(chars@, 0) is None,
        },
{
    let word = chars_of("hotkey-overlay-title");
    let n = chars.len();
    let mut i: usize = 0;
    while i < n
        invariant
            n == chars@.len(),
            word@ == "hotkey-overlay-title"@,
            i <= n,
            title_scan(chars@, i as int) == title_scan(chars@, 0),
        decreases n - i,
    {
        if matches_ident(chars, i, &word) {
            let j = skip_fwd_exec(chars, &Pat::SpaceOr('='), i + word.len());
            proof {
                lemma_skip_fwd_bounds(chars@, Pat::SpaceOr('='), i + word.len());
            }
            if j < n && chars[j] == '"' {
                let v = read_quoted(chars, j + 1);
                let t = trim_chars(&v);
                if t.len() > 0 {
                    return Some(t);
                }
            }
        }
        i += 1;
    }
    None
}

/// The value of a node's `hotkey-overlay-title="..."` property, when present
/// and not blank: niri's own readable title for the binding.
pub fn overlay_title_of(node: &str) -> (r: Option<String>)
    ensures
        match r {
            Some(t) => title_scan(node@, 0) == Some(t@),
            None => title_scan(node@, 0) is None,
        },
{
    let v = chars_of(node);
    match overlay_title_chars(&v) {
        Some(t) => Some(string_of(&t)),
        None => None,
    }
}

/// Description of a binding node; a chord `A { B { ... } }` reads `A → ...`.
pub open spec fn describe_spec(node: Seq<char>) -> Seq<char>
    decreases node.len(), 1nat, 0nat,
{
    let t = trim(node);
    let idx = find_char(t, '{', 0);
    if idx < t.len() {
        let combo = first_token(trim(t.subrange(0, idx)));
        let inner_desc = join(describe_parts(split_nodes(block_inside(t, idx)), node.len()), "；"@);
        if combo.len() == 0 {
            inner_desc
        } else if inner_desc.len() == 0 {
            combo
        } else {
            combo + " → "@ + inner_desc
        }
    } else {
        friendly_spec(parse_action(t).0, parse_action(t).1)
    }
}

/// Descriptions of the non-blank child nodes (each shorter than `bound`).
pub open spec fn describe_parts(cs: Seq<Seq<char>>, bound: nat) -> Seq<Seq<char>>
    decreases bound, 0nat, cs.len(),
{
    if cs.len() == 0 {
        Seq::empty()
    } else {
        let c = trim(cs[0]);
        let rest = describe_parts(cs.drop_first(), bound);
        if c.len() == 0 {
            rest
        } else if c.len() < bound {
            seq![describe_spec(c)] + rest
        } else {
            rest
        }
    }
}

/// A node's block inside is shorter than the node, and so are its children.
proof fn lemma_children_shorter(node: Seq<char>)
    ensures
        ({
            let t = trim(node);
            let idx = find_char(t, '{', 0);
            idx < t.len() ==> nodes_fit(split_nodes(block_inside(t, idx)), node.len() - 1)
        }),
{
    let t = trim(node);
    lemma_trim_pat_len(node, Pat::Space);
    lemma_find_char_bounds(t, '{', 0);
    let idx = find_char(t, '{', 0);
    if idx < t.len() {
        let tail = t.subrange(idx + 1, t.len() as int);
        lemma_skip_back_bounds(tail, Pat::Ch('}'), tail.len() as int);
        let cut = trim_end_char(tail, '}');
        lemma_trim_pat_len(cut, Pat::Space);
        let inner = block_inside(t, idx);
        lemma_split_scan_len(inner, 0, false, 0, Seq::empty(), false);
        assert(inner.len() <= node.len() - 1);
    }
}

fn describe_parts_chars(children: &Vec<Vec<char>>, bound: usize) -> (out: Vec<Vec<char>>)
    requires
        nodes_fit(children@.map_values(|p: Vec<char>| p@), bound - 1),
        bound >= 1,
    ensures
        out@.map_values(|p: Vec<char>| p@) == describe_parts(
            children@.map_values(|p: Vec<char>| p@),
            bound as nat,
        ),
    decreases bound, 0nat,
{
    let ghost cv = children@.map_values(|p: Vec<char>| p@);
    let mut parts: Vec<Vec<char>> = Vec::new();
    let mut k: usize = children.len();
    assert(cv.subrange(k as int, cv.len() as int) =~= Seq::<Seq<char>>::empty());
    while k > 0
        invariant
            k <= children.len(),
            bound >= 1,
            cv == children@.map_values(|p: Vec<char>| p@),
            nodes_fit(cv, bound - 1),
            parts@.map_values(|p: Vec<char>| p@).reverse() == describe_parts(
                cv.subrange(k as int, cv.len() as int),
                bound as nat,
            ),
        decreases k,
    {
        k -= 1;
        let ghost rest = cv.subrange(k as int, cv.len() as int);
        assert(rest.drop_first() =~= cv.subrange(k + 1, cv.len() as int));
        assert(rest[0] == children@[k as int]@);
        let c = trim_chars(&children[k]);
        proof {
            lemma_trim_pat_len(cv[k as int], Pat::Space);
        }
        if c.len() > 0 {
            let ghost before = parts@.map_values(|p: Vec<char>| p@);
            let d = describe_chars(&c);
            parts.push(d);
            assert(parts@.map_values(|p: Vec<char>| p@) =~= before.push(d@));
            assert(parts@.map_values(|p: Vec<char>| p@).reverse() =~= seq![d@] + before.reverse());
        }
    }
    assert(cv.subrange(0, cv.len() as int) =~= cv);
    let ghost pv = parts@.map_values(|p: Vec<char>| p@);
    let mut out: Vec<Vec<char>> = Vec::new();
    let mut m: usize = parts.len();
    while m > 0
        invariant
            m <= parts.len(),
            pv == parts@.map_values(|p: Vec<char>| p@),
            out@.map_values(|p: Vec<char>| p@) == pv.subrange(m as int, pv.len() as int).reverse(),
        decreases m,
    {
        m -= 1;
        let ghost before = out@.map_values(|p: Vec<char>| p@);
        out.push(parts[m].clone());
        assert(out@.map_values(|p: Vec<char>| p@) =~= before.push(pv[m as int]));
        assert(pv.subrange(m as int, pv.len() as int).reverse() =~= pv.subrange(
            m + 1,
            pv.len() as int,
        ).reverse().push(pv[m as int]));
    }
    assert(pv.subrange(0, pv.len() as int) =~= pv);
    assert(pv.reverse().reverse() =~= pv);
    out
}

fn describe_chars(node: &Vec<char>) -> (out: Vec<char>)
    ensures
        out@ == describe_spec(node@),
    decreases node@.len(), 1nat,
{
    let t = trim_chars(node);
    let idx = find_char_exec(&t, '{', 0);
    proof {
        lemma_find_char_bounds(t@, '{', 0);
    }
    if idx >= t.len() {
        let (name, args) = parse_action_chars(&t);
        return friendly_chars(&name, &args);
    }
    let head = sub_chars(&t, 0, idx);
    let th = trim_chars(&head);
    let combo = first_token_chars(&th);
    let inner = block_inside_chars(&t, idx);
    let children = split_chars(&inner);
    proof {
        lemma_children_shorter(node@);
    }
    let parts = describe_parts_chars(&children, node.len());
    let sep = chars_of("；");
    let inner_desc = join_chars(&parts, &sep);
    if combo.len() == 0 {
        inner_desc
    } else if inner_desc.len() == 0 {
        combo
    } else {
        let arrow = lit_then(" → ", &inner_desc);
        cat(&combo, &arrow)
    }
}

/// Description of a binding node; a chord `A { B { ... } }` reads `A → ...`.
pub fn describe_node(node: &str) -> (out: String)
    ensures
        out@ == describe_spec(node@),
{
    let v = chars_of(node);
    string_of(&describe_chars(&v))
}

/// Description of a top-level binding: niri's `hotkey-overlay-title` when it
/// has one, otherwise the descriptions of the actions in its block joined by
/// `；` (the key combination itself is shown separately).
pub open spec fn describe_bind_spec(node: Seq<char>) -> Seq<char> {
    match title_scan(node, 0) {
        Some(title) => title,
        None => {
            let t = trim(node);
            let idx = find_char(t, '{', 0);
            if idx < t.len() {
                join(describe_parts(split_nodes(block_inside(t, idx)), node.len()), "；"@)
            } else {
                describe_spec(t)
            }
        },
    }
}

fn describe_bind_chars(node: &Vec<char>) -> (out: Vec<char>)
    ensures
        out@ == describe_bind_spec(node@),
{
    if let Some(title) = overlay_title_chars(node) {
        return title;
    }
    let t = trim_chars(node);
    let idx = find_char_exec(&t, '{', 0);
    proof {
        lemma_find_char_bounds(t@, '{', 0);
    }
    if idx < t.len() {
        let inner = block_inside_chars(&t, idx);
        let children = split_chars(&inner);
        proof {
            lemma_children_shorter(node@);
        }
        let parts = describe_parts_chars(&children, node.len());
        let sep = chars_of("；");
        join_chars(&parts, &sep)
    } else {
        describe_chars(&t)
    }
}

/// Description of a top-level binding: niri's `hotkey-overlay-title` when it
/// has one, otherwise the descriptions of the actions in its block.
pub fn describe_bind(node: &str) -> (out: String)
    ensures
        out@ == describe_bind_spec(node@),
{
    let v = chars_of(node);
    string_of(&describe_bind_chars(&v))
}

// ---------------------------------------------------------------------------
// Entries
// ---------------------------------------------------------------------------

/// The entry a child node of a `binds` block yields: none for a blank node,
/// a node without key combination, a `/-` (commented-out) node or one that
/// describes to nothing.
pub open spec fn node_entry(raw: Seq<char>) -> Option<EntryView> {
    let node = trim(raw);
    let combo = combo_spec(node);
    let desc = describe_bind_spec(node);
    let first = first_action_spec(node);
    if node.len() == 0 || combo.len() == 0 || combo == "/-"@ || desc.len() == 0 {
        None
    } else {
        Some(
            (
                category_spec(first),
                combo,
                if first.len() == 0 {
                    "action"@
                } else {
                    first
                },
                desc,
            ),
        )
    }
}

/// The entries of a list of child nodes, in order.
pub open spec fn nodes_entries(ns: Seq<Seq<char>>) -> Seq<EntryView>
    decreases ns.len(),
{
    if ns.len() == 0 {
        Seq::empty()
    } else {
        (match node_entry(ns[0]) {
            Some(e) => seq![e],
            None => Seq::empty(),
        }) + nodes_entries(ns.drop_first())
    }
}

/// The entries of a list of `binds` block insides, in order.
pub open spec fn blocks_entries(bs: Seq<Seq<char>>) -> Seq<EntryView>
    decreases bs.len(),
{
    if bs.len() == 0 {
        Seq::empty()
    } else {
        nodes_entries(split_nodes(bs[0])) + blocks_entries(bs.drop_first())
    }
}

/// The entries of all `binds` blocks of a comment-free configuration text.
pub open spec fn binds_entries_spec(stripped: Seq<char>) -> Seq<EntryView> {
    blocks_entries(binds_from(stripped, 0))
}

fn node_entry_chars(raw: &Vec<char>) -> (r: Option<ShortcutEntry>)
    ensures
        match r {
            Some(e) => node_entry(raw@) == Some(e@),
            None => node_entry(raw@) is None,
        },
{
    let node = trim_chars(raw);
    if node.len() == 0 {
        return None;
    }
    let combo = combo_chars(&node);
    if combo.len() == 0 || eq_lit(&combo, "/-") {
        return None;
    }
    let desc = describe_bind_chars(&node);
    if desc.len() == 0 {
        return None;
    }
    let first = first_action_chars(&node);
    let context = category_chars(&first);
    let action = if first.len() == 0 {
        String::from_str("action")
    } else {
        string_of(&first)
    };
    Some(
        ShortcutEntry {
            context: String::from_str(context),
            keys: string_of(&combo),
            action,
            description: string_of(&desc),
        },
    )
}

/// An imported entry has a key combination (not a `/-` marker) and a description.
pub open spec fn described(e: EntryView) -> bool {
    e.1.len() > 0 && e.1 != "/-"@ && e.3.len() > 0
}

proof fn lemma_nodes_described(ns: Seq<Seq<char>>)
    ensures
        forall|i: int| 0 <= i < nodes_entries(ns).len() ==> described(#[trigger] nodes_entries(ns)[i]),
    decreases ns.len(),
{
    if ns.len() > 0 {
        lemma_nodes_described(ns.drop_first());
        let head: Seq<EntryView> = match node_entry(ns[0]) {
            Some(e) => seq![e],
            None => Seq::empty(),
        };
        let tail = nodes_entries(ns.drop_first());
        assert(nodes_entries(ns) == head + tail);
        assert forall|i: int| 0 <= i < nodes_entries(ns).len() implies described(
            #[trigger] nodes_entries(ns)[i],
        ) by {
            if i < head.len() {
                assert(nodes_entries(ns)[i] == head[i]);
            } else {
                assert(nodes_entries(ns)[i] == tail[i - head.len()]);
            }
        }
    }
}

proof fn lemma_blocks_described(bs: Seq<Seq<char>>)
    ensures
        forall|i: int| 0 <= i < blocks_entries(bs).len() ==> described(#[trigger] blocks_entries(bs)[i]),
    decreases bs.len(),
{
    if bs.len() > 0 {
        lemma_blocks_described(bs.drop_first());
        lemma_nodes_described(split_nodes(bs[0]));
        let head = nodes_entries(split_nodes(bs[0]));
        let tail = blocks_entries(bs.drop_first());
        assert(blocks_entries(bs) == head + tail);
        assert forall|i: int| 0 <= i < blocks_entries(bs).len() implies described(
            #[trigger] blocks_entries(bs)[i],
        ) by {
            if i < head.len() {
                assert(blocks_entries(bs)[i] == head[i]);
            } else {
                assert(blocks_entries(bs)[i] == tail[i - head.len()]);
            }
        }
    }
}

/// Every shortcut imported from a niri configuration carries a key
/// combination and a non-empty description.
pub proof fn law_imported_entries_are_described(stripped: Seq<char>)
    ensures
        forall|i: int|
            0 <= i < binds_entries_spec(stripped).len() ==> described(
                #[trigger] binds_entries_spec(stripped)[i],
            ),
{
    lemma_blocks_described(binds_from(stripped, 0));
}

/// The shortcut entries of every `binds` block in a configuration text whose
/// comments were already stripped: one per binding node, in file order.
pub fn collect_binds(stripped: &str) -> (out: Vec<ShortcutEntry>)
    ensures
        entry_views(out@) == binds_entries_spec(stripped@),
{
    let mut blocks: Vec<String> = Vec::new();
    extract_binds(&mut blocks, stripped);
    assert(views(blocks@) =~= binds_from(stripped@, 0));
    let ghost bv = views(blocks@);
    let mut out: Vec<ShortcutEntry> = Vec::new();
    let mut b: usize = 0;
    assert(bv.subrange(0, bv.len() as int) =~= bv);
    while b < blocks.len()
        invariant
            b <= blocks.len(),
            bv == views(blocks@),
            bv == binds_from(stripped@, 0),
            entry_views(out@) + blocks_entries(bv.subrange(b as int, bv.len() as int))
                == binds_entries_spec(stripped@),
        decreases blocks.len() - b,
    {
        let ghost brest = bv.subrange(b as int, bv.len() as int);
        assert(brest.drop_first() =~= bv.subrange(b + 1, bv.len() as int));
        assert(brest[0] == blocks@[b as int]@);
        let bc = chars_of(blocks[b].as_str());
        let nodes = split_chars(&bc);
        let ghost nv = nodes@.map_values(|p: Vec<char>| p@);
        let ghost start = entry_views(out@);
        let mut k: usize = 0;
        assert(nv.subrange(0, nv.len() as int) =~= nv);
        while k < nodes.len()
            invariant
                k <= nodes.len(),
                nv == nodes@.map_values(|p: Vec<char>| p@),
                start + nodes_entries(nv) == entry_views(out@) + nodes_entries(
                    nv.subrange(k as int, nv.len() as int),
                ),
            decreases nodes.len() - k,
        {
            let ghost rest = nv.subrange(k as int, nv.len() as int);
            assert(rest.drop_first() =~= nv.subrange(k + 1, nv.len() as int));
            assert(rest[0] == nodes@[k as int]@);
            let ghost before = entry_views(out@);
            match node_entry_chars(&nodes[k]) {
                Some(e) => {
                    let ghost ev = e@;
                    out.push(e);
                    assert(entry_views(out@) =~= before.push(ev));
                    assert(before + nodes_entries(rest) =~= entry_views(out@) + nodes_entries(
                        rest.drop_first(),
                    ));
                },
                None => {
                    assert(before + nodes_entries(rest) =~= before + nodes_entries(
                        rest.drop_first(),
                    ));
                },
            }
            k += 1;
        }
        assert(nv.subrange(k as int, nv.len() as int) =~= Seq::<Seq<char>>::empty());
        assert(entry_views(out@) + blocks_entries(brest.drop_first()) =~= start + blocks_entries(
            brest,
        ));
        b += 1;
    }
    assert(bv.subrange(b as int, bv.len() as int) =~= Seq::<Seq<char>>::empty());
    assert(entry_views(out@) =~= entry_views(out@) + blocks_entries(Seq::<Seq<char>>::empty()));
    out
}

// ---------------------------------------------------------------------------
// The niri shortcut list
// ---------------------------------------------------------------------------

/// The notice shown when no binding could be read.
pub open spec fn missing_notice() -> EntryView {
    ("提示"@, ""@, "notice"@, "未找到 niri 配置文件或其中没有 binds（检查 ~/.config/niri/config.kdl）"@)
}

/// The notice heading bindings read live from the niri configuration.
pub open spec fn live_notice() -> EntryView {
    ("提示"@, ""@, "notice"@, "以下为实时解析 niri 配置（binds）得到的快捷键"@)
}

fn notice(description: &str) -> (e: ShortcutEntry)
    ensures
        e@ == ("提示"@, ""@, "notice"@, description@),
{
    ShortcutEntry {
        context: String::from_str("提示"),
        keys: String::from_str(""),
        action: String::from_str("notice"),
        description: String::from_str(description),
    }
}

/// The niri shortcut list shown when no window is focused, from the entries
/// collected out of the configuration files: a notice heads the collected
/// entries, or stands alone when nothing was collected.
pub fn load_niri_shortcuts(collected: Vec<ShortcutEntry>) -> (out: Vec<ShortcutEntry>)
    ensures
        collected@.len() == 0 ==> entry_views(out@) == seq![missing_notice()],
        collected@.len() > 0 ==> entry_views(out@) == seq![live_notice()] + entry_views(
            collected@,
        ),
{
    let mut entries = collected;
    if entries.len() == 0 {
        entries.push(notice("未找到 niri 配置文件或其中没有 binds（检查 ~/.config/niri/config.kdl）"));
        assert(entry_views(entries@) =~= seq![missing_notice()]);
    } else {
        let ghost before = entry_views(entries@);
        entries.insert(0, notice("以下为实时解析 niri 配置（binds）得到的快捷键"));
        assert(entry_views(entries@) =~= seq![live_notice()] + before);
    }
    entries
}

} // verus!
