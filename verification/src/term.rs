//! Looking inside terminal windows.
//!
//! A compositor only sees the terminal emulator's window.  To show the
//! shortcuts of the program running inside it, the process tree under the
//! terminal is probed for the deepest interactive program, multiplexers such
//! as tmux are bridged into, and the resulting chain of programs is turned
//! into a list of candidate app-ids, most specific first.  Reading `/proc`
//! and asking tmux are done by the caller; this module holds the decisions.

use vstd::prelude::*;

use crate::text::{
    is_whitespace, Pat, chars_list, chars_of, copy_chars, copy_strings, eq_lit, is_ws, join, join_chars, lemma_skip_fwd_bounds,
    lowercase_of, skip_fwd, skip_fwd_exec, string_of, strings_of, sub_chars, to_lowercase_chars,
    trim, trim_chars, views, lex_lt, lex_less, lemma_lex_irreflexive, lemma_lex_transitive,
    lemma_lex_total, find_char, find_char_exec, lemma_find_char_bounds, first_token,
    first_token_chars, starts_with_chars, lemma_skip_back_bounds, skip_back, skip_back_exec,
};

verus! {

/// Shells and terminal helpers, which are looked through when probing (multiplexers are not among them).
pub open spec fn shell_like_spec(c: Seq<char>) -> bool {
    c == "zsh"@
        || c == "bash"@
        || c == "sh"@
        || c == "fish"@
        || c == "dash"@
        || c == "tcsh"@
        || c == "ksh"@
        || c == "elvish"@
        || c == "nu"@
        || c == "kitten"@
}

fn shell_like_chars(c: &Vec<char>) -> (b: bool)
    ensures
        b == shell_like_spec(c@),
{
    eq_lit(c, "zsh")
        || eq_lit(c, "bash")
        || eq_lit(c, "sh")
        || eq_lit(c, "fish")
        || eq_lit(c, "dash")
        || eq_lit(c, "tcsh")
        || eq_lit(c, "ksh")
        || eq_lit(c, "elvish")
        || eq_lit(c, "nu")
        || eq_lit(c, "kitten")
}

/// Terminal multiplexers: intermediate layers to bridge into.
pub open spec fn multiplexer_spec(c: Seq<char>) -> bool {
    c == "tmux"@
        || c == "screen"@
}

fn multiplexer_chars(c: &Vec<char>) -> (b: bool)
    ensures
        b == multiplexer_spec(c@),
{
    eq_lit(c, "tmux")
        || eq_lit(c, "screen")
}

/// App-ids of the terminal emulators whose inner programs are probed.
pub open spec fn terminal_app_spec(app_id: Seq<char>) -> bool {
    app_id == "kitty"@
        || app_id == "Alacritty"@
        || app_id == "org.alacritty.Alacritty"@
        || app_id == "foot"@
        || app_id == "footclient"@
        || app_id == "org.wezterm.wezterm"@
        || app_id == "wezterm"@
        || app_id == "com.mitchellh.ghostty"@
        || app_id == "ghostty"@
        || app_id == "st"@
        || app_id == "urxvt"@
        || app_id == "rxvt-unicode"@
        || app_id == "gnome-terminal"@
        || app_id == "org.gnome.Terminal"@
        || app_id == "konsole"@
        || app_id == "org.kde.konsole"@
        || app_id == "tilix"@
        || app_id == "terminator"@
        || app_id == "lmate-terminal"@
        || app_id == "xfce4-terminal"@
}

fn terminal_app_chars(app_id: &Vec<char>) -> (b: bool)
    ensures
        b == terminal_app_spec(app_id@),
{
    eq_lit(app_id, "kitty")
        || eq_lit(app_id, "Alacritty")
        || eq_lit(app_id, "org.alacritty.Alacritty")
        || eq_lit(app_id, "foot")
        || eq_lit(app_id, "footclient")
        || eq_lit(app_id, "org.wezterm.wezterm")
        || eq_lit(app_id, "wezterm")
        || eq_lit(app_id, "com.mitchellh.ghostty")
        || eq_lit(app_id, "ghostty")
        || eq_lit(app_id, "st")
        || eq_lit(app_id, "urxvt")
        || eq_lit(app_id, "rxvt-unicode")
        || eq_lit(app_id, "gnome-terminal")
        || eq_lit(app_id, "org.gnome.Terminal")
        || eq_lit(app_id, "konsole")
        || eq_lit(app_id, "org.kde.konsole")
        || eq_lit(app_id, "tilix")
        || eq_lit(app_id, "terminator")
        || eq_lit(app_id, "lmate-terminal")
        || eq_lit(app_id, "xfce4-terminal")
}


/// Whether a process name is a shell (looked through when probing).
pub fn is_shell(comm: &str) -> (b: bool)
    ensures
        b == shell_like_spec(comm@),
{
    let v = chars_of(comm);
    shell_like_chars(&v)
}

/// Whether a process name is a terminal multiplexer.
pub fn is_multiplexer(comm: &str) -> (b: bool)
    ensures
        b == multiplexer_spec(comm@),
{
    let v = chars_of(comm);
    multiplexer_chars(&v)
}

/// Whether an app-id belongs to a supported terminal emulator.
pub fn is_terminal(app_id: &str) -> (b: bool)
    ensures
        b == terminal_app_spec(app_id@),
{
    let v = chars_of(app_id);
    terminal_app_chars(&v)
}

// ---------------------------------------------------------------------------
// Names
// ---------------------------------------------------------------------------

/// A process name made fit for a composite app-id: trimmed, cut at the first
/// whitespace or `:` (so `tmux: client` becomes `tmux`), lowercased.
pub open spec fn sanitize_spec(comm: Seq<char>) -> Seq<char> {
    let t = trim(comm);
    lowercase_of(t.subrange(0, skip_fwd(t, Pat::NeitherSpaceNor(':'), 0)))
}

fn sanitize_chars(comm: &Vec<char>) -> (out: Vec<char>)
    ensures
        out@ == sanitize_spec(comm@),
{
    let t = trim_chars(comm);
    let e = skip_fwd_exec(&t, &Pat::NeitherSpaceNor(':'), 0);
    proof {
        lemma_skip_fwd_bounds(t@, Pat::NeitherSpaceNor(':'), 0);
    }
    let ident = sub_chars(&t, 0, e);
    to_lowercase_chars(&ident)
}

/// Normalizes a process name for use in a composite app-id.
pub fn sanitize_comm(comm: &str) -> (out: String)
    ensures
        out@ == sanitize_spec(comm@),
{
    let v = chars_of(comm);
    string_of(&sanitize_chars(&v))
}

/// The composite app-id of a program inside a terminal: `terminal:program`.
pub fn composite_id(terminal_app_id: &str, inner: &str) -> (out: String)
    ensures
        out@ == terminal_app_id@ + ":"@ + sanitize_spec(inner@),
{
    let v = chars_of(inner);
    let s = sanitize_chars(&v);
    let mut out = chars_of(terminal_app_id);
    let mut colon = chars_of(":");
    let mut tail = s;
    out.append(&mut colon);
    out.append(&mut tail);
    string_of(&out)
}

// ---------------------------------------------------------------------------
// Candidate app-ids
// ---------------------------------------------------------------------------

/// `terminal:c1:...:ci:leaf`.
pub open spec fn key_with_leaf(term: Seq<char>, cs: Seq<Seq<char>>, leaf: Seq<char>, i: int) -> Seq<
    char,
> {
    join(seq![term] + cs.take(i) + seq![leaf], ":"@)
}

/// `terminal:c1:...:ci`.
pub open spec fn key_without_leaf(term: Seq<char>, cs: Seq<Seq<char>>, i: int) -> Seq<char> {
    join(seq![term] + cs.take(i), ":"@)
}

/// Candidate app-ids for a terminal and the chain of programs inside it
/// (containers first, the leaf program last), most specific first: every
/// container prefix with the leaf (longest first), the bare leaf, every
/// non-empty container prefix without the leaf (longest first), and the
/// terminal itself.  An empty chain gives just the terminal.
pub open spec fn lookup_keys_spec(term: Seq<char>, chain: Seq<Seq<char>>) -> Seq<Seq<char>> {
    if chain.len() == 0 {
        seq![term]
    } else {
        let m = chain.len() - 1;
        let leaf = chain[m];
        let cs = chain.take(m);
        Seq::new((m + 1) as nat, |k: int| key_with_leaf(term, cs, leaf, m - k)) + seq![leaf]
            + Seq::new(m as nat, |k: int| key_without_leaf(term, cs, m - k)) + seq![term]
    }
}

fn prefix_parts(term: &Vec<char>, cs: &Vec<Vec<char>>, i: usize) -> (out: Vec<Vec<char>>)
    requires
        i <= cs.len(),
    ensures
        out@.map_values(|p: Vec<char>| p@) == seq![term@] + cs@.map_values(|p: Vec<char>| p@).take(
            i as int,
        ),
{
    let ghost cv = cs@.map_values(|p: Vec<char>| p@);
    let mut out: Vec<Vec<char>> = Vec::new();
    out.push(copy_chars(term));
    let mut k: usize = 0;
    assert(out@.map_values(|p: Vec<char>| p@) =~= seq![term@] + cv.take(0));
    while k < i
        invariant
            k <= i <= cs.len(),
            cv == cs@.map_values(|p: Vec<char>| p@),
            out@.map_values(|p: Vec<char>| p@) == seq![term@] + cv.take(k as int),
        decreases i - k,
    {
        let ghost before = out@.map_values(|p: Vec<char>| p@);
        out.push(copy_chars(&cs[k]));
        assert(out@.map_values(|p: Vec<char>| p@) =~= before.push(cv[k as int]));
        assert(seq![term@] + cv.take(k + 1) =~= (seq![term@] + cv.take(k as int)).push(
            cv[k as int],
        ));
        k += 1;
    }
    out
}

fn lookup_keys_chars(term: &Vec<char>, chain: &Vec<Vec<char>>) -> (out: Vec<Vec<char>>)
    ensures
        out@.map_values(|p: Vec<char>| p@) == lookup_keys_spec(
            term@,
            chain@.map_values(|p: Vec<char>| p@),
        ),
{
    let ghost chv = chain@.map_values(|p: Vec<char>| p@);
    let mut keys: Vec<Vec<char>> = Vec::new();
    let n = chain.len();
    if n == 0 {
        keys.push(copy_chars(term));
        assert(keys@.map_values(|p: Vec<char>| p@) =~= seq![term@]);
        return keys;
    }
    let m = n - 1;
    let leaf = copy_chars(&chain[m]);
    let mut cs: Vec<Vec<char>> = Vec::new();
    let mut k: usize = 0;
    while k < m
        invariant
            k <= m,
            m + 1 == chain.len(),
            chv == chain@.map_values(|p: Vec<char>| p@),
            cs@.map_values(|p: Vec<char>| p@) == chv.take(k as int),
        decreases m - k,
    {
        let ghost before = cs@.map_values(|p: Vec<char>| p@);
        assert(chv[k as int] == chain@[k as int]@);
        cs.push(copy_chars(&chain[k]));
        assert(cs@.map_values(|p: Vec<char>| p@) =~= before.push(chv[k as int]));
        assert(before.push(chv[k as int]) =~= chv.take(k + 1));
        k += 1;
    }
    let ghost csv = cs@.map_values(|p: Vec<char>| p@);
    let colon = chars_of(":");
    let ghost with_leaf = Seq::new((m + 1) as nat, |t: int| key_with_leaf(term@, csv, leaf@, m - t));
    let ghost without_leaf = Seq::new(m as nat, |t: int| key_without_leaf(term@, csv, m - t));
    let mut t: usize = 0;
    while t <= m
        invariant
            t <= m + 1,
            m < usize::MAX,
            m == cs.len(),
            csv == cs@.map_values(|p: Vec<char>| p@),
            colon@ == ":"@,
            with_leaf == Seq::new((m + 1) as nat, |t: int| key_with_leaf(term@, csv, leaf@, m - t)),
            keys@.map_values(|p: Vec<char>| p@) == with_leaf.take(t as int),
        decreases m + 1 - t,
    {
        let mut parts = prefix_parts(term, &cs, m - t);
        let ghost pv = parts@.map_values(|p: Vec<char>| p@);
        parts.push(copy_chars(&leaf));
        assert(parts@.map_values(|p: Vec<char>| p@) =~= pv.push(leaf@));
        let key = join_chars(&parts, &colon);
        assert(with_leaf[t as int] == key_with_leaf(term@, csv, leaf@, m - t));
        assert(pv.push(leaf@) =~= seq![term@] + csv.take(m - t) + seq![leaf@]);
        assert(key@ == with_leaf[t as int]);
        let ghost before = keys@.map_values(|p: Vec<char>| p@);
        let ghost kv = key@;
        keys.push(key);
        assert(keys@.map_values(|p: Vec<char>| p@) =~= before.push(kv));
        assert(with_leaf.take(t as int).push(kv) =~= with_leaf.take(t + 1));
        t += 1;
    }
    let ghost after_with = keys@.map_values(|p: Vec<char>| p@);
    keys.push(copy_chars(&leaf));
    assert(keys@.map_values(|p: Vec<char>| p@) =~= after_with.push(leaf@));
    let mut u: usize = 0;
    while u < m
        invariant
            u <= m,
            m == cs.len(),
            csv == cs@.map_values(|p: Vec<char>| p@),
            colon@ == ":"@,
            without_leaf == Seq::new(m as nat, |t: int| key_without_leaf(term@, csv, m - t)),
            keys@.map_values(|p: Vec<char>| p@) == with_leaf + seq![leaf@] + without_leaf.take(
                u as int,
            ),
        decreases m - u,
    {
        let parts = prefix_parts(term, &cs, m - u);
        let key = join_chars(&parts, &colon);
        assert(without_leaf[u as int] == key_without_leaf(term@, csv, m - u));
        assert(key@ == without_leaf[u as int]);
        let ghost before = keys@.map_values(|p: Vec<char>| p@);
        let ghost kv = key@;
        keys.push(key);
        assert(keys@.map_values(|p: Vec<char>| p@) =~= before.push(kv));
        assert(before.push(kv) =~= with_leaf + seq![leaf@] + without_leaf.take(u + 1));
        u += 1;
    }
    let ghost before = keys@.map_values(|p: Vec<char>| p@);
    keys.push(copy_chars(term));
    assert(keys@.map_values(|p: Vec<char>| p@) =~= before.push(term@));
    assert(without_leaf.take(m as int) =~= without_leaf);
    assert(with_leaf.take((m + 1) as int) =~= with_leaf);
    assert(csv =~= chv.take(m as int));
    assert(chv[m as int] == leaf@);
    keys
}

/// Candidate app-ids for a terminal and the chain of programs detected
/// inside it, most specific first (see `lookup_keys_spec`).
pub fn resolve_lookup_keys(terminal_app_id: &str, chain: &[String]) -> (out: Vec<String>)
    ensures
        views(out@) == lookup_keys_spec(terminal_app_id@, chain@.map_values(|x: String| x@)),
{
    let term = chars_of(terminal_app_id);
    let ch = chars_list(chain);
    let keys = lookup_keys_chars(&term, &ch);
    strings_of(&keys)
}

/// For a terminal with programs detected inside it, the candidates run from
/// the most specific to the least: the first joins the terminal and the
/// whole chain with `:`, the bare innermost program sits right after the
/// composites that end in it, and the terminal itself comes last; a chain of
/// `n` programs gives `2n + 1` candidates.
pub proof fn law_lookup_keys_most_specific_first(term: Seq<char>, chain: Seq<Seq<char>>)
    requires
        chain.len() > 0,
    ensures
        lookup_keys_spec(term, chain).len() == 2 * chain.len() + 1,
        lookup_keys_spec(term, chain)[0] == join(seq![term] + chain, ":"@),
        lookup_keys_spec(term, chain)[chain.len() as int] == chain.last(),
        lookup_keys_spec(term, chain).last() == term,
{
    let m = chain.len() - 1;
    let leaf = chain[m];
    let cs = chain.take(m);
    let keys = lookup_keys_spec(term, chain);
    let with = Seq::new((m + 1) as nat, |k: int| key_with_leaf(term, cs, leaf, m - k));
    let without = Seq::new(m as nat, |k: int| key_without_leaf(term, cs, m - k));
    assert(keys == with + seq![leaf] + without + seq![term]);
    assert(cs.take(m) =~= cs);
    assert(seq![term] + cs + seq![leaf] =~= seq![term] + chain);
    assert(keys[0] == with[0]);
    assert(keys[chain.len() as int] == leaf);
}

// ---------------------------------------------------------------------------
// The foreground program under a terminal
// ---------------------------------------------------------------------------

/// One process below a terminal: its pid, command name and depth.
#[derive(Debug, Clone)]
pub struct ProcNode {
    pub pid: i32,
    pub comm: String,
    pub depth: usize,
}

/// The normalized name a process is known by.
pub open spec fn node_key(n: ProcNode) -> Seq<char> {
    sanitize_spec(n.comm@)
}

/// A process that may be the foreground program: not a shell, with a non-empty name.
pub open spec fn is_candidate(n: ProcNode) -> bool {
    !shell_like_spec(n.comm@) && node_key(n).len() > 0
}

/// `nodes[j]` is the foreground choice: it is a candidate; no candidate is
/// deeper; among the candidates at its depth its name sorts first; and no
/// earlier candidate has its name at its depth (so its pid is that of the
/// first process reaching the deepest level under that name).
pub open spec fn is_foreground_at(nodes: Seq<ProcNode>, j: int) -> bool {
    &&& 0 <= j < nodes.len()
    &&& is_candidate(nodes[j])
    &&& forall|j2: int|
        0 <= j2 < j && is_candidate(#[trigger] nodes[j2]) && node_key(nodes[j2]) == node_key(
            nodes[j],
        ) ==> nodes[j2].depth != nodes[j].depth
    &&& forall|j2: int|
        0 <= j2 < nodes.len() && is_candidate(#[trigger] nodes[j2]) ==> nodes[j2].depth
            < nodes[j].depth || (nodes[j2].depth == nodes[j].depth && !lex_lt(
            node_key(nodes[j2]),
            node_key(nodes[j]),
        ))
}

/// The deepest interactive program among the processes below a terminal
/// (shells ignored, the name sorting first breaking ties), as its normalized
/// name and the pid of the first process reaching that depth under that name;
/// `None` when only shells run there.  Multiplexers count as programs.
pub fn deepest_foreground_app(nodes: &Vec<ProcNode>) -> (r: Option<(String, u32)>)
    ensures
        r is None <==> forall|j: int| 0 <= j < nodes@.len() ==> !is_candidate(#[trigger] nodes@[j]),
        r matches Some((k, p)) ==> exists|j: int|
            is_foreground_at(nodes@, j) && node_key(nodes@[j]) == k@ && nodes@[j].pid as u32 == p,
{
    let mut found = false;
    let mut best_key: Vec<char> = Vec::new();
    let mut best_pid: i32 = 0;
    let mut best_depth: usize = 0;
    let ghost mut bj: int = 0;
    let mut i: usize = 0;
    while i < nodes.len()
        invariant
            i <= nodes.len(),
            found == exists|j: int| 0 <= j < i && is_candidate(#[trigger] nodes@[j]),
            found ==> {
                &&& 0 <= bj < i
                &&& is_candidate(nodes@[bj])
                &&& node_key(nodes@[bj]) == best_key@
                &&& nodes@[bj].pid == best_pid
                &&& nodes@[bj].depth == best_depth
                &&& forall|j2: int|
                    0 <= j2 < bj && is_candidate(#[trigger] nodes@[j2]) && node_key(nodes@[j2])
                        == best_key@ ==> nodes@[j2].depth != best_depth
                &&& forall|j2: int|
                    0 <= j2 < i && is_candidate(#[trigger] nodes@[j2]) ==> nodes@[j2].depth
                        < best_depth || (nodes@[j2].depth == best_depth && !lex_lt(
                        node_key(nodes@[j2]),
                        best_key@,
                    ))
            },
        decreases nodes.len() - i,
    {
        let n = &nodes[i];
        let comm = chars_of(n.comm.as_str());
        if !shell_like_chars(&comm) {
            let key = sanitize_chars(&comm);
            if key.len() > 0 {
                let better = !found || n.depth > best_depth || (n.depth == best_depth && lex_less(
                    &key,
                    &best_key,
                ));
                if better {
                    proof {
                        if found {
                            assert forall|j2: int|
                                0 <= j2 < i && is_candidate(#[trigger] nodes@[j2]) && node_key(
                                    nodes@[j2],
                                ) == key@ implies nodes@[j2].depth != n.depth by {
                                if nodes@[j2].depth == n.depth && n.depth == best_depth {
                                    assert(!lex_lt(node_key(nodes@[j2]), best_key@));
                                }
                            }
                            assert forall|j2: int|
                                0 <= j2 < i + 1 && is_candidate(
                                    #[trigger] nodes@[j2],
                                ) implies nodes@[j2].depth < n.depth || (nodes@[j2].depth
                                == n.depth && !lex_lt(node_key(nodes@[j2]), key@)) by {
                                if j2 == i {
                                    lemma_lex_irreflexive(key@);
                                } else if nodes@[j2].depth == n.depth && n.depth == best_depth {
                                    if lex_lt(node_key(nodes@[j2]), key@) {
                                        lemma_lex_transitive(
                                            node_key(nodes@[j2]),
                                            key@,
                                            best_key@,
                                        );
                                    }
                                }
                            }
                        } else {
                            lemma_lex_irreflexive(key@);
                        }
                        bj = i as int;
                    }
                    found = true;
                    best_key = key;
                    best_pid = n.pid;
                    best_depth = n.depth;
                }
            }
        }
        i += 1;
    }
    if found {
        proof {
            assert(is_foreground_at(nodes@, bj));
        }
        Some((string_of(&best_key), best_pid as u32))
    } else {
        None
    }
}

// ---------------------------------------------------------------------------
// Probing through multiplexers
// ---------------------------------------------------------------------------

/// Most foreground lookups one probe makes (a guard against bridging loops).
pub const MAX_ROUNDS: usize = 8;

/// What the caller is to do next while probing a terminal.
#[derive(Debug, PartialEq, Eq, Structural)]
pub enum ProbeStep {
    /// Find the deepest foreground program under this pid (`deepest_foreground_app`).
    Foreground(u32),
    /// Ask tmux which pane this client pid shows, and hand back its pid.
    BridgeTmux(u32),
    /// The chain is complete.
    Done,
}

/// The state of probing a terminal for the chain of programs inside it.
pub struct ChainProbe {
    chain: Vec<String>,
    rounds: usize,
    pending: Option<String>,
    done: bool,
}

impl ChainProbe {
    /// The programs found so far, containers first.
    pub closed spec fn chain_view(&self) -> Seq<Seq<char>> {
        views(self.chain@)
    }

    /// Foreground lookups made so far.
    pub closed spec fn rounds_view(&self) -> nat {
        self.rounds as nat
    }

    /// The multiplexer waiting to be bridged into, if any.
    pub closed spec fn pending_view(&self) -> Option<Seq<char>> {
        match self.pending {
            Some(c) => Some(c@),
            None => None,
        }
    }

    /// Whether the probe has finished.
    pub closed spec fn done_view(&self) -> bool {
        self.done
    }

    /// Lookups stay within `MAX_ROUNDS` and find at most one program each;
    /// until the probe finishes every program found is a multiplexer, and
    /// after it only the last may not be; a pending bridge is to tmux.
    #[verifier::type_invariant]
    closed spec fn well_formed(&self) -> bool {
        &&& self.rounds <= MAX_ROUNDS
        &&& self.chain@.len() + (if self.pending is Some { 1int } else { 0 }) <= self.rounds
        &&& forall|k: int|
            0 <= k < self.chain@.len() - 1 ==> multiplexer_spec(#[trigger] self.chain@[k]@)
        &&& !self.done ==> forall|k: int|
            0 <= k < self.chain@.len() ==> multiplexer_spec(#[trigger] self.chain@[k]@)
        &&& self.pending is Some ==> !self.done && self.pending->0@ == "tmux"@
    }

    /// The chain holds at most `MAX_ROUNDS` programs, and every program in it
    /// but the last is a multiplexer.
    pub open spec fn chain_shaped(&self) -> bool {
        &&& self.chain_view().len() <= MAX_ROUNDS
        &&& forall|k: int|
            0 <= k < self.chain_view().len() - 1 ==> multiplexer_spec(
                #[trigger] self.chain_view()[k],
            )
    }

    /// A bound on the steps still to come: none once finished; otherwise two
    /// per foreground lookup left, one less while a bridge is pending.
    pub open spec fn steps_left(&self) -> int {
        if self.done_view() {
            0
        } else if self.pending_view() is Some {
            2 * (MAX_ROUNDS - self.rounds_view()) + 1
        } else {
            2 * (MAX_ROUNDS - self.rounds_view())
        }
    }

    proof fn lemma_shaped(&self)
        requires
            self.well_formed(),
        ensures
            self.chain_shaped(),
    {
        assert forall|k: int| 0 <= k < self.chain_view().len() - 1 implies multiplexer_spec(
            #[trigger] self.chain_view()[k],
        ) by {
            assert(self.chain_view()[k] == self.chain@[k]@);
        }
    }

    /// A probe that has found nothing yet; its first step is a foreground
    /// lookup under the terminal's pid.
    pub fn new(terminal_pid: u32) -> (r: (ChainProbe, ProbeStep))
        ensures
            r.0.chain_view() == Seq::<Seq<char>>::empty(),
            r.0.rounds_view() == 0,
            r.0.pending_view() is None,
            !r.0.done_view(),
            r.1 == ProbeStep::Foreground(terminal_pid),
            r.0.chain_shaped(),
            r.0.steps_left() == 2 * MAX_ROUNDS,
    {
        let p = ChainProbe { chain: Vec::new(), rounds: 0, pending: None, done: false };
        proof {
            p.lemma_shaped();
        }
        (p, ProbeStep::Foreground(terminal_pid))
    }

    /// The chain found, containers first and the leaf program last.
    pub fn into_chain(self) -> (r: Vec<String>)
        ensures
            views(r@) == self.chain_view(),
    {
        self.chain
    }

    /// Takes the result of a foreground lookup.  Nothing found ends the
    /// probe; a program that is not a multiplexer is the leaf and ends it; a
    /// multiplexer ends it too unless it is tmux, which is to be bridged into.
    /// A probe that is not waiting for a lookup (finished, waiting for a
    /// bridge, or out of rounds) is left unchanged.
    pub fn on_foreground(&mut self, found: Option<(String, u32)>) -> (step: ProbeStep)
        ensures
            final(self).chain_shaped(),
            step != ProbeStep::Done ==> 0 <= final(self).steps_left() < old(self).steps_left(),
            ({
                let o = *old(self);
                let f = *final(self);
                if o.done_view() || o.pending_view() is Some || o.rounds_view() >= MAX_ROUNDS {
                    f.chain_view() == o.chain_view() && f.rounds_view() == o.rounds_view()
                        && f.pending_view() == o.pending_view() && f.done_view() == o.done_view()
                        && step == ProbeStep::Done
                } else {
                    &&& f.rounds_view() == o.rounds_view() + 1
                    &&& f.done_view() == (step == ProbeStep::Done)
                    &&& match found {
                        None => f.chain_view() == o.chain_view() && f.pending_view() is None
                            && step == ProbeStep::Done,
                        Some((comm, pid)) => if multiplexer_spec(comm@) && comm@ == "tmux"@ {
                            f.chain_view() == o.chain_view() && f.pending_view() == Some(comm@)
                                && step == ProbeStep::BridgeTmux(pid)
                        } else {
                            f.chain_view() == o.chain_view().push(comm@) && f.pending_view() is None
                                && step == ProbeStep::Done
                        },
                    }
                }
            }),
    {
        proof {
            use_type_invariant(&*self);
        }
        if self.done || self.pending.is_some() || self.rounds >= MAX_ROUNDS {
            proof {
                self.lemma_shaped();
            }
            return ProbeStep::Done;
        }
        let rounds = self.rounds + 1;
        let step = match found {
            None => {
                let chain = copy_strings(&self.chain);
                *self = ChainProbe { chain, rounds, pending: None, done: true };
                ProbeStep::Done
            },
            Some((comm, pid)) => {
                let c = chars_of(comm.as_str());
                if multiplexer_chars(&c) && eq_lit(&c, "tmux") {
                    let chain = copy_strings(&self.chain);
                    *self = ChainProbe { chain, rounds, pending: Some(comm), done: false };
                    ProbeStep::BridgeTmux(pid)
                } else {
                    let mut chain = copy_strings(&self.chain);
                    chain.push(comm);
                    assert(views(chain@) =~= views(old(self).chain@).push(c@));
                    *self = ChainProbe { chain, rounds, pending: None, done: true };
                    ProbeStep::Done
                }
            },
        };
        proof {
            use_type_invariant(&*self);
            self.lemma_shaped();
        }
        step
    }

    /// Takes the pid tmux reports for its foreground pane.  The multiplexer
    /// joins the chain either way; with a pid the probe goes on below it
    /// while rounds remain, without one the multiplexer is the leaf and the
    /// probe ends.  A probe not waiting for a bridge is left unchanged.
    pub fn on_bridge(&mut self, next: Option<u32>) -> (step: ProbeStep)
        ensures
            final(self).chain_shaped(),
            step != ProbeStep::Done ==> 0 <= final(self).steps_left() < old(self).steps_left(),
            ({
                let o = *old(self);
                let f = *final(self);
                match o.pending_view() {
                    None => f.chain_view() == o.chain_view() && f.rounds_view() == o.rounds_view()
                        && f.pending_view() is None && f.done_view() == o.done_view() && step
                        == ProbeStep::Done,
                    Some(m) => {
                        &&& f.chain_view() == o.chain_view().push(m)
                        &&& f.rounds_view() == o.rounds_view()
                        &&& f.pending_view() is None
                        &&& f.done_view() == (step == ProbeStep::Done)
                        &&& step == match next {
                            Some(p) => if o.rounds_view() < MAX_ROUNDS {
                                ProbeStep::Foreground(p)
                            } else {
                                ProbeStep::Done
                            },
                            None => ProbeStep::Done,
                        }
                    },
                }
            }),
    {
        proof {
            use_type_invariant(&*self);
        }
        let pending = match &self.pending {
            Some(c) => Some(c.clone()),
            None => None,
        };
        let step = match pending {
            None => {
                proof {
                    self.lemma_shaped();
                }
                ProbeStep::Done
            },
            Some(comm) => {
                let ghost cv = comm@;
                let mut chain = copy_strings(&self.chain);
                chain.push(comm);
                assert(views(chain@) =~= views(old(self).chain@).push(cv));
                assert(multiplexer_spec(cv)) by {
                    reveal_strlit("tmux");
                }
                let step = match next {
                    Some(p) => if self.rounds < MAX_ROUNDS {
                        ProbeStep::Foreground(p)
                    } else {
                        ProbeStep::Done
                    },
                    None => ProbeStep::Done,
                };
                let done = match step {
                    ProbeStep::Done => true,
                    _ => false,
                };
                *self = ChainProbe { chain, rounds: self.rounds, pending: None, done };
                proof {
                    use_type_invariant(&*self);
                    self.lemma_shaped();
                }
                step
            },
        };
        step
    }
}

// ---------------------------------------------------------------------------
// Reading /proc and tmux answers
// ---------------------------------------------------------------------------

/// The command name in a `/proc/<pid>/stat` line: between the first `(` and
/// the last `)`; none when either is missing or they are out of order.
pub open spec fn stat_comm_spec(raw: Seq<char>) -> Option<Seq<char>> {
    let start = find_char(raw, '(', 0);
    let end = skip_back(raw, Pat::Not(')'), raw.len() as int) - 1;
    if start >= raw.len() || end < 0 || end <= start {
        None
    } else {
        Some(raw.subrange(start + 1, end))
    }
}

/// The command name in a `/proc/<pid>/stat` line.
pub fn parse_stat_comm(raw: &str) -> (r: Option<String>)
    ensures
        match r {
            Some(c) => stat_comm_spec(raw@) == Some(c@),
            None => stat_comm_spec(raw@) is None,
        },
{
    let v = chars_of(raw);
    let start = find_char_exec(&v, '(', 0);
    let cut = skip_back_exec(&v, &Pat::Not(')'), v.len());
    proof {
        lemma_find_char_bounds(v@, '(', 0);
        lemma_skip_back_bounds(v@, Pat::Not(')'), v@.len() as int);
    }
    if start >= v.len() || cut == 0 || cut - 1 <= start {
        return None;
    }
    Some(string_of(&sub_chars(&v, start + 1, cut - 1)))
}

/// A decimal digit.
pub open spec fn is_digit(c: char) -> bool {
    '0' <= c && c <= '9'
}

/// The value of a decimal digit.
pub open spec fn digit_value(c: char) -> nat {
    if c == '1' {
        1
    } else if c == '2' {
        2
    } else if c == '3' {
        3
    } else if c == '4' {
        4
    } else if c == '5' {
        5
    } else if c == '6' {
        6
    } else if c == '7' {
        7
    } else if c == '8' {
        8
    } else if c == '9' {
        9
    } else {
        0
    }
}

/// The value of a string of decimal digits.
pub open spec fn digits_value(s: Seq<char>) -> nat
    decreases s.len(),
{
    if s.len() == 0 {
        0
    } else {
        digits_value(s.drop_last()) * 10 + digit_value(s.last())
    }
}

/// Every character is a decimal digit.
pub open spec fn all_digits(d: Seq<char>) -> bool {
    forall|i: int| 0 <= i < d.len() ==> is_digit(#[trigger] d[i])
}

/// What `str::parse` gives for an integer type with the range `min..=max`:
/// an optional `+` (or `-` for a signed type) then one or more ASCII digits,
/// whose value must lie in range.
pub open spec fn parse_int_spec(s: Seq<char>, signed: bool, min: int, max: int) -> Option<int> {
    if s.len() == 0 {
        None
    } else {
        let neg = signed && s[0] == '-';
        let digits = if s[0] == '+' || neg {
            s.drop_first()
        } else {
            s
        };
        if digits.len() == 0 || !all_digits(digits) {
            None
        } else {
            let v: int = if neg {
                -digits_value(digits)
            } else {
                digits_value(digits) as int
            };
            if min <= v <= max {
                Some(v)
            } else {
                None
            }
        }
    }
}

fn digit_value_exec(c: char) -> (d: u64)
    ensures
        d == digit_value(c),
{
    if c == '1' {
        1
    } else if c == '2' {
        2
    } else if c == '3' {
        3
    } else if c == '4' {
        4
    } else if c == '5' {
        5
    } else if c == '6' {
        6
    } else if c == '7' {
        7
    } else if c == '8' {
        8
    } else if c == '9' {
        9
    } else {
        0
    }
}

/// Above every value either parse accepts.
const PARSE_CAP: u64 = 0x1_0000_0000;

proof fn lemma_digits_value_grows(s: Seq<char>)
    requires
        s.len() > 0,
    ensures
        digits_value(s) >= digits_value(s.drop_last()),
{
}

/// Parses a decimal integer within `min..=max` (`i32` or `u32` semantics).
fn parse_int(v: &Vec<char>, signed: bool, min: i64, max: i64) -> (r: Option<i64>)
    requires
        -(PARSE_CAP as int) <= min <= max < PARSE_CAP,
    ensures
        match r {
            Some(x) => parse_int_spec(v@, signed, min as int, max as int) == Some(x as int),
            None => parse_int_spec(v@, signed, min as int, max as int) is None,
        },
{
    if v.len() == 0 {
        return None;
    }
    let neg = signed && v[0] == '-';
    let start: usize = if v[0] == '+' || neg {
        1
    } else {
        0
    };
    let ghost digits = if v@[0] == '+' || neg {
        v@.drop_first()
    } else {
        v@
    };
    assert(digits =~= v@.subrange(start as int, v@.len() as int));
    if start >= v.len() {
        return None;
    }
    let mut acc: u64 = 0;
    let mut over = false;
    let mut i: usize = start;
    while i < v.len()
        invariant
            start <= i <= v.len(),
            start < v.len(),
            digits == v@.subrange(start as int, v@.len() as int),
            v@.len() > 0,
            neg == (signed && v@[0] == '-'),
            digits == (if v@[0] == '+' || neg {
                v@.drop_first()
            } else {
                v@
            }),
            forall|k: int| start <= k < i ==> is_digit(#[trigger] v@[k]),
            !over ==> acc == digits_value(v@.subrange(start as int, i as int)) && acc
                <= PARSE_CAP,
            over ==> digits_value(v@.subrange(start as int, i as int)) > PARSE_CAP,
        decreases v.len() - i,
    {
        let c = v[i];
        if !('0' <= c && c <= '9') {
            assert(digits[i - start] == c);
            assert(!is_digit(digits[(i - start) as int]));
            assert(!all_digits(digits));
            return None;
        }
        let ghost pre = v@.subrange(start as int, i as int);
        let ghost next = v@.subrange(start as int, i + 1);
        assert(next.drop_last() =~= pre);
        assert(next.last() == c);
        assert(digits_value(next) == digits_value(pre) * 10 + digit_value(c));
        if !over {
            let d = digit_value_exec(c);
            let nv = acc * 10 + d;
            if nv > PARSE_CAP {
                over = true;
            } else {
                acc = nv;
            }
        } else {
            proof {
                lemma_digits_value_grows(next);
            }
        }
        i += 1;
    }
    assert(v@.subrange(start as int, v@.len() as int) == digits);
    if over {
        return None;
    }
    let val: i64 = if neg {
        -(acc as i64)
    } else {
        acc as i64
    };
    if min <= val && val <= max {
        Some(val)
    } else {
        None
    }
}

/// `str::parse::<i32>`.
pub fn parse_i32(s: &str) -> (r: Option<i32>)
    ensures
        match r {
            Some(x) => parse_int_spec(s@, true, i32::MIN as int, i32::MAX as int) == Some(x as int),
            None => parse_int_spec(s@, true, i32::MIN as int, i32::MAX as int) is None,
        },
{
    let v = chars_of(s);
    match parse_int(&v, true, i32::MIN as i64, i32::MAX as i64) {
        Some(x) => Some(x as i32),
        None => None,
    }
}

/// `str::parse::<u32>`.
pub fn parse_u32(s: &str) -> (r: Option<u32>)
    ensures
        match r {
            Some(x) => parse_int_spec(s@, false, 0, u32::MAX as int) == Some(x as int),
            None => parse_int_spec(s@, false, 0, u32::MAX as int) is None,
        },
{
    let v = chars_of(s);
    match parse_int(&v, false, 0, u32::MAX as i64) {
        Some(x) => Some(x as u32),
        None => None,
    }
}

/// Whitespace-separated words from `i` on (`split_whitespace`); `cur` is the
/// word read so far.
pub open spec fn words_scan(s: Seq<char>, i: int, cur: Seq<char>) -> Seq<Seq<char>>
    decreases s.len() - i,
{
    if 0 <= i < s.len() {
        if is_ws(s[i]) {
            if cur.len() > 0 {
                seq![cur] + words_scan(s, i + 1, Seq::empty())
            } else {
                words_scan(s, i + 1, cur)
            }
        } else {
            words_scan(s, i + 1, cur.push(s[i]))
        }
    } else if cur.len() > 0 {
        seq![cur]
    } else {
        Seq::empty()
    }
}

/// The pids among the words of a `children` file that parse as `i32`.
pub open spec fn pids_of(words: Seq<Seq<char>>) -> Seq<i32>
    decreases words.len(),
{
    if words.len() == 0 {
        Seq::empty()
    } else {
        let rest = pids_of(words.drop_last());
        match parse_int_spec(words.last(), true, i32::MIN as int, i32::MAX as int) {
            Some(x) => rest.push(x as i32),
            None => rest,
        }
    }
}

/// The child pids listed in `/proc/<pid>/task/<pid>/children`; words that do
/// not parse are skipped.
pub fn parse_children(raw: &str) -> (out: Vec<i32>)
    ensures
        out@ == pids_of(words_scan(raw@, 0, Seq::empty())),
{
    let v = chars_of(raw);
    let mut words: Vec<Vec<char>> = Vec::new();
    let mut cur: Vec<char> = Vec::new();
    let mut i: usize = 0;
    while i < v.len()
        invariant
            i <= v.len(),
            v@ == raw@,
            words@.map_values(|p: Vec<char>| p@) + words_scan(v@, i as int, cur@) == words_scan(
                v@,
                0,
                Seq::empty(),
            ),
        decreases v.len() - i,
    {
        let ghost before = words@.map_values(|p: Vec<char>| p@);
        if is_whitespace(v[i]) {
            if cur.len() > 0 {
                let ghost cv = cur@;
                words.push(cur);
                cur = Vec::new();
                assert(words@.map_values(|p: Vec<char>| p@) =~= before.push(cv));
                assert(words@.map_values(|p: Vec<char>| p@) + words_scan(v@, i + 1, cur@)
                    =~= words_scan(v@, 0, Seq::empty()));
            }
        } else {
            cur.push(v[i]);
        }
        i += 1;
    }
    let ghost before = words@.map_values(|p: Vec<char>| p@);
    if cur.len() > 0 {
        let ghost cv = cur@;
        words.push(cur);
        assert(words@.map_values(|p: Vec<char>| p@) =~= before.push(cv));
        assert(before.push(cv) =~= before + seq![cv]);
    } else {
        assert(before + Seq::<Seq<char>>::empty() =~= before);
    }
    let ghost wv = words@.map_values(|p: Vec<char>| p@);
    assert(wv == words_scan(raw@, 0, Seq::empty()));
    let mut out: Vec<i32> = Vec::new();
    let mut k: usize = 0;
    while k < words.len()
        invariant
            k <= words.len(),
            wv == words@.map_values(|p: Vec<char>| p@),
            out@ == pids_of(wv.take(k as int)),
        decreases words.len() - k,
    {
        assert(wv.take(k + 1).drop_last() =~= wv.take(k as int));
        assert(wv.take(k + 1).last() == words@[k as int]@);
        match parse_int(&words[k], true, i32::MIN as i64, i32::MAX as i64) {
            Some(x) => out.push(x as i32),
            None => {},
        }
        k += 1;
    }
    assert(wv.take(words.len() as int) =~= wv);
    out
}

/// The pane pid tmux printed: the first word of its answer, as `u32`.
pub open spec fn tmux_pid_spec(out: Seq<char>) -> Option<int> {
    let w = first_token(trim(out));
    if w.len() == 0 {
        None
    } else {
        parse_int_spec(w, false, 0, u32::MAX as int)
    }
}

/// The pane pid in the output of `tmux display-message -p '#{pane_pid}'`.
pub fn tmux_pane_pid(output: &str) -> (r: Option<u32>)
    ensures
        match r {
            Some(x) => tmux_pid_spec(output@) == Some(x as int),
            None => tmux_pid_spec(output@) is None,
        },
{
    let v = chars_of(output);
    let t = trim_chars(&v);
    let w = first_token_chars(&t);
    if w.len() == 0 {
        return None;
    }
    match parse_int(&w, false, 0, u32::MAX as i64) {
        Some(x) => Some(x as u32),
        None => None,
    }
}

/// Whether a file-descriptor link names a terminal (`/dev/pts/...` or `/dev/tty...`).
pub fn is_tty_path(link: &str) -> (b: bool)
    ensures
        b == ("/dev/pts/"@.is_prefix_of(link@) || "/dev/tty"@.is_prefix_of(link@)),
{
    let v = chars_of(link);
    let pts = chars_of("/dev/pts/");
    let tty = chars_of("/dev/tty");
    starts_with_chars(&v, &pts) || starts_with_chars(&v, &tty)
}

} // verus!
