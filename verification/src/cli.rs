//! The decisions of the command-line entry point: which app-id's shortcuts
//! to show, the manual `add` channel, the single-instance toggle, and the
//! time stamp of the diagnostic log.

use vstd::prelude::*;

use crate::niri::WindowInfo;
use crate::store::{EntryView, ShortcutEntry, ShortcutStore, entry_views, copy_entries, path_join};
use crate::term::{lookup_keys_spec, resolve_lookup_keys, terminal_app_spec, is_terminal};
use crate::text::{chars_of, eq_lit, string_of, views, lemma_skip_fwd_bounds};

verus! {

// ---------------------------------------------------------------------------
// Time stamp
// ---------------------------------------------------------------------------

/// The decimal digit for `d` (below ten).
pub open spec fn digit(d: int) -> char {
    if d == 0 {
        '0'
    } else if d == 1 {
        '1'
    } else if d == 2 {
        '2'
    } else if d == 3 {
        '3'
    } else if d == 4 {
        '4'
    } else if d == 5 {
        '5'
    } else if d == 6 {
        '6'
    } else if d == 7 {
        '7'
    } else if d == 8 {
        '8'
    } else {
        '9'
    }
}

/// The decimal notation of a number.
pub open spec fn decimal(n: nat) -> Seq<char>
    decreases n,
{
    if n < 10 {
        seq![digit(n as int)]
    } else {
        decimal(n / 10).push(digit((n % 10) as int))
    }
}

/// A number written with at least two digits (`{:02}`).
pub open spec fn two_digits(n: nat) -> Seq<char> {
    if n < 10 {
        seq!['0', digit(n as int)]
    } else {
        decimal(n)
    }
}

/// `RD<day> hh:mm:ss` for a count of seconds since the Unix epoch: the day
/// as a Rata Die number (1970-01-01 is day 719163) and the UTC time of day.
pub open spec fn stamp_spec(secs: nat) -> Seq<char> {
    "RD"@ + decimal(secs / 86400 + 719163) + " "@ + two_digits(secs / 3600 % 24) + ":"@
        + two_digits(secs / 60 % 60) + ":"@ + two_digits(secs % 60)
}

fn digit_exec(d: u64) -> (c: char)
    requires
        d < 10,
    ensures
        c == digit(d as int),
{
    if d == 0 {
        '0'
    } else if d == 1 {
        '1'
    } else if d == 2 {
        '2'
    } else if d == 3 {
        '3'
    } else if d == 4 {
        '4'
    } else if d == 5 {
        '5'
    } else if d == 6 {
        '6'
    } else if d == 7 {
        '7'
    } else if d == 8 {
        '8'
    } else {
        '9'
    }
}

fn decimal_exec(n: u64) -> (out: Vec<char>)
    ensures
        out@ == decimal(n as nat),
    decreases n,
{
    if n < 10 {
        let mut v: Vec<char> = Vec::new();
        v.push(digit_exec(n));
        assert(v@ =~= seq![digit(n as int)]);
        v
    } else {
        let mut v = decimal_exec(n / 10);
        v.push(digit_exec(n % 10));
        v
    }
}

fn two_digits_exec(n: u64) -> (out: Vec<char>)
    ensures
        out@ == two_digits(n as nat),
{
    if n < 10 {
        let mut v: Vec<char> = Vec::new();
        v.push('0');
        v.push(digit_exec(n));
        assert(v@ =~= seq!['0', digit(n as int)]);
        v
    } else {
        decimal_exec(n)
    }
}

fn then_lit(mut a: Vec<char>, lit: &str, b: Vec<char>) -> (out: Vec<char>)
    ensures
        out@ == a@ + lit@ + b@,
{
    let mut l = chars_of(lit);
    let mut b = b;
    a.append(&mut l);
    a.append(&mut b);
    a
}

/// The diagnostic log's time stamp for a count of seconds since the epoch
/// (see `stamp_spec`).
pub fn chrono_stamp(secs: u64) -> (out: String)
    ensures
        out@ == stamp_spec(secs as nat),
{
    let day = decimal_exec(secs / 86400 + 719163);
    let h = two_digits_exec(secs / 3600 % 24);
    let m = two_digits_exec(secs / 60 % 60);
    let s = two_digits_exec(secs % 60);
    let v = then_lit(chars_of("RD"), "", day);
    let v = then_lit(v, " ", h);
    let v = then_lit(v, ":", m);
    let v = then_lit(v, ":", s);
    proof {
        reveal_strlit("");
        assert(v@ =~= stamp_spec(secs as nat));
    }
    string_of(&v)
}

// ---------------------------------------------------------------------------
// Which shortcuts to show
// ---------------------------------------------------------------------------

/// The candidate app-ids for a window, most specific first: for a terminal
/// with programs detected inside, the lookup keys of that chain; otherwise
/// the window's own app-id.
pub open spec fn candidates_spec(app_id: Seq<char>, chain: Seq<Seq<char>>) -> Seq<Seq<char>> {
    if terminal_app_spec(app_id) && chain.len() > 0 {
        lookup_keys_spec(app_id, chain)
    } else {
        seq![app_id]
    }
}

/// The candidate app-ids for a window and the chain of programs detected
/// inside it (empty when none was detected or the window is no terminal).
pub fn resolve_candidates(window: &WindowInfo, chain: &[String]) -> (out: Vec<String>)
    ensures
        views(out@) == candidates_spec(window.app_id@, chain@.map_values(|x: String| x@)),
{
    if is_terminal(window.app_id.as_str()) && chain.len() > 0 {
        return resolve_lookup_keys(window.app_id.as_str(), chain);
    }
    let mut out: Vec<String> = Vec::new();
    out.push(window.app_id.clone());
    assert(views(out@) =~= seq![window.app_id@]);
    out
}

/// The first candidate the store knows, else the fallback.
pub open spec fn resolved_spec(
    store: Map<Seq<char>, Seq<EntryView>>,
    candidates: Seq<Seq<char>>,
    fallback: Seq<char>,
) -> Seq<char>
    decreases candidates.len(),
{
    if candidates.len() == 0 {
        fallback
    } else if store.contains_key(candidates[0]) {
        candidates[0]
    } else {
        resolved_spec(store, candidates.drop_first(), fallback)
    }
}

/// The resolved app-id is the first candidate, in order, that the store
/// knows; the fallback is given only when the store knows none of them.
pub proof fn law_first_known_candidate_wins(
    store: Map<Seq<char>, Seq<EntryView>>,
    candidates: Seq<Seq<char>>,
    fallback: Seq<char>,
    i: int,
)
    ensures
        0 <= i < candidates.len() && store.contains_key(candidates[i]) && (forall|j: int|
            0 <= j < i ==> !store.contains_key(#[trigger] candidates[j])) ==> resolved_spec(
            store,
            candidates,
            fallback,
        ) == candidates[i],
        (forall|j: int| 0 <= j < candidates.len() ==> !store.contains_key(#[trigger] candidates[j]))
            ==> resolved_spec(store, candidates, fallback) == fallback,
    decreases candidates.len(),
{
    if candidates.len() > 0 {
        let rest = candidates.drop_first();
        law_first_known_candidate_wins(store, rest, fallback, i - 1);
        if 0 < i < candidates.len() && store.contains_key(candidates[i]) && (forall|j: int|
            0 <= j < i ==> !store.contains_key(#[trigger] candidates[j])) {
            assert(!store.contains_key(candidates[0]));
            assert(rest[i - 1] == candidates[i]);
            assert forall|j: int| 0 <= j < i - 1 implies !store.contains_key(#[trigger] rest[j]) by {
                assert(rest[j] == candidates[j + 1]);
            }
        }
        if forall|j: int| 0 <= j < candidates.len() ==> !store.contains_key(#[trigger] candidates[j]) {
            assert(!store.contains_key(candidates[0]));
            assert forall|j: int| 0 <= j < rest.len() implies !store.contains_key(#[trigger] rest[j]) by {
                assert(rest[j] == candidates[j + 1]);
            }
        }
    }
}

/// The app-id whose shortcuts to show: the first candidate with shortcuts in
/// the store, or the window's own app-id when none has.
pub fn resolve_app_id(store: &ShortcutStore, candidates: &[String], fallback: &str) -> (out: String)
    ensures
        out@ == resolved_spec(store@, candidates@.map_values(|x: String| x@), fallback@),
{
    let ghost cv = candidates@.map_values(|x: String| x@);
    let mut i: usize = 0;
    assert(cv.skip(0) =~= cv);
    while i < candidates.len()
        invariant
            i <= candidates@.len(),
            cv == candidates@.map_values(|x: String| x@),
            resolved_spec(store@, cv.skip(i as int), fallback@) == resolved_spec(
                store@,
                cv,
                fallback@,
            ),
        decreases candidates.len() - i,
    {
        let ghost rest = cv.skip(i as int);
        assert(rest.drop_first() =~= cv.skip(i + 1));
        assert(rest[0] == candidates@[i as int]@);
        if store.get(candidates[i].as_str()).is_some() {
            return candidates[i].clone();
        }
        i += 1;
    }
    assert(cv.skip(i as int) =~= Seq::<Seq<char>>::empty());
    string_of(&chars_of(fallback))
}

/// The shortcuts recorded for an app-id, or none.
pub fn entries_for(store: &ShortcutStore, app_id: &str) -> (out: Vec<ShortcutEntry>)
    ensures
        entry_views(out@) == if store@.contains_key(app_id@) {
            store@[app_id@]
        } else {
            Seq::<EntryView>::empty()
        },
{
    match store.get(app_id) {
        Some(app) => copy_entries(&app.entries),
        None => {
            let v: Vec<ShortcutEntry> = Vec::new();
            assert(entry_views(v@) =~= Seq::<EntryView>::empty());
            v
        },
    }
}

// ---------------------------------------------------------------------------
// The manual `add` channel
// ---------------------------------------------------------------------------

/// The entry `keytip add <app_id> <keys> <action> [description] [context]`
/// adds: description empty and context "手动补充" when not given.
pub open spec fn added_entry(args: Seq<Seq<char>>) -> EntryView {
    (
        if args.len() > 4 {
            args[4]
        } else {
            "手动补充"@
        },
        args[1],
        args[2],
        if args.len() > 3 {
            args[3]
        } else {
            ""@
        },
    )
}

/// Each argument of `keytip add` lands in its own place, whatever follows
/// it: the keys and the action are the second and third arguments; the
/// description is the fourth when given (empty otherwise), independently of
/// a context; the context is the fifth when given, else "手动补充".
pub proof fn law_add_places_each_argument(a: Seq<Seq<char>>)
    requires
        a.len() >= 3,
    ensures
        added_entry(a).1 == a[1],
        added_entry(a).2 == a[2],
        a.len() > 3 ==> added_entry(a).3 == a[3],
        a.len() == 3 ==> added_entry(a).3 == Seq::<char>::empty(),
        a.len() > 4 ==> added_entry(a).0 == a[4],
        a.len() <= 4 ==> added_entry(a).0 == "手动补充"@,
{
    reveal_strlit("");
}

/// `keytip add <app_id> <keys> <action> [description] [context]`: with fewer
/// than three arguments nothing changes and `false` is returned; otherwise the
/// new entry is appended to the app's shortcuts (an empty list when it had
/// none) and `true` is returned.  Saving the store is the caller's part.
pub fn cmd_add(store: &mut ShortcutStore, args: &[String]) -> (ok: bool)
    ensures
        ({
            let a = args@.map_values(|x: String| x@);
            if a.len() < 3 {
                !ok && final(store)@ == old(store)@
            } else {
                ok && final(store)@ == old(store)@.insert(
                    a[0],
                    (if old(store)@.contains_key(a[0]) {
                        old(store)@[a[0]]
                    } else {
                        Seq::<EntryView>::empty()
                    }).push(added_entry(a)),
                )
            }
        }),
{
    let ghost a = args@.map_values(|x: String| x@);
    if args.len() < 3 {
        return false;
    }
    assert(a[0] == args@[0]@ && a[1] == args@[1]@ && a[2] == args@[2]@);
    let app_id = args[0].clone();
    let keys = args[1].clone();
    let action = args[2].clone();
    let description = if args.len() > 3 {
        assert(a[3] == args@[3]@);
        args[3].clone()
    } else {
        String::from_str("")
    };
    let context = if args.len() > 4 {
        assert(a[4] == args@[4]@);
        args[4].clone()
    } else {
        String::from_str("手动补充")
    };
    let mut entries = entries_for(store, app_id.as_str());
    let ghost before = entry_views(entries@);
    entries.push(ShortcutEntry { context, keys, action, description });
    assert(entry_views(entries@) =~= before.push(added_entry(a)));
    store.add_app_shortcuts(app_id.as_str(), entries);
    true
}

// ---------------------------------------------------------------------------
// Single instance
// ---------------------------------------------------------------------------

/// What a second KeyTip process tells the running one, given the focused
/// window's app-id (none when it could not be had): close when KeyTip itself
/// is in front or focus is unknown, else come to the front.
pub open spec fn client_command_spec(focused_app_id: Option<Seq<char>>) -> Seq<char> {
    match focused_app_id {
        Some(id) => if id == "keytip"@ {
            "close"@
        } else {
            "focus"@
        },
        None => "close"@,
    }
}

/// The command a second KeyTip process sends to the running one.
pub fn client_command(focused_app_id: Option<&str>) -> (r: &'static str)
    ensures
        r@ == client_command_spec(
            match focused_app_id {
                Some(s) => Some(s@),
                None => None,
            },
        ),
{
    match focused_app_id {
        Some(id) => {
            let v = chars_of(id);
            if eq_lit(&v, "keytip") {
                "close"
            } else {
                "focus"
            }
        },
        None => "close",
    }
}

/// A command received by the running instance.
#[derive(Debug, PartialEq, Eq, Structural)]
pub enum IpcCommand {
    Close,
    Focus,
    Ignore,
}

/// How the running instance reads a message: starting with `close` closes
/// the overlay, starting with `focus` raises it, anything else is ignored.
pub open spec fn ipc_command_spec(msg: Seq<char>) -> IpcCommand {
    if "close"@.is_prefix_of(msg) {
        IpcCommand::Close
    } else if "focus"@.is_prefix_of(msg) {
        IpcCommand::Focus
    } else {
        IpcCommand::Ignore
    }
}

/// Reads a message received by the running instance.
pub fn ipc_command(msg: &str) -> (r: IpcCommand)
    ensures
        r == ipc_command_spec(msg@),
{
    let v = chars_of(msg);
    let close = chars_of("close");
    let focus = chars_of("focus");
    if crate::text::starts_with_chars(&v, &close) {
        IpcCommand::Close
    } else if crate::text::starts_with_chars(&v, &focus) {
        IpcCommand::Focus
    } else {
        IpcCommand::Ignore
    }
}

/// Where the single-instance socket lives: `keytip.sock` in the runtime
/// directory, or `/tmp/keytip-<user>.sock` without one (`user` when the user
/// name is unknown).
pub open spec fn socket_path_spec(runtime_dir: Option<Seq<char>>, user: Option<Seq<char>>) -> Seq<char> {
    match runtime_dir {
        Some(d) => path_join(d, "keytip.sock"@),
        None => "/tmp/keytip-"@ + (match user {
            Some(u) => u,
            None => "user"@,
        }) + ".sock"@,
    }
}

/// The single-instance socket path.
pub fn socket_path(runtime_dir: Option<&str>, user: Option<&str>) -> (out: String)
    ensures
        out@ == socket_path_spec(
            match runtime_dir {
                Some(d) => Some(d@),
                None => None,
            },
            match user {
                Some(u) => Some(u@),
                None => None,
            },
        ),
{
    match runtime_dir {
        Some(d) => crate::store::user_config_path_like(d, "keytip.sock"),
        None => {
            let mut v = chars_of("/tmp/keytip-");
            let mut u = match user {
                Some(u) => chars_of(u),
                None => chars_of("user"),
            };
            let mut tail = chars_of(".sock");
            v.append(&mut u);
            v.append(&mut tail);
            string_of(&v)
        },
    }
}

} // verus!
