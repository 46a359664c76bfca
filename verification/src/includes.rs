//! Following niri's `import` / `include` lines from file to file.
//!
//! The walk starts at the root configuration file and reads, depth first,
//! every file it imports, in the order the lines appear; each file (by its
//! canonical path) is read once, and a file's own bindings come after those
//! of everything it imports.  Reading is the caller's part: the walk names
//! the path to read next and takes back what was found there.

use vstd::prelude::*;

use crate::importer_niri::{binds_entries_spec, collect_binds, find_imports, imports_from, strip_comments, strip_from};
use crate::store::{EntryView, ShortcutEntry, entry_views, path_join};
use crate::text::{chars_of, copy_chars, eq_lit, parent_chars, parent_of, string_of, views};

verus! {

/// `dir` joined with `name` as `PathBuf::push` does on Unix: an absolute
/// name replaces the directory, otherwise a `/` separates the two when the
/// directory is non-empty and does not end in one.
pub open spec fn join_path(dir: Seq<char>, name: Seq<char>) -> Seq<char> {
    if name.len() > 0 && name[0] == '/' {
        name
    } else {
        path_join(dir, name)
    }
}

/// The directory the imports of the file at `path` are relative to: its
/// parent, or `fallback` when it has none.
pub open spec fn base_of(path: Seq<char>, fallback: Seq<char>) -> Seq<char> {
    match parent_of(path) {
        Some(p) => p,
        None => fallback,
    }
}

/// A file being walked: the directory its imports are relative to, the
/// imports still to read, and its own bindings (added when its imports are done).
pub type FrameView = (Seq<char>, Seq<Seq<char>>, Seq<EntryView>);

/// What the caller is to do next.
#[derive(Debug, PartialEq, Eq)]
pub enum WalkStep {
    /// Read this path, when it exists, and hand back what was found.
    Read(String),
    /// The walk is over.
    Done,
}

/// Moves the walk on: the top file's next import is the path to read (with
/// the directory its own imports will be relative to); a file with no
/// imports left is finished and its bindings are appended to the entries;
/// with no file left the walk is over.
pub open spec fn settle(stack: Seq<FrameView>, entries: Seq<EntryView>) -> (
    Seq<FrameView>,
    Seq<EntryView>,
    Option<(Seq<char>, Seq<char>)>,
)
    decreases stack.len(),
{
    if stack.len() == 0 {
        (stack, entries, None)
    } else {
        let top = stack.last();
        if top.1.len() > 0 {
            let next = join_path(top.0, top.1[0]);
            (
                stack.drop_last().push((top.0, top.1.drop_first(), top.2)),
                entries,
                Some((next, base_of(next, top.0))),
            )
        } else {
            settle(stack.drop_last(), entries + top.2)
        }
    }
}

/// The files in progress once a file has been handled: a file seen before,
/// or one that could not be read, adds nothing; a new file is pushed with
/// its imports and its bindings, both taken from its text without comments.
pub open spec fn after_file(
    stack: Seq<FrameView>,
    base: Seq<char>,
    fresh: bool,
    text: Option<Seq<char>>,
) -> Seq<FrameView> {
    if fresh && text is Some {
        let stripped = strip_from(text->0, 0, false);
        stack.push((base, imports_from(stripped, 0), binds_entries_spec(stripped)))
    } else {
        stack
    }
}

/// A step asks for the path being read, or ends the walk when none is.
pub open spec fn step_for(step: WalkStep, reading: Option<(Seq<char>, Seq<char>)>) -> bool {
    match reading {
        Some(r) => step matches WalkStep::Read(p) && p@ == r.0,
        None => step == WalkStep::Done,
    }
}

struct IncludeFrame {
    base: String,
    pending: Vec<String>,
    next: usize,
    own: Vec<ShortcutEntry>,
}

spec fn frame_view(f: IncludeFrame) -> FrameView {
    (
        f.base@,
        if f.next <= f.pending@.len() {
            views(f.pending@).skip(f.next as int)
        } else {
            Seq::empty()
        },
        entry_views(f.own@),
    )
}

/// The state of a walk through configuration files.
pub struct IncludeWalk {
    seen: Vec<String>,
    stack: Vec<IncludeFrame>,
    entries: Vec<ShortcutEntry>,
    reading: Option<(String, String)>,
}

fn join_path_exec(dir: &Vec<char>, name: &Vec<char>) -> (out: Vec<char>)
    ensures
        out@ == join_path(dir@, name@),
{
    if name.len() > 0 && name[0] == '/' {
        return copy_chars(name);
    }
    let mut out = copy_chars(dir);
    if dir.len() > 0 && dir[dir.len() - 1] != '/' {
        let mut slash = chars_of("/");
        out.append(&mut slash);
    }
    let mut n = copy_chars(name);
    out.append(&mut n);
    out
}

fn contains_string(v: &Vec<String>, c: &Vec<char>) -> (r: bool)
    ensures
        r == views(v@).contains(c@),
{
    let ghost vv = views(v@);
    let mut i: usize = 0;
    while i < v.len()
        invariant
            i <= v.len(),
            vv == views(v@),
            forall|k: int| 0 <= k < i ==> vv[k] != c@,
        decreases v.len() - i,
    {
        if eq_lit(c, v[i].as_str()) {
            assert(vv[i as int] == c@);
            return true;
        }
        i += 1;
    }
    false
}

impl IncludeWalk {
    /// The canonical paths of the files read so far.
    pub closed spec fn seen_view(&self) -> Seq<Seq<char>> {
        views(self.seen@)
    }

    /// The files in progress, the root first.
    pub closed spec fn stack_view(&self) -> Seq<FrameView> {
        self.stack@.map_values(|f: IncludeFrame| frame_view(f))
    }

    /// The bindings collected so far.
    pub closed spec fn entries_view(&self) -> Seq<EntryView> {
        entry_views(self.entries@)
    }

    /// The path being read and the directory its imports are relative to.
    pub closed spec fn reading_view(&self) -> Option<(Seq<char>, Seq<char>)> {
        match self.reading {
            Some((p, b)) => Some((p@, b@)),
            None => None,
        }
    }

    /// A walk that starts by reading the root file; the root's imports are
    /// relative to its directory (none when it has no parent).
    pub fn new(root: &str) -> (r: (IncludeWalk, WalkStep))
        ensures
            r.0.seen_view() == Seq::<Seq<char>>::empty(),
            r.0.stack_view() == Seq::<FrameView>::empty(),
            r.0.entries_view() == Seq::<EntryView>::empty(),
            r.0.reading_view() == Some((root@, base_of(root@, Seq::empty()))),
            step_for(r.1, r.0.reading_view()),
    {
        let p = chars_of(root);
        let base = match parent_chars(&p) {
            Some(b) => string_of(&b),
            None => String::new(),
        };
        let w = IncludeWalk {
            seen: Vec::new(),
            stack: Vec::new(),
            entries: Vec::new(),
            reading: Some((string_of(&p), base)),
        };
        assert(w.stack_view() =~= Seq::<FrameView>::empty());
        assert(w.seen_view() =~= Seq::<Seq<char>>::empty());
        assert(w.entries_view() =~= Seq::<EntryView>::empty());
        (w, WalkStep::Read(string_of(&p)))
    }

    fn advance(&mut self) -> (step: WalkStep)
        ensures
            final(self).seen_view() == old(self).seen_view(),
            ({
                let s = settle(old(self).stack_view(), old(self).entries_view());
                &&& final(self).stack_view() == s.0
                &&& final(self).entries_view() == s.1
                &&& final(self).reading_view() == s.2
                &&& step_for(step, s.2)
            }),
    {
        let ghost goal = settle(old(self).stack_view(), old(self).entries_view());
        loop
            invariant
                self.seen_view() == old(self).seen_view(),
                settle(self.stack_view(), self.entries_view()) == goal,
                goal == settle(old(self).stack_view(), old(self).entries_view()),
            decreases self.stack@.len(),
        {
            let ghost sv = self.stack_view();
            let ghost ev = self.entries_view();
            if self.stack.len() == 0 {
                self.reading = None;
                return WalkStep::Done;
            }
            let mut top = self.stack.pop().unwrap();
            assert(self.stack_view() =~= sv.drop_last());
            assert(frame_view(top) == sv.last());
            if top.next < top.pending.len() {
                let ghost pv = views(top.pending@).skip(top.next as int);
                let imp = chars_of(top.pending[top.next].as_str());
                assert(imp@ == pv[0]);
                top.next = top.next + 1;
                assert(views(top.pending@).skip(top.next as int) =~= pv.drop_first());
                let dir = chars_of(top.base.as_str());
                let next = join_path_exec(&dir, &imp);
                let base = match parent_chars(&next) {
                    Some(b) => string_of(&b),
                    None => string_of(&dir),
                };
                self.stack.push(top);
                assert(self.stack_view() =~= sv.drop_last().push((sv.last().0, sv.last().1.drop_first(), sv.last().2)));
                self.reading = Some((string_of(&next), base));
                return WalkStep::Read(string_of(&next));
            } else {
                assert(frame_view(top).1 =~= Seq::<Seq<char>>::empty());
                let mut own = top.own;
                self.entries.append(&mut own);
                assert(self.entries_view() =~= ev + sv.last().2);
            }
        }
    }

    /// Takes what was found at the path being read: its canonical path and
    /// its text (none when it could not be read).  A file seen before adds
    /// nothing; a new one is recorded as seen and, when it was read, its
    /// imports are walked next and its bindings follow theirs.  The walk
    /// then moves on (see `settle`).  Without a path being read, nothing
    /// changes and the walk is over.
    pub fn on_file(&mut self, canonical: &str, text: Option<&str>) -> (step: WalkStep)
        ensures
            match old(self).reading_view() {
                None => final(self).seen_view() == old(self).seen_view() && final(self).stack_view()
                    == old(self).stack_view() && final(self).entries_view()
                    == old(self).entries_view() && final(self).reading_view() is None && step
                    == WalkStep::Done,
                Some(r) => {
                    let fresh = !old(self).seen_view().contains(canonical@);
                    let t = match text {
                        Some(x) => Some(x@),
                        None => None,
                    };
                    let s = settle(
                        after_file(old(self).stack_view(), r.1, fresh, t),
                        old(self).entries_view(),
                    );
                    &&& final(self).seen_view() == if fresh {
                        old(self).seen_view().push(canonical@)
                    } else {
                        old(self).seen_view()
                    }
                    &&& final(self).stack_view() == s.0
                    &&& final(self).entries_view() == s.1
                    &&& final(self).reading_view() == s.2
                    &&& step_for(step, s.2)
                },
            },
    {
        let base = match &self.reading {
            Some((_, b)) => b.clone(),
            None => {
                return WalkStep::Done;
            },
        };
        let c = chars_of(canonical);
        if contains_string(&self.seen, &c) {
            return self.advance();
        }
        let ghost sv = self.seen_view();
        self.seen.push(string_of(&c));
        assert(self.seen_view() =~= sv.push(canonical@));
        match text {
            None => self.advance(),
            Some(t) => {
                let stripped = strip_comments(t);
                let pending = find_imports(stripped.as_str());
                let own = collect_binds(stripped.as_str());
                let ghost st = self.stack_view();
                let f = IncludeFrame { base, pending, next: 0, own };
                assert(views(f.pending@).skip(0) =~= views(f.pending@));
                self.stack.push(f);
                assert(self.stack_view() =~= st.push(frame_view(f)));
                self.advance()
            },
        }
    }

    /// The path being read does not exist: the walk moves on (see `settle`).
    /// Without a path being read, nothing changes and the walk is over.
    pub fn on_missing(&mut self) -> (step: WalkStep)
        ensures
            final(self).seen_view() == old(self).seen_view(),
            match old(self).reading_view() {
                None => final(self).stack_view() == old(self).stack_view()
                    && final(self).entries_view() == old(self).entries_view()
                    && final(self).reading_view() is None && step == WalkStep::Done,
                Some(r) => {
                    let s = settle(old(self).stack_view(), old(self).entries_view());
                    &&& final(self).stack_view() == s.0
                    &&& final(self).entries_view() == s.1
                    &&& final(self).reading_view() == s.2
                    &&& step_for(step, s.2)
                },
            },
    {
        if self.reading.is_none() {
            return WalkStep::Done;
        }
        self.advance()
    }

    /// The bindings collected, in order.
    pub fn into_entries(self) -> (r: Vec<ShortcutEntry>)
        ensures
            entry_views(r@) == self.entries_view(),
    {
        self.entries
    }
}

/// Moving on never loses or reorders what was collected: the entries only
/// grow at the end, by the bindings of the files that were finished.
pub proof fn law_entries_only_grow(stack: Seq<FrameView>, entries: Seq<EntryView>)
    ensures
        entries.is_prefix_of(settle(stack, entries).1),
    decreases stack.len(),
{
    if stack.len() > 0 && stack.last().1.len() == 0 {
        law_entries_only_grow(stack.drop_last(), entries + stack.last().2);
        assert(entries.is_prefix_of(entries + stack.last().2));
    }
}

} // verus!
