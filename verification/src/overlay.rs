//! The grouping behind the overlay list.
//!
//! The overlay shows an application's shortcuts under one heading per
//! context (those without one under "其他"), headings in order of first
//! appearance; drawing them is the GUI layer's part.

use vstd::prelude::*;

use crate::store::{EntryView, ShortcutEntry, entry_views, fav_key, favorite_key_of};
use crate::theme::theme_count;
use crate::text::{chars_of, eq_lit, string_of, has_sub, has_sub_chars, lowercase_of, to_lowercase_chars, views};

verus! {

/// The heading an entry is shown under: its context, or the catch-all
/// "其他" when it has none.
pub open spec fn heading(e: EntryView) -> Seq<char> {
    if e.0.len() > 0 {
        e.0
    } else {
        "其他"@
    }
}

/// The distinct headings of the entries, in order of first appearance.
pub open spec fn contexts_of(es: Seq<EntryView>) -> Seq<Seq<char>>
    decreases es.len(),
{
    if es.len() == 0 {
        Seq::empty()
    } else {
        let prev = contexts_of(es.drop_last());
        let c = heading(es.last());
        if !prev.contains(c) {
            prev.push(c)
        } else {
            prev
        }
    }
}

/// Whether an entry is shown under heading `c`.
pub open spec fn in_group(e: EntryView, c: Seq<char>) -> bool {
    heading(e) == c
}

/// The entries shown under heading `c`, in their order.
pub open spec fn group_of(es: Seq<EntryView>, c: Seq<char>) -> Seq<EntryView>
    decreases es.len(),
{
    if es.len() == 0 {
        Seq::empty()
    } else {
        let g = group_of(es.drop_last(), c);
        if in_group(es.last(), c) {
            g.push(es.last())
        } else {
            g
        }
    }
}

fn contains_ctx(ctxs: &Vec<String>, c: &Vec<char>) -> (r: bool)
    ensures
        r == ctxs@.map_values(|x: String| x@).contains(c@),
{
    let ghost cv = ctxs@.map_values(|x: String| x@);
    let mut i: usize = 0;
    while i < ctxs.len()
        invariant
            i <= ctxs.len(),
            cv == ctxs@.map_values(|x: String| x@),
            forall|k: int| 0 <= k < i ==> cv[k] != c@,
        decreases ctxs.len() - i,
    {
        let x = chars_of(ctxs[i].as_str());
        if x.len() == c.len() && same(&x, c) {
            assert(cv[i as int] == c@);
            return true;
        }
        i += 1;
    }
    false
}

fn same(a: &Vec<char>, b: &Vec<char>) -> (r: bool)
    requires
        a.len() == b.len(),
    ensures
        r == (a@ == b@),
{
    let mut k: usize = 0;
    while k < a.len()
        invariant
            a.len() == b.len(),
            k <= a.len(),
            forall|m: int| 0 <= m < k ==> a@[m] == b@[m],
        decreases a.len() - k,
    {
        if a[k] != b[k] {
            return false;
        }
        k += 1;
    }
    assert(a@ =~= b@);
    true
}

/// Groups entries under their headings: one group per distinct heading in
/// order of first appearance, each holding its entries in order; entries
/// without a context are shown under "其他".
pub fn regroup(entries: &Vec<ShortcutEntry>) -> (out: Vec<(String, Vec<ShortcutEntry>)>)
    ensures
        out@.len() == contexts_of(entry_views(entries@)).len(),
        forall|i: int|
            0 <= i < out@.len() ==> (#[trigger] out@[i]).0@ == contexts_of(entry_views(entries@))[i]
                && entry_views(out@[i].1@) == group_of(
                entry_views(entries@),
                contexts_of(entry_views(entries@))[i],
            ),
{
    let ghost ev = entry_views(entries@);
    let mut ctxs: Vec<String> = Vec::new();
    let mut k: usize = 0;
    while k < entries.len()
        invariant
            k <= entries.len(),
            ev == entry_views(entries@),
            ctxs@.map_values(|x: String| x@) == contexts_of(ev.take(k as int)),
        decreases entries.len() - k,
    {
        let ec = chars_of(entries[k].context.as_str());
        let c = if ec.len() > 0 {
            ec
        } else {
            chars_of("其他")
        };
        let ghost before = ctxs@.map_values(|x: String| x@);
        assert(ev.take(k + 1).drop_last() =~= ev.take(k as int));
        assert(ev.take(k + 1).last() == entries@[k as int]@);
        assert(c@ == heading(entries@[k as int]@));
        if !contains_ctx(&ctxs, &c) {
            ctxs.push(string_of(&c));
            assert(ctxs@.map_values(|x: String| x@) =~= before.push(c@));
        }
        k += 1;
    }
    assert(ev.take(entries.len() as int) =~= ev);
    let ghost cs = ctxs@.map_values(|x: String| x@);
    let mut out: Vec<(String, Vec<ShortcutEntry>)> = Vec::new();
    let mut g: usize = 0;
    while g < ctxs.len()
        invariant
            g <= ctxs.len(),
            ev == entry_views(entries@),
            cs == ctxs@.map_values(|x: String| x@),
            cs == contexts_of(ev),
            out@.len() == g,
            forall|i: int|
                0 <= i < g ==> (#[trigger] out@[i]).0@ == cs[i] && entry_views(out@[i].1@)
                    == group_of(ev, cs[i]),
        decreases ctxs.len() - g,
    {
        let c = chars_of(ctxs[g].as_str());
        let is_other = eq_lit(&c, "其他");
        let mut members: Vec<ShortcutEntry> = Vec::new();
        let mut k: usize = 0;
        while k < entries.len()
            invariant
                k <= entries.len(),
                ev == entry_views(entries@),
                is_other == (c@ == "其他"@),
                entry_views(members@) == group_of(ev.take(k as int), c@),
            decreases entries.len() - k,
        {
            let e = &entries[k];
            let ec = chars_of(e.context.as_str());
            let ghost before = entry_views(members@);
            assert(ev.take(k + 1).drop_last() =~= ev.take(k as int));
            assert(ev.take(k + 1).last() == entries@[k as int]@);
            let member = if ec.len() > 0 {
                ec.len() == c.len() && same(&ec, &c)
            } else {
                is_other
            };
            if member {
                members.push(e.duplicate());
                assert(entry_views(members@) =~= before.push(e@));
            }
            k += 1;
        }
        assert(ev.take(entries.len() as int) =~= ev);
        assert(cs[g as int] == ctxs@[g as int]@);
        out.push((string_of(&c), members));
        g += 1;
    }
    out
}

/// Every entry's heading is listed, and no heading appears twice.
pub proof fn law_headings_cover_and_are_distinct(es: Seq<EntryView>)
    ensures
        forall|i: int| 0 <= i < es.len() ==> contexts_of(es).contains(heading(#[trigger] es[i])),
        forall|a: int, b: int|
            0 <= a < b < contexts_of(es).len() ==> contexts_of(es)[a] != contexts_of(es)[b],
    decreases es.len(),
{
    if es.len() > 0 {
        let init = es.drop_last();
        law_headings_cover_and_are_distinct(init);
        let prev = contexts_of(init);
        let c = heading(es.last());
        assert forall|i: int| 0 <= i < es.len() implies contexts_of(es).contains(
            heading(#[trigger] es[i]),
        ) by {
            if i < es.len() - 1 {
                assert(init[i] == es[i]);
                assert(prev.contains(heading(init[i])));
                let j = choose|j: int| 0 <= j < prev.len() && prev[j] == heading(init[i]);
                if !prev.contains(c) {
                    assert(prev.push(c)[j] == heading(es[i]));
                }
            } else {
                if !prev.contains(c) {
                    assert(prev.push(c)[prev.len() as int] == c);
                }
            }
        }
        if !prev.contains(c) {
            let p = prev.push(c);
            assert forall|a: int, b: int| 0 <= a < b < p.len() implies p[a] != p[b] by {
                if b == prev.len() {
                    assert(p[a] == prev[a]);
                } else {
                    assert(p[a] == prev[a] && p[b] == prev[b]);
                }
            }
        }
    }
}

/// The number of entries shown under the headings `hs`, all together.
pub open spec fn group_sizes(es: Seq<EntryView>, hs: Seq<Seq<char>>) -> int
    decreases hs.len(),
{
    if hs.len() == 0 {
        0
    } else {
        group_sizes(es, hs.drop_last()) + group_of(es, hs.last()).len()
    }
}

/// How many times `h` is listed in `hs`.
pub open spec fn occurrences(hs: Seq<Seq<char>>, h: Seq<char>) -> int
    decreases hs.len(),
{
    if hs.len() == 0 {
        0
    } else {
        occurrences(hs.drop_last(), h) + if hs.last() == h {
            1int
        } else {
            0
        }
    }
}

proof fn lemma_occurrences(hs: Seq<Seq<char>>, h: Seq<char>)
    requires
        forall|a: int, b: int| 0 <= a < b < hs.len() ==> hs[a] != hs[b],
    ensures
        occurrences(hs, h) == if hs.contains(h) {
            1int
        } else {
            0
        },
    decreases hs.len(),
{
    if hs.len() > 0 {
        let init = hs.drop_last();
        lemma_occurrences(init, h);
        if hs.last() == h {
            if init.contains(h) {
                let j = choose|j: int| 0 <= j < init.len() && init[j] == h;
                assert(hs[j] == hs[hs.len() - 1]);
            }
            assert(hs[hs.len() - 1] == h);
        } else {
            if hs.contains(h) {
                let j = choose|j: int| 0 <= j < hs.len() && hs[j] == h;
                assert(init[j] == h);
            }
            if init.contains(h) {
                let j = choose|j: int| 0 <= j < init.len() && init[j] == h;
                assert(hs[j] == h);
            }
        }
    }
}

proof fn lemma_sizes_step(es: Seq<EntryView>, hs: Seq<Seq<char>>)
    requires
        es.len() > 0,
    ensures
        group_sizes(es, hs) == group_sizes(es.drop_last(), hs) + occurrences(hs, heading(es.last())),
    decreases hs.len(),
{
    if hs.len() > 0 {
        lemma_sizes_step(es, hs.drop_last());
    }
}

proof fn lemma_unlisted_group_empty(es: Seq<EntryView>, h: Seq<char>)
    requires
        !contexts_of(es).contains(h),
    ensures
        group_of(es, h).len() == 0,
    decreases es.len(),
{
    if es.len() > 0 {
        let init = es.drop_last();
        let prev = contexts_of(init);
        let c = heading(es.last());
        if prev.contains(h) {
            let j = choose|j: int| 0 <= j < prev.len() && prev[j] == h;
            if !prev.contains(c) {
                assert(prev.push(c)[j] == h);
            }
        }
        lemma_unlisted_group_empty(init, h);
        if c == h {
            if !prev.contains(c) {
                assert(prev.push(c)[prev.len() as int] == h);
            }
        }
    }
}

/// No shortcut is lost: the groups together hold exactly as many entries as
/// were grouped (each entry sits in the one group of its heading).
pub proof fn law_groups_hold_every_entry(es: Seq<EntryView>)
    ensures
        group_sizes(es, contexts_of(es)) == es.len(),
    decreases es.len(),
{
    if es.len() > 0 {
        let init = es.drop_last();
        let prev = contexts_of(init);
        let h = heading(es.last());
        law_groups_hold_every_entry(init);
        law_headings_cover_and_are_distinct(init);
        lemma_occurrences(prev, h);
        lemma_sizes_step(es, prev);
        if !prev.contains(h) {
            lemma_unlisted_group_empty(init, h);
            assert(contexts_of(es) == prev.push(h));
            assert(prev.push(h).drop_last() =~= prev);
            assert(group_of(es, h).len() == group_of(init, h).len() + 1);
        }
    }
}

// ---------------------------------------------------------------------------
// Filtering
// ---------------------------------------------------------------------------

/// Whether an entry's favourite key is in the favourites list.
pub fn is_favorite(favorites: &Vec<String>, entry: &ShortcutEntry) -> (b: bool)
    ensures
        b == views(favorites@).contains(fav_key(entry@)),
{
    let key = chars_of(favorite_key_of(entry).as_str());
    let ghost fv = views(favorites@);
    let mut i: usize = 0;
    while i < favorites.len()
        invariant
            i <= favorites.len(),
            fv == views(favorites@),
            key@ == fav_key(entry@),
            forall|k: int| 0 <= k < i ==> fv[k] != key@,
        decreases favorites.len() - i,
    {
        let f = chars_of(favorites[i].as_str());
        if f.len() == key.len() && same(&f, &key) {
            assert(fv[i as int] == key@);
            return true;
        }
        i += 1;
    }
    false
}

/// An entry passes the search filter (already lowercased) when the filter is
/// empty or occurs in its lowercased keys, action or description; it is
/// shown when it passes and the page is the full list or it is a favourite.
pub open spec fn entry_visible_spec(e: EntryView, filter: Seq<char>, is_fav: bool, show_all: bool) -> bool {
    (show_all || is_fav) && (filter.len() == 0 || has_sub(lowercase_of(e.1), filter) || has_sub(
        lowercase_of(e.2),
        filter,
    ) || has_sub(lowercase_of(e.3), filter))
}

/// The favourites page lists favourites only, and with an empty search the
/// full list shows every entry.
pub proof fn law_pages_and_search(e: EntryView, filter: Seq<char>, is_fav: bool)
    ensures
        entry_visible_spec(e, filter, is_fav, false) ==> is_fav,
        entry_visible_spec(e, Seq::empty(), is_fav, true),
        entry_visible_spec(e, filter, is_fav, false) ==> entry_visible_spec(e, filter, is_fav, true),
{
}

/// The search looks at an entry's keys, action and description (each
/// lowercased) and nothing else: on a page that shows the entry, a search
/// text found in any of the three lists it, and a non-empty search text
/// found in none of them hides it, whatever its context says.
pub proof fn law_search_matches_keys_action_description(
    e: EntryView,
    filter: Seq<char>,
    is_fav: bool,
    show_all: bool,
)
    ensures
        (show_all || is_fav) && has_sub(lowercase_of(e.1), filter) ==> entry_visible_spec(
            e,
            filter,
            is_fav,
            show_all,
        ),
        (show_all || is_fav) && has_sub(lowercase_of(e.2), filter) ==> entry_visible_spec(
            e,
            filter,
            is_fav,
            show_all,
        ),
        (show_all || is_fav) && has_sub(lowercase_of(e.3), filter) ==> entry_visible_spec(
            e,
            filter,
            is_fav,
            show_all,
        ),
        filter.len() > 0 && entry_visible_spec(e, filter, is_fav, show_all) ==> has_sub(
            lowercase_of(e.1),
            filter,
        ) || has_sub(lowercase_of(e.2), filter) || has_sub(lowercase_of(e.3), filter),
        entry_visible_spec(e, filter, is_fav, show_all) ==> show_all || is_fav,
{
}

/// Whether an entry is listed, given the lowercased search text, whether it
/// is a favourite and whether the full list (not the favourites page) is shown.
pub fn entry_visible(entry: &ShortcutEntry, filter: &str, is_fav: bool, show_all: bool) -> (b: bool)
    ensures
        b == entry_visible_spec(entry@, filter@, is_fav, show_all),
{
    if !(show_all || is_fav) {
        return false;
    }
    let f = chars_of(filter);
    if f.len() == 0 {
        return true;
    }
    let k = to_lowercase_chars(&chars_of(entry.keys.as_str()));
    let a = to_lowercase_chars(&chars_of(entry.action.as_str()));
    let d = to_lowercase_chars(&chars_of(entry.description.as_str()));
    has_sub_chars(&k, &f) || has_sub_chars(&a, &f) || has_sub_chars(&d, &f)
}

/// A group is shown on the favourites page when it holds a favourite, and
/// always on the full list.
pub fn group_visible(entries: &Vec<ShortcutEntry>, favorites: &Vec<String>, show_all: bool) -> (b: bool)
    ensures
        b == (show_all || exists|i: int|
            0 <= i < entries@.len() && views(favorites@).contains(fav_key(#[trigger] entries@[i]@))),
{
    if show_all {
        return true;
    }
    let mut i: usize = 0;
    while i < entries.len()
        invariant
            i <= entries.len(),
            forall|k: int| 0 <= k < i ==> !views(favorites@).contains(fav_key(#[trigger] entries@[k]@)),
        decreases entries.len() - i,
    {
        if is_favorite(favorites, &entries[i]) {
            return true;
        }
        i += 1;
    }
    false
}

/// The placeholder shown when nothing is listed.
pub open spec fn empty_message_spec(fav_page: bool, no_favorites: bool, filter_empty: bool) -> Seq<char> {
    if fav_page {
        if no_favorites {
            "（暂无收藏 · 在「全集」页点 ☆ 添加）"@
        } else {
            "（无匹配结果）"@
        }
    } else if filter_empty {
        "（该程序暂无内置快捷键，可通过手动补充通道添加）"@
    } else {
        "（无匹配结果）"@
    }
}

/// The placeholder shown when nothing is listed on a page.
pub fn empty_message(fav_page: bool, no_favorites: bool, filter_empty: bool) -> (r: &'static str)
    ensures
        r@ == empty_message_spec(fav_page, no_favorites, filter_empty),
{
    if fav_page {
        if no_favorites {
            "（暂无收藏 · 在「全集」页点 ☆ 添加）"
        } else {
            "（无匹配结果）"
        }
    } else if filter_empty {
        "（该程序暂无内置快捷键，可通过手动补充通道添加）"
    } else {
        "（无匹配结果）"
    }
}

// ---------------------------------------------------------------------------
// Frame-by-frame decisions
// ---------------------------------------------------------------------------

/// The overlay's two pages.
#[derive(Clone, Copy, Debug, PartialEq, Eq, Structural)]
pub enum Tab {
    /// The favourites (shown first).
    Fav,
    /// Every shortcut.
    All,
}

/// The other page.
pub open spec fn other_tab(t: Tab) -> Tab {
    match t {
        Tab::Fav => Tab::All,
        Tab::All => Tab::Fav,
    }
}

/// What the overlay carries from one frame to the next (besides the text,
/// the scroll position and the window, which the GUI holds).
#[derive(Clone, Copy, Debug, PartialEq, Eq, Structural)]
pub struct FrameState {
    /// The page shown.
    pub tab: Tab,
    /// Whether the window has had the focus at least once.
    pub ever_focused: bool,
    /// The search box is to take the focus at the end of this frame.
    pub focus_search_next: bool,
    /// The colour theme.
    pub theme_idx: usize,
}

/// What one frame saw.
#[derive(Clone, Copy, Debug)]
pub struct FrameInput {
    /// A second launch asked the overlay to close.
    pub close_requested: bool,
    /// The window has the focus now.
    pub focused: bool,
    /// Closing on focus loss is enabled.
    pub autoclose: bool,
    /// The start-up grace period for getting the focus is over.
    pub past_grace: bool,
    /// The search box has the focus.
    pub search_focused: bool,
    /// Keys pressed this frame.
    pub escape: bool,
    pub f: bool,
    pub j: bool,
    pub k: bool,
    pub t: bool,
    pub c: bool,
}

/// What the GUI is to do in a frame.
#[derive(Clone, Copy, Debug, PartialEq, Eq, Structural)]
pub struct FrameActions {
    /// Close the window and draw nothing more.
    pub close: bool,
    /// Repaint again soon, to notice the focus arriving.
    pub poll_focus: bool,
    /// The search box is in find mode (its hint text).
    pub find_mode: bool,
    /// Take the focus away from the search box.
    pub surrender_search: bool,
    /// Give the focus to the search box after drawing.
    pub request_search_focus: bool,
    /// Scroll by this many steps (down positive).
    pub scroll_steps: i8,
    /// Scroll back to the top (after any steps).
    pub reset_scroll: bool,
    /// The theme changed: apply and save it.
    pub theme_changed: bool,
}

/// The actions of a frame that closes the window.
pub open spec fn closing() -> FrameActions {
    FrameActions {
        close: true,
        poll_focus: false,
        find_mode: false,
        surrender_search: false,
        request_search_focus: false,
        scroll_steps: 0,
        reset_scroll: false,
        theme_changed: false,
    }
}

/// The theme after `c`: the next one in the cycle.
pub open spec fn next_theme(idx: usize) -> int {
    ((idx as int) + 1) % theme_count()
}

/// One frame's decisions.  A close request closes at once.  Losing the
/// focus closes when auto-closing is on and the window had the focus before
/// or the grace period is over.  Escape leaves the search box when it has
/// the focus and closes the window otherwise.  `f` outside the search box
/// asks for its focus at the end of the frame; outside it `j`/`k` scroll one
/// step down/up, `t` switches pages and scrolls to the top, `c` moves to the
/// next theme.
pub open spec fn frame_spec(s: FrameState, i: FrameInput) -> (FrameState, FrameActions) {
    let ever = s.ever_focused || i.focused;
    if i.close_requested {
        (s, closing())
    } else if (i.autoclose && !i.focused && (ever || i.past_grace)) || (i.escape
        && !i.search_focused) {
        (FrameState { ever_focused: ever, ..s }, closing())
    } else {
        let leave_search = i.escape && i.search_focused;
        let keys = !i.search_focused;
        let focus_next = (s.focus_search_next && !leave_search) || (i.f && keys);
        let tab = if keys && i.t {
            other_tab(s.tab)
        } else {
            s.tab
        };
        let theme: int = if keys && i.c {
            next_theme(s.theme_idx)
        } else {
            s.theme_idx as int
        };
        let steps: int = if keys {
            (if i.j {
                1int
            } else {
                0
            }) - (if i.k {
                1int
            } else {
                0
            })
        } else {
            0
        };
        (
            FrameState { tab, ever_focused: ever, focus_search_next: false, theme_idx: theme as usize },
            FrameActions {
                close: false,
                poll_focus: !ever,
                find_mode: !leave_search && (i.search_focused || s.focus_search_next),
                surrender_search: leave_search,
                request_search_focus: focus_next,
                scroll_steps: steps as i8,
                reset_scroll: keys && i.t,
                theme_changed: keys && i.c,
            },
        )
    }
}

/// `t` switches between the two pages only, and `c` walks the themes in
/// order, wrapping from the last to the first.
pub proof fn law_pages_and_themes_cycle(t: Tab, idx: usize)
    ensures
        other_tab(t) != t,
        other_tab(other_tab(t)) == t,
        0 <= next_theme(idx) < theme_count(),
        idx < theme_count() ==> next_theme(idx) == if idx + 1 == theme_count() {
            0
        } else {
            idx + 1
        },
{
}

/// Decides one frame of the overlay from what it carried over and what it saw.
pub fn frame_step(s: FrameState, i: FrameInput) -> (r: (FrameState, FrameActions))
    ensures
        r == frame_spec(s, i),
{
    let ever = s.ever_focused || i.focused;
    if i.close_requested {
        return (s, FrameActions {
            close: true,
            poll_focus: false,
            find_mode: false,
            surrender_search: false,
            request_search_focus: false,
            scroll_steps: 0,
            reset_scroll: false,
            theme_changed: false,
        });
    }
    if (i.autoclose && !i.focused && (ever || i.past_grace)) || (i.escape && !i.search_focused) {
        return (FrameState { ever_focused: ever, ..s }, FrameActions {
            close: true,
            poll_focus: false,
            find_mode: false,
            surrender_search: false,
            request_search_focus: false,
            scroll_steps: 0,
            reset_scroll: false,
            theme_changed: false,
        });
    }
    let leave_search = i.escape && i.search_focused;
    let keys = !i.search_focused;
    let focus_next = (s.focus_search_next && !leave_search) || (i.f && keys);
    let tab = if keys && i.t {
        match s.tab {
            Tab::Fav => Tab::All,
            Tab::All => Tab::Fav,
        }
    } else {
        s.tab
    };
    let theme_idx = if keys && i.c {
        (s.theme_idx % 5 + 1) % 5
    } else {
        s.theme_idx
    };
    let mut steps: i8 = 0;
    if keys && i.j {
        steps = steps + 1;
    }
    if keys && i.k {
        steps = steps - 1;
    }
    (
        FrameState { tab, ever_focused: ever, focus_search_next: false, theme_idx },
        FrameActions {
            close: false,
            poll_focus: !ever,
            find_mode: !leave_search && (i.search_focused || s.focus_search_next),
            surrender_search: leave_search,
            request_search_focus: focus_next,
            scroll_steps: steps,
            reset_scroll: keys && i.t,
            theme_changed: keys && i.c,
        },
    )
}

} // verus!
