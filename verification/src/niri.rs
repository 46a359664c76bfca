//! Choosing the window whose shortcuts to show, from what niri reports.
//!
//! Asking niri (`niri msg -j ...`) and decoding its JSON is done by the
//! caller; the decisions on the decoded values live here.

use vstd::prelude::*;

use crate::text::{chars_of, eq_lit, string_of};

verus! {

/// A window as reported by `niri msg -j windows` / `focused-window`.
#[derive(Debug, Clone)]
pub struct WindowInfo {
    pub id: u64,
    pub title: String,
    /// The app-id (as matched by niri window rules); the key of a program's
    /// shortcut set.
    pub app_id: String,
    pub pid: u32,
    pub workspace_id: Option<u32>,
    pub is_focused: bool,
}

/// The model of a window: `(id, title, app_id, pid, workspace_id, is_focused)`.
pub type WindowView = (u64, Seq<char>, Seq<char>, u32, Option<u32>, bool);

impl View for WindowInfo {
    type V = WindowView;

    open spec fn view(&self) -> WindowView {
        (self.id, self.title@, self.app_id@, self.pid, self.workspace_id, self.is_focused)
    }
}

impl WindowInfo {
    /// A field-for-field copy.
    pub fn duplicate(&self) -> (out: WindowInfo)
        ensures
            out@ == self@,
    {
        WindowInfo {
            id: self.id,
            title: self.title.clone(),
            app_id: self.app_id.clone(),
            pid: self.pid,
            workspace_id: self.workspace_id,
            is_focused: self.is_focused,
        }
    }
}

/// The first window, not KeyTip's own, on the given workspace; none when
/// the workspace is unknown.
pub open spec fn first_on_workspace(ws: Seq<WindowView>, focused_ws: Option<u32>) -> Option<
    WindowView,
>
    decreases ws.len(),
{
    if ws.len() == 0 {
        None
    } else if focused_ws is Some && ws[0].2 != "keytip"@ && ws[0].4 == focused_ws {
        Some(ws[0])
    } else {
        first_on_workspace(ws.drop_first(), focused_ws)
    }
}

/// The window whose shortcuts to show: the focused window unless it is
/// KeyTip itself; otherwise the first other window on the focused workspace;
/// none on an empty workspace or when the focused workspace is unknown (the
/// caller then shows niri's own bindings).
pub open spec fn pick_target_spec(
    focused: Option<WindowView>,
    windows: Seq<WindowView>,
    focused_ws: Option<u32>,
) -> Option<WindowView> {
    match focused {
        Some(f) if f.2 != "keytip"@ => Some(f),
        _ => first_on_workspace(windows, focused_ws),
    }
}

/// The views of a list of windows.
pub open spec fn window_views(v: Seq<WindowInfo>) -> Seq<WindowView> {
    v.map_values(|w: WindowInfo| w@)
}

/// Picks the window whose shortcuts to show (see `pick_target_spec`).
pub fn pick_target(
    focused: Option<&WindowInfo>,
    windows: &[WindowInfo],
    focused_ws: Option<u32>,
) -> (r: Option<WindowInfo>)
    ensures
        match r {
            Some(w) => pick_target_spec(
                match focused {
                    Some(f) => Some(f@),
                    None => None,
                },
                window_views(windows@),
                focused_ws,
            ) == Some(w@),
            None => pick_target_spec(
                match focused {
                    Some(f) => Some(f@),
                    None => None,
                },
                window_views(windows@),
                focused_ws,
            ) is None,
        },
{
    if let Some(f) = focused {
        let id = chars_of(f.app_id.as_str());
        if !eq_lit(&id, "keytip") {
            return Some(f.duplicate());
        }
    }
    let ghost wv = window_views(windows@);
    let ghost fv = match focused {
        Some(f) => Some(f@),
        None => None,
    };
    assert(pick_target_spec(fv, wv, focused_ws) == first_on_workspace(wv, focused_ws));
    let mut i: usize = 0;
    assert(wv.skip(0) =~= wv);
    while i < windows.len()
        invariant
            i <= windows@.len(),
            wv == window_views(windows@),
            pick_target_spec(fv, wv, focused_ws) == first_on_workspace(wv, focused_ws),
            fv == match focused {
                Some(f) => Some(f@),
                None => None,
            },
            first_on_workspace(wv.skip(i as int), focused_ws) == first_on_workspace(wv, focused_ws),
        decreases windows.len() - i,
    {
        let ghost rest = wv.skip(i as int);
        assert(rest.drop_first() =~= wv.skip(i + 1));
        assert(rest[0] == windows@[i as int]@);
        let w = &windows[i];
        let id = chars_of(w.app_id.as_str());
        if focused_ws.is_some() && !eq_lit(&id, "keytip") && same_ws(w.workspace_id, focused_ws) {
            assert(first_on_workspace(rest, focused_ws) == Some(rest[0]));
            return Some(w.duplicate());
        }
        i += 1;
    }
    assert(wv.skip(i as int) =~= Seq::<WindowView>::empty());
    None
}

/// The target window from niri's answers: none when the window list could
/// not be had, else the pick among the listed windows.
pub fn target_window(
    windows: Option<Vec<WindowInfo>>,
    focused: Option<WindowInfo>,
    focused_ws: Option<u32>,
) -> (r: Option<WindowInfo>)
    ensures
        match windows {
            None => r is None,
            Some(ws) => match r {
                Some(w) => pick_target_spec(
                    match focused {
                        Some(f) => Some(f@),
                        None => None,
                    },
                    window_views(ws@),
                    focused_ws,
                ) == Some(w@),
                None => pick_target_spec(
                    match focused {
                        Some(f) => Some(f@),
                        None => None,
                    },
                    window_views(ws@),
                    focused_ws,
                ) is None,
            },
        },
{
    match windows {
        None => None,
        Some(ws) => {
            let f = match &focused {
                Some(x) => Some(x),
                None => None,
            };
            pick_target(f, ws.as_slice(), focused_ws)
        },
    }
}

/// What one entry of `niri msg -j workspaces` says: its `is_focused` flag
/// (`None` when missing or not a boolean) and its `id` (`None` when missing
/// or not an unsigned integer).
#[derive(Debug, Clone, Copy)]
pub struct WorkspaceFacts {
    pub is_focused: Option<bool>,
    pub id: Option<u64>,
}

/// The focused workspace's id: scanning in order, an entry whose focus flag
/// cannot be read ends the scan with nothing; the first focused entry gives
/// its id (cut to 32 bits), or nothing when it has none.
pub open spec fn focused_ws_spec(ws: Seq<WorkspaceFacts>) -> Option<u32>
    decreases ws.len(),
{
    if ws.len() == 0 {
        None
    } else {
        match ws[0].is_focused {
            None => None,
            Some(true) => match ws[0].id {
                Some(x) => Some(x as u32),
                None => None,
            },
            Some(false) => focused_ws_spec(ws.drop_first()),
        }
    }
}

/// The id of the focused workspace among niri's workspace entries.
pub fn focused_workspace_id(workspaces: &[WorkspaceFacts]) -> (r: Option<u32>)
    ensures
        r == focused_ws_spec(workspaces@),
{
    let mut i: usize = 0;
    assert(workspaces@.skip(0) =~= workspaces@);
    while i < workspaces.len()
        invariant
            i <= workspaces@.len(),
            focused_ws_spec(workspaces@.skip(i as int)) == focused_ws_spec(workspaces@),
        decreases workspaces.len() - i,
    {
        assert(workspaces@.skip(i as int).drop_first() =~= workspaces@.skip(i + 1));
        let w = workspaces[i];
        match w.is_focused {
            None => return None,
            Some(true) => {
                return match w.id {
                    Some(x) => Some(x as u32),
                    None => None,
                };
            },
            Some(false) => {},
        }
        i += 1;
    }
    None
}

/// The id of the first window with the given app-id (to raise it).
pub open spec fn window_id_spec(ws: Seq<WindowView>, app_id: Seq<char>) -> Option<u64>
    decreases ws.len(),
{
    if ws.len() == 0 {
        None
    } else if ws[0].2 == app_id {
        Some(ws[0].0)
    } else {
        window_id_spec(ws.drop_first(), app_id)
    }
}

/// The id of the first listed window with the given app-id.
pub fn window_id_of(windows: &[WindowInfo], app_id: &str) -> (r: Option<u64>)
    ensures
        r == window_id_spec(window_views(windows@), app_id@),
{
    let ghost wv = window_views(windows@);
    let target = chars_of(app_id);
    let mut i: usize = 0;
    assert(wv.skip(0) =~= wv);
    while i < windows.len()
        invariant
            i <= windows@.len(),
            wv == window_views(windows@),
            target@ == app_id@,
            window_id_spec(wv.skip(i as int), app_id@) == window_id_spec(wv, app_id@),
        decreases windows.len() - i,
    {
        let ghost rest = wv.skip(i as int);
        assert(rest.drop_first() =~= wv.skip(i + 1));
        assert(rest[0] == windows@[i as int]@);
        let id = chars_of(windows[i].app_id.as_str());
        if id.len() == target.len() && same(&id, &target) {
            return Some(windows[i].id);
        }
        i += 1;
    }
    assert(wv.skip(i as int) =~= Seq::<WindowView>::empty());
    None
}

/// The monitor (output) of the focused workspace, from each workspace's
/// focus flag and output name in order: an entry whose focus flag cannot be
/// read ends the scan with nothing; the first focused entry gives its
/// output, or nothing when it names none.
pub open spec fn focused_output_spec(ws: Seq<(Option<bool>, Option<String>)>) -> Option<Seq<char>>
    decreases ws.len(),
{
    if ws.len() == 0 {
        None
    } else {
        match ws[0].0 {
            None => None,
            Some(true) => match ws[0].1 {
                Some(o) => Some(o@),
                None => None,
            },
            Some(false) => focused_output_spec(ws.drop_first()),
        }
    }
}

/// The output of the focused workspace.
pub fn focused_output(workspaces: &[(Option<bool>, Option<String>)]) -> (r: Option<String>)
    ensures
        match r {
            Some(o) => focused_output_spec(workspaces@) == Some(o@),
            None => focused_output_spec(workspaces@) is None,
        },
{
    let mut i: usize = 0;
    assert(workspaces@.skip(0) =~= workspaces@);
    while i < workspaces.len()
        invariant
            i <= workspaces@.len(),
            focused_output_spec(workspaces@.skip(i as int)) == focused_output_spec(workspaces@),
        decreases workspaces.len() - i,
    {
        assert(workspaces@.skip(i as int).drop_first() =~= workspaces@.skip(i + 1));
        assert(workspaces@.skip(i as int)[0] == workspaces@[i as int]);
        match workspaces[i].0 {
            None => return None,
            Some(true) => {
                return match &workspaces[i].1 {
                    Some(o) => Some(string_of(&chars_of(o.as_str()))),
                    None => None,
                };
            },
            Some(false) => {},
        }
        i += 1;
    }
    None
}

/// Which monitor sizes the overlay: the first output named like the
/// focused workspace's output, else the first output; none without outputs.
pub fn pick_output(focused: Option<&str>, names: &[String]) -> (r: Option<usize>)
    ensures
        names@.len() == 0 <==> r is None,
        r matches Some(k) ==> k < names@.len(),
        (focused matches Some(o) && exists|k: int| 0 <= k < names@.len() && #[trigger] names@[k]@ == o@)
            ==> (r matches Some(k) && names@[k as int]@ == focused->0@ && forall|j: int|
            0 <= j < k ==> #[trigger] names@[j]@ != focused->0@),
        !(focused matches Some(o) && exists|k: int|
            0 <= k < names@.len() && #[trigger] names@[k]@ == o@) && names@.len() > 0 ==> r
            == Some(0usize),
{
    if names.len() == 0 {
        return None;
    }
    if let Some(o) = focused {
        let target = chars_of(o);
        let mut i: usize = 0;
        while i < names.len()
            invariant
                i <= names@.len(),
                target@ == o@,
                focused == Some(o),
                forall|j: int| 0 <= j < i ==> #[trigger] names@[j]@ != o@,
            decreases names.len() - i,
        {
            if eq_lit(&target, names[i].as_str()) {
                assert(names@[i as int]@ == o@);
                return Some(i);
            }
            i += 1;
        }
    }
    Some(0)
}

fn same_ws(a: Option<u32>, b: Option<u32>) -> (r: bool)
    ensures
        r == (a == b),
{
    match (a, b) {
        (Some(x), Some(y)) => x == y,
        (None, None) => true,
        _ => false,
    }
}

fn same(a: &Vec<char>, b: &Vec<char>) -> (r: bool)
    requires
        a.len() == b.len(),
    ensures
        r == (a@ == b@),
{
    let mut k: usize = 0;
    while k < a.len()
        invariant
            a.len() == b.len(),
            k <= a.len(),
            forall|m: int| 0 <= m < k ==> a@[m] == b@[m],
        decreases a.len() - k,
    {
        if a[k] != b[k] {
            return false;
        }
        k += 1;
    }
    assert(a@ =~= b@);
    true
}

/// A window KeyTip may fall back to: not KeyTip itself, on the known focused workspace.
pub open spec fn fallback_ok(w: WindowView, focused_ws: Option<u32>) -> bool {
    focused_ws is Some && w.2 != "keytip"@ && w.4 == focused_ws
}

/// The fallback is the first listed window that may be used, and there is
/// none only when no listed window may be used.
pub proof fn law_fallback_is_first_usable(windows: Seq<WindowView>, focused_ws: Option<u32>, i: int)
    ensures
        0 <= i < windows.len() && fallback_ok(windows[i], focused_ws) && (forall|j: int|
            0 <= j < i ==> !fallback_ok(#[trigger] windows[j], focused_ws)) ==> first_on_workspace(
            windows,
            focused_ws,
        ) == Some(windows[i]),
        first_on_workspace(windows, focused_ws) is None <==> forall|j: int|
            0 <= j < windows.len() ==> !fallback_ok(#[trigger] windows[j], focused_ws),
    decreases windows.len(),
{
    if windows.len() > 0 {
        let rest = windows.drop_first();
        law_fallback_is_first_usable(rest, focused_ws, i - 1);
        if 0 < i < windows.len() && fallback_ok(windows[i], focused_ws) && (forall|j: int|
            0 <= j < i ==> !fallback_ok(#[trigger] windows[j], focused_ws)) {
            assert(!fallback_ok(windows[0], focused_ws));
            assert(rest[i - 1] == windows[i]);
            assert forall|j: int| 0 <= j < i - 1 implies !fallback_ok(#[trigger] rest[j], focused_ws) by {
                assert(rest[j] == windows[j + 1]);
            }
        }
        if first_on_workspace(windows, focused_ws) is None {
            assert forall|j: int| 0 <= j < windows.len() implies !fallback_ok(
                #[trigger] windows[j],
                focused_ws,
            ) by {
                if j > 0 {
                    assert(windows[j] == rest[j - 1]);
                }
            }
        } else if forall|j: int| 0 <= j < windows.len() ==> !fallback_ok(#[trigger] windows[j], focused_ws) {
            assert(!fallback_ok(windows[0], focused_ws));
            assert forall|j: int| 0 <= j < rest.len() implies !fallback_ok(#[trigger] rest[j], focused_ws) by {
                assert(rest[j] == windows[j + 1]);
            }
        }
    }
}

/// A focused window that is not KeyTip is always the target, whatever other
/// windows the workspace holds; the workspace is searched only when KeyTip
/// itself has the focus or nothing does.
pub proof fn law_focused_window_wins(
    focused: Option<WindowView>,
    windows: Seq<WindowView>,
    focused_ws: Option<u32>,
)
    ensures
        focused matches Some(f) && f.2 != "keytip"@ ==> pick_target_spec(focused, windows, focused_ws)
            == focused,
        !(focused matches Some(f) && f.2 != "keytip"@) ==> pick_target_spec(
            focused,
            windows,
            focused_ws,
        ) == first_on_workspace(windows, focused_ws),
{
}

/// Whatever the windows, the chosen target is never KeyTip's own window, and
/// a target other than the focused window is a listed window on the known
/// focused workspace.
pub proof fn law_target_is_never_keytip(
    focused: Option<WindowView>,
    windows: Seq<WindowView>,
    focused_ws: Option<u32>,
)
    ensures
        pick_target_spec(focused, windows, focused_ws) matches Some(w) ==> w.2 != "keytip"@,
        ({
            let r = pick_target_spec(focused, windows, focused_ws);
            (r is Some && !(focused matches Some(f) && f.2 != "keytip"@)) ==> ({
                let w = r->0;
                focused_ws is Some && w.4 == focused_ws && windows.contains(w)
            })
        }),
    decreases windows.len(),
{
    if windows.len() > 0 {
        law_target_is_never_keytip(None, windows.drop_first(), focused_ws);
        let r = first_on_workspace(windows.drop_first(), focused_ws);
        if r is Some && !(focused_ws is Some && windows[0].2 != "keytip"@ && windows[0].4
            == focused_ws) {
            let i = choose|i: int| 0 <= i < windows.drop_first().len() && windows.drop_first()[i]
                == r->0;
            assert(windows[i + 1] == r->0);
        }
        if focused_ws is Some && windows[0].2 != "keytip"@ && windows[0].4 == focused_ws {
            assert(windows[0] == windows[0]);
        }
    }
}

} // verus!
