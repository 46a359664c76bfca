use keytip::overlay::regroup;
use keytip::store::ShortcutEntry;

fn grouped_entry(keys: &str, context: &str) -> ShortcutEntry {
    ShortcutEntry {
        context: context.to_string(),
        keys: keys.to_string(),
        action: "a".to_string(),
        description: "d".to_string(),
    }
}

fn shape(groups: &[(String, Vec<ShortcutEntry>)]) -> Vec<(String, Vec<String>)> {
    groups
        .iter()
        .map(|(c, es)| (c.clone(), es.iter().map(|e| e.keys.clone()).collect()))
        .collect()
}

#[test]
fn groups_follow_first_appearance() {
    let es = vec![grouped_entry("1", "编辑"), grouped_entry("2", "导航"), grouped_entry("3", "编辑"), grouped_entry("4", "")];
    let g = shape(&regroup(&es));
    assert_eq!(
        g,
        vec![
            ("编辑".to_string(), vec!["1".to_string(), "3".to_string()]),
            ("导航".to_string(), vec!["2".to_string()]),
            ("其他".to_string(), vec!["4".to_string()]),
        ]
    );
}

#[test]
fn no_entry_is_lost_in_grouping() {
    let es = vec![grouped_entry("1", ""), grouped_entry("2", "编辑"), grouped_entry("3", ""), grouped_entry("4", "编辑")];
    let g = shape(&regroup(&es));
    assert_eq!(
        g,
        vec![
            ("其他".to_string(), vec!["1".to_string(), "3".to_string()]),
            ("编辑".to_string(), vec!["2".to_string(), "4".to_string()]),
        ]
    );
    assert_eq!(g.iter().map(|(_, v)| v.len()).sum::<usize>(), es.len());
}

#[test]
fn contextless_entries_join_other_group() {
    let es = vec![grouped_entry("1", ""), grouped_entry("2", "其他"), grouped_entry("3", "")];
    let g = shape(&regroup(&es));
    assert_eq!(g, vec![("其他".to_string(), vec!["1".to_string(), "2".to_string(), "3".to_string()])]);
    assert!(regroup(&vec![]).is_empty());
}

use keytip::overlay::{empty_message, entry_visible, group_visible, is_favorite};

fn full(keys: &str, action: &str, description: &str, context: &str) -> ShortcutEntry {
    ShortcutEntry {
        context: context.to_string(),
        keys: keys.to_string(),
        action: action.to_string(),
        description: description.to_string(),
    }
}

#[test]
fn favourites_are_found_by_key() {
    let e = full("Ctrl+T", "new_tab", "新标签", "标签");
    let favs = vec!["Ctrl+T|标签|新标签".to_string()];
    assert!(is_favorite(&favs, &e));
    assert!(!is_favorite(&favs, &full("Ctrl+T", "new_tab", "新标签", "其他")));
    assert!(!is_favorite(&vec![], &e));
}

#[test]
fn search_matches_any_text_field_ignoring_case() {
    let e = full("Ctrl+T", "New_Tab", "新标签", "标签");
    assert!(entry_visible(&e, "", false, true));
    assert!(entry_visible(&e, "ctrl", false, true));
    assert!(entry_visible(&e, "new_t", false, true));
    assert!(entry_visible(&e, "标签", false, true));
    assert!(!entry_visible(&e, "zzz", false, true));
    assert!(!entry_visible(&e, "", false, false));
    assert!(entry_visible(&e, "ctrl", true, false));
}

#[test]
fn groups_on_favourites_page_need_a_favourite() {
    let es = vec![full("a", "x", "d1", "c"), full("b", "y", "d2", "c")];
    let favs = vec!["b|c|d2".to_string()];
    assert!(group_visible(&es, &favs, false));
    assert!(!group_visible(&es, &vec![], false));
    assert!(group_visible(&es, &vec![], true));
}

#[test]
fn empty_page_messages() {
    assert_eq!(empty_message(true, true, true), "（暂无收藏 · 在「全集」页点 ☆ 添加）");
    assert_eq!(empty_message(true, false, true), "（无匹配结果）");
    assert_eq!(empty_message(false, false, true), "（该程序暂无内置快捷键，可通过手动补充通道添加）");
    assert_eq!(empty_message(false, false, false), "（无匹配结果）");
}

use keytip::overlay::{frame_step, FrameInput, FrameState, Tab};

fn quiet() -> FrameInput {
    FrameInput {
        close_requested: false,
        focused: true,
        autoclose: true,
        past_grace: false,
        search_focused: false,
        escape: false,
        f: false,
        j: false,
        k: false,
        t: false,
        c: false,
    }
}

fn start() -> FrameState {
    FrameState { tab: Tab::Fav, ever_focused: false, focus_search_next: false, theme_idx: 0 }
}

#[test]
fn frame_closes_on_request_focus_loss_and_escape() {
    let (_, a) = frame_step(start(), FrameInput { close_requested: true, ..quiet() });
    assert!(a.close);
    let unfocused = FrameInput { focused: false, ..quiet() };
    let (s, a) = frame_step(start(), unfocused);
    assert!(!a.close);
    assert!(a.poll_focus);
    assert!(!s.ever_focused);
    let (s, a) = frame_step(start(), quiet());
    assert!(!a.close && !a.poll_focus && s.ever_focused);
    let (_, a) = frame_step(s, unfocused);
    assert!(a.close);
    let (_, a) = frame_step(start(), FrameInput { focused: false, past_grace: true, ..quiet() });
    assert!(a.close);
    let (_, a) = frame_step(start(), FrameInput { focused: false, autoclose: false, past_grace: true, ..quiet() });
    assert!(!a.close);
    let (_, a) = frame_step(start(), FrameInput { escape: true, ..quiet() });
    assert!(a.close);
}

#[test]
fn frame_escape_in_search_leaves_it() {
    let (s, a) = frame_step(start(), FrameInput { escape: true, search_focused: true, j: true, ..quiet() });
    assert!(!a.close);
    assert!(a.surrender_search);
    assert!(!a.find_mode);
    assert_eq!(a.scroll_steps, 0);
    assert!(!s.focus_search_next);
}

#[test]
fn frame_keys_scroll_switch_pages_and_themes() {
    let (_, a) = frame_step(start(), FrameInput { j: true, ..quiet() });
    assert_eq!(a.scroll_steps, 1);
    let (_, a) = frame_step(start(), FrameInput { j: true, k: true, ..quiet() });
    assert_eq!(a.scroll_steps, 0);
    let (s, a) = frame_step(start(), FrameInput { t: true, ..quiet() });
    assert_eq!(s.tab, Tab::All);
    assert!(a.reset_scroll);
    let (s, _) = frame_step(s, FrameInput { t: true, ..quiet() });
    assert_eq!(s.tab, Tab::Fav);
    let mut st = start();
    let mut seen = vec![];
    for _ in 0..6 {
        let (n, a) = frame_step(st, FrameInput { c: true, ..quiet() });
        assert!(a.theme_changed);
        seen.push(n.theme_idx);
        st = n;
    }
    assert_eq!(seen, vec![1, 2, 3, 4, 0, 1]);
    let (s, a) = frame_step(start(), FrameInput { f: true, ..quiet() });
    assert!(a.request_search_focus);
    assert!(!a.find_mode);
    assert!(!s.focus_search_next);
    let (_, a) = frame_step(start(), FrameInput { search_focused: true, t: true, c: true, f: true, ..quiet() });
    assert!(a.find_mode && !a.reset_scroll && !a.theme_changed && !a.request_search_focus);
}
