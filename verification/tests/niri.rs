use keytip::niri::{
    WindowInfo, WorkspaceFacts, focused_output, focused_workspace_id, pick_output, pick_target,
    target_window, window_id_of,
};

fn win(id: u64, app_id: &str, ws: u32, focused: bool) -> WindowInfo {
    WindowInfo {
        id,
        title: app_id.to_string(),
        app_id: app_id.to_string(),
        pid: id as u32,
        workspace_id: Some(ws),
        is_focused: focused,
    }
}

#[test]
fn empty_workspace_does_not_pick_other_ws_window() {
    let windows = vec![win(1, "kitty", 1, false), win(2, "keytip", 2, true)];
    let r = pick_target(Some(&windows[1]), &windows, Some(2));
    assert!(r.is_none(), "空 workspace 应回退 niri，而非误命中 kitty：{:?}", r);
    let r = pick_target(None, &windows, Some(2));
    assert!(r.is_none(), "空 workspace 应回退 niri，而非误命中 kitty：{:?}", r);
}

#[test]
fn same_workspace_window_is_used() {
    let windows = vec![win(1, "kitty", 1, true), win(2, "keytip", 1, false)];
    let r = pick_target(Some(&windows[0]), &windows, Some(1));
    assert_eq!(r.unwrap().app_id, "kitty");
}

#[test]
fn focused_non_keytip_window_used_directly() {
    let windows = vec![win(1, "firefox", 3, true)];
    let r = pick_target(Some(&windows[0]), &windows, Some(3));
    assert_eq!(r.unwrap().app_id, "firefox");
}

// ---------------------------------------------------------------------------

#[test]
fn keytip_focus_falls_back_to_first_window_on_workspace() {
    let windows = vec![win(1, "kitty", 2, false), win(2, "keytip", 2, true), win(3, "zen", 2, false)];
    let r = pick_target(Some(&windows[1]), &windows, Some(2)).unwrap();
    assert_eq!(r.id, 1);
    let unknown = vec![WindowInfo { workspace_id: None, ..win(4, "foot", 0, false) }];
    assert!(pick_target(None, &unknown, None).is_none());
}

#[test]
fn target_window_needs_the_window_list() {
    assert!(target_window(None, Some(win(1, "firefox", 1, true)), Some(1)).is_none());
    let r = target_window(Some(vec![]), Some(win(1, "firefox", 1, true)), Some(1));
    assert_eq!(r.unwrap().app_id, "firefox");
}

#[test]
fn focused_workspace_scan() {
    let f = |is_focused, id| WorkspaceFacts { is_focused, id };
    assert_eq!(focused_workspace_id(&[f(Some(false), Some(1)), f(Some(true), Some(2))]), Some(2));
    assert_eq!(focused_workspace_id(&[f(None, Some(1)), f(Some(true), Some(2))]), None);
    assert_eq!(focused_workspace_id(&[f(Some(true), None)]), None);
    assert_eq!(focused_workspace_id(&[f(Some(true), Some(0x1_0000_0005))]), Some(5));
    assert_eq!(focused_workspace_id(&[]), None);
}

#[test]
fn window_id_lookup() {
    let windows = vec![win(7, "kitty", 1, false), win(9, "keytip", 1, false)];
    assert_eq!(window_id_of(&windows, "keytip"), Some(9));
    assert_eq!(window_id_of(&windows, "zen"), None);
}

#[test]
fn unknown_focused_workspace_means_empty_desktop() {
    let w = WindowInfo {
        id: 1,
        title: "kitty".to_string(),
        app_id: "kitty".to_string(),
        pid: 1,
        workspace_id: None,
        is_focused: false,
    };
    let windows = vec![w];
    assert!(pick_target(None, &windows, None).is_none());
    assert!(target_window(Some(windows), None, None).is_none());
}

#[test]
fn focused_output_scan() {
    let o = |s: &str| Some(s.to_string());
    assert_eq!(focused_output(&[(Some(false), o("DP-1")), (Some(true), o("HDMI-A-2"))]), o("HDMI-A-2"));
    assert_eq!(focused_output(&[(None, o("DP-1")), (Some(true), o("HDMI-A-2"))]), None);
    assert_eq!(focused_output(&[(Some(true), None), (Some(true), o("DP-1"))]), None);
    assert_eq!(focused_output(&[(Some(false), o("DP-1"))]), None);
}

#[test]
fn output_choice_prefers_the_focused_monitor() {
    let names: Vec<String> = ["DP-1", "HDMI-A-2", "HDMI-A-2"].iter().map(|s| s.to_string()).collect();
    assert_eq!(pick_output(Some("HDMI-A-2"), &names), Some(1));
    assert_eq!(pick_output(Some("eDP-1"), &names), Some(0));
    assert_eq!(pick_output(None, &names), Some(0));
    assert_eq!(pick_output(Some("DP-1"), &[]), None);
}
