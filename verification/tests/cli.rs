use keytip::cli::{
    IpcCommand, chrono_stamp, client_command, cmd_add, entries_for, ipc_command,
    resolve_app_id, resolve_candidates,
};
use keytip::niri::WindowInfo;
use keytip::store::{AppShortcuts, ShortcutStore};

fn window(app_id: &str) -> WindowInfo {
    WindowInfo {
        id: 1,
        title: "t".to_string(),
        app_id: app_id.to_string(),
        pid: 10,
        workspace_id: Some(1),
        is_focused: true,
    }
}

fn strings(v: &[&str]) -> Vec<String> {
    v.iter().map(|s| s.to_string()).collect()
}

#[test]
fn chrono_stamp_formats_rata_die_and_time() {
    assert_eq!(chrono_stamp(0), "RD719163 00:00:00");
    assert_eq!(chrono_stamp(86400 + 3600 * 13 + 60 * 5 + 9), "RD719164 13:05:09");
    assert_eq!(chrono_stamp(u64::MAX), "RD213503983053764 07:00:15");
}

#[test]
fn candidates_for_terminals_and_apps() {
    assert_eq!(resolve_candidates(&window("firefox"), &strings(&["nvim"])), vec!["firefox"]);
    assert_eq!(resolve_candidates(&window("kitty"), &[]), vec!["kitty"]);
    assert_eq!(
        resolve_candidates(&window("kitty"), &strings(&["nvim"])),
        vec!["kitty:nvim", "nvim", "kitty"]
    );
}

#[test]
fn first_known_candidate_wins() {
    let mut store = ShortcutStore::new();
    store.insert("kitty".to_string(), AppShortcuts { entries: vec![] });
    store.insert("nvim".to_string(), AppShortcuts { entries: vec![] });
    let c = strings(&["kitty:nvim", "nvim", "kitty"]);
    assert_eq!(resolve_app_id(&store, &c, "kitty"), "nvim");
    assert_eq!(resolve_app_id(&store, &strings(&["x"]), "fallback"), "fallback");
    assert!(entries_for(&store, "zen").is_empty());
}

#[test]
fn add_appends_with_defaults() {
    let mut store = ShortcutStore::new();
    assert!(!cmd_add(&mut store, &strings(&["firefox", "Ctrl+T"])));
    assert!(store.get("firefox").is_none());
    assert!(cmd_add(&mut store, &strings(&["firefox", "Ctrl+T", "new_tab"])));
    assert!(cmd_add(&mut store, &strings(&["firefox", "Ctrl+W", "close", "关闭", "标签"])));
    let e = entries_for(&store, "firefox");
    assert_eq!(e.len(), 2);
    assert_eq!(e[0].keys, "Ctrl+T");
    assert_eq!(e[0].description, "");
    assert_eq!(e[0].context, "手动补充");
    assert_eq!(e[1].action, "close");
    assert_eq!(e[1].description, "关闭");
    assert_eq!(e[1].context, "标签");
}

#[test]
fn single_instance_commands() {
    assert_eq!(client_command(Some("keytip")), "close");
    assert_eq!(client_command(Some("kitty")), "focus");
    assert_eq!(client_command(None), "close");
    assert_eq!(ipc_command("close"), IpcCommand::Close);
    assert_eq!(ipc_command("focus\0\0"), IpcCommand::Focus);
    assert_eq!(ipc_command("clo"), IpcCommand::Ignore);
}

use keytip::cli::socket_path;

#[test]
fn socket_lives_in_runtime_dir_or_tmp() {
    assert_eq!(socket_path(Some("/run/user/1000"), Some("me")), "/run/user/1000/keytip.sock");
    assert_eq!(socket_path(Some("/run/user/1000/"), None), "/run/user/1000/keytip.sock");
    assert_eq!(socket_path(None, Some("me")), "/tmp/keytip-me.sock");
    assert_eq!(socket_path(None, None), "/tmp/keytip-user.sock");
}
