use keytip::store::{
    AppShortcuts, Favorites, ShortcutEntry, ShortcutStore, config_dir, favorite_key_of,
    favorites_path, toggle_favorite, user_config_path,
};

fn entry(keys: &str, context: &str, description: &str) -> ShortcutEntry {
    ShortcutEntry {
        context: context.to_string(),
        keys: keys.to_string(),
        action: "act".to_string(),
        description: description.to_string(),
    }
}

fn app(keys: &[&str]) -> AppShortcuts {
    AppShortcuts { entries: keys.iter().map(|k| entry(k, "c", "d")).collect() }
}

fn keys_of(store: &ShortcutStore, id: &str) -> Option<Vec<String>> {
    store.get(id).map(|a| a.entries.iter().map(|e| e.keys.clone()).collect())
}

#[test]
fn user_config_overrides_defaults_per_app() {
    let mut defaults = ShortcutStore::new();
    defaults.insert("firefox".to_string(), app(&["Ctrl+T"]));
    defaults.insert("kitty".to_string(), app(&["Ctrl+Shift+T"]));
    let mut user = ShortcutStore::new();
    user.insert("kitty".to_string(), app(&["Alt+1"]));
    user.insert("kitty:nvim".to_string(), app(&["Space+w"]));
    let all = ShortcutStore::load_all(defaults, Some(user));
    assert_eq!(keys_of(&all, "firefox"), Some(vec!["Ctrl+T".to_string()]));
    assert_eq!(keys_of(&all, "kitty"), Some(vec!["Alt+1".to_string()]));
    assert_eq!(keys_of(&all, "kitty:nvim"), Some(vec!["Space+w".to_string()]));
    assert_eq!(all.pairs().len(), 3);
    assert!(all.get("zen").is_none());
}

#[test]
fn load_all_without_user_config_keeps_defaults() {
    let mut defaults = ShortcutStore::new();
    defaults.insert("firefox".to_string(), app(&["Ctrl+T"]));
    let all = ShortcutStore::load_all(defaults, None);
    assert_eq!(keys_of(&all, "firefox"), Some(vec!["Ctrl+T".to_string()]));
}

#[test]
fn added_shortcuts_are_read_back() {
    let mut store = ShortcutStore::default();
    store.add_app_shortcuts("zen", vec![entry("Ctrl+L", "导航", "地址栏")]);
    assert_eq!(keys_of(&store, "zen"), Some(vec!["Ctrl+L".to_string()]));
    store.add_app_shortcuts("zen", vec![entry("Ctrl+K", "导航", "搜索")]);
    assert_eq!(keys_of(&store, "zen"), Some(vec!["Ctrl+K".to_string()]));
    assert_eq!(store.pairs().len(), 1);
}

#[test]
fn favorite_key_joins_fields() {
    assert_eq!(favorite_key_of(&entry("Ctrl+P", "全局", "打开")), "Ctrl+P|全局|打开");
}

#[test]
fn toggling_twice_restores_favorites() {
    let mut favs = Favorites::new();
    let e = entry("Ctrl+P", "全局", "打开");
    let f = entry("Ctrl+Q", "全局", "退出");
    assert!(toggle_favorite(&mut favs, "zen", &e));
    assert!(toggle_favorite(&mut favs, "zen", &f));
    assert_eq!(favs.get("zen").unwrap(), &vec!["Ctrl+P|全局|打开".to_string(), "Ctrl+Q|全局|退出".to_string()]);
    assert!(!toggle_favorite(&mut favs, "zen", &e));
    assert_eq!(favs.get("zen").unwrap(), &vec!["Ctrl+Q|全局|退出".to_string()]);
    assert!(!toggle_favorite(&mut favs, "zen", &f));
    assert!(favs.get("zen").unwrap().is_empty());
    assert!(favs.get("kitty").is_none());
}

#[test]
fn favorites_insert_replaces() {
    let mut favs = Favorites::new();
    favs.insert("a".to_string(), vec!["x".to_string()]);
    favs.insert("a".to_string(), vec!["y".to_string()]);
    assert_eq!(favs.get("a").unwrap(), &vec!["y".to_string()]);
    assert_eq!(favs.pairs().len(), 1);
}

#[test]
fn config_paths() {
    assert_eq!(config_dir(Some("/home/u")), "/home/u/.config/keytip");
    assert_eq!(config_dir(Some("/")), "/.config/keytip");
    assert_eq!(config_dir(None), ".config/keytip");
    assert_eq!(user_config_path("/home/u/.config/keytip"), "/home/u/.config/keytip/shortcuts.json");
    assert_eq!(favorites_path("d/"), "d/favorites.json");
    assert_eq!(favorites_path(""), "favorites.json");
}
