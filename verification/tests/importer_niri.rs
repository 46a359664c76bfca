use keytip::importer_niri::{
    app_alias, categorize, collect_binds, combo_of, describe_bind, describe_node, dms_action,
    dms_module, extract_binds, find_imports, first_action_name, friendly_action,
    load_niri_shortcuts, match_brace, overlay_title_of, parse_action_node, spawn_description,
    split_child_nodes, strip_comments, tokenize,
};
use keytip::store::ShortcutEntry;

/// The core parsing chain of one configuration file, without files or imports.
fn parse_sample(cfg: &str) -> Vec<ShortcutEntry> {
    let cfg = strip_comments(cfg);
    let mut entries = Vec::new();
    let mut blocks = Vec::new();
    extract_binds(&mut blocks, &cfg);
    for block in &blocks {
        for node in split_child_nodes(block) {
            let node = node.trim();
            if node.is_empty() {
                continue;
            }
            let combo = combo_of(node);
            if combo.is_empty() {
                continue;
            }
            let desc = describe_bind(node);
            let first = first_action_name(node);
            entries.push(ShortcutEntry {
                context: categorize(&first).to_string(),
                keys: combo,
                action: if first.is_empty() { "action".to_string() } else { first },
                description: desc,
            });
        }
    }
    entries
}

#[test]
fn parses_basic_binds() {
    let cfg = r#"
        binds {
            Mod+Slash { spawn "keytip"; }
            Mod+Q { close; }
            Mod+Enter { spawn "kitty"; }
            Mod+Left { focus-window-left; }
            Mod+Shift+1 { move-to-workspace 1; }
            Mod+H { Mod+L { close; } }  // 和弦
        }
        "#;
    let entries = parse_sample(cfg);
    assert_eq!(entries.len(), 6, "entries={:?}", entries);

    let kt = entries.iter().find(|e| e.keys == "Mod+Slash").unwrap();
    assert_eq!(kt.description, "启动 KeyTip 快捷键提示");
    assert_eq!(kt.context, "启动程序");

    let q = entries.iter().find(|e| e.keys == "Mod+Q").unwrap();
    assert_eq!(q.description, "关闭窗口");

    let left = entries.iter().find(|e| e.keys == "Mod+Left").unwrap();
    assert_eq!(left.description, "聚焦左侧窗口");

    let mw = entries.iter().find(|e| e.keys == "Mod+Shift+1").unwrap();
    assert_eq!(mw.description, "移动至工作区 1");

    let chord = entries.iter().find(|e| e.keys == "Mod+H").unwrap();
    assert!(chord.description.contains("→"), "chord desc={}", chord.description);
}

#[test]
fn strips_comments_and_keeps_urls_in_strings() {
    let cfg = r#"
        // 这是注释
        binds {
            Mod+/ { spawn "echo http://example.com"; }  // 字符串里含 //
            Mod+T { spawn "firefox"; }
        }
        "#;
    let entries = parse_sample(cfg);
    assert_eq!(entries.len(), 2, "entries={:?}", entries);

    let slash = entries.iter().find(|e| e.keys == "Mod+/").unwrap();
    assert!(slash.description.contains("example.com"), "desc={}", slash.description);
}

#[test]
fn follows_imports() {
    let cfg = r#"import "a.kdl"; include "dms/binds.kdl"; binds { Mod+Slash { spawn "keytip"; } }"#;
    let imports = find_imports(&strip_comments(cfg));
    assert_eq!(imports, vec!["a.kdl".to_string(), "dms/binds.kdl".to_string()]);
}

#[test]
fn prefers_hotkey_overlay_title_over_action() {
    let cfg = r#"
        binds {
            Mod+B hotkey-overlay-title="Open a Zen" { spawn "zen-browser"; }
            Mod+D hotkey-overlay-title="WeChat" { spawn "~/.config/niri/scripts/toggle-wechat.sh"; }
            Super+X hotkey-overlay-title="Power Menu: Toggle" { spawn "dms" "ipc" "call" "powermenu" "toggle"; }
        }
        "#;
    let entries = parse_sample(cfg);
    assert_eq!(entries.len(), 3, "entries={:?}", entries);
    let b = entries.iter().find(|e| e.keys == "Mod+B").unwrap();
    assert_eq!(b.description, "Open a Zen");
    assert_eq!(b.context, "启动程序");
    let d = entries.iter().find(|e| e.keys == "Mod+D").unwrap();
    assert_eq!(d.description, "WeChat");
    let x = entries.iter().find(|e| e.keys == "Super+X").unwrap();
    assert_eq!(x.description, "Power Menu: Toggle");
}

#[test]
fn spawn_without_overlay_title_is_meaningful() {
    let cfg = r#"
        binds {
            Mod+T { spawn "kitty"; }
            Mod+1 { spawn "dms" "ipc" "call" "audio" "increment" "3"; }
            Mod+2 { spawn "sh" "-c" "feishu"; }
            Mod+3 { spawn "~/.config/niri/scripts/toggle-siyuan.sh"; }
        }
        "#;
    let entries = parse_sample(cfg);
    let t = entries.iter().find(|e| e.keys == "Mod+T").unwrap();
    assert_eq!(t.description, "启动 终端");
    let a = entries.iter().find(|e| e.keys == "Mod+1").unwrap();
    assert_eq!(a.description, "音量；增加");
    let s = entries.iter().find(|e| e.keys == "Mod+2").unwrap();
    assert_eq!(s.description, "运行：飞书");
    let y = entries.iter().find(|e| e.keys == "Mod+3").unwrap();
    assert_eq!(y.description, "启动 toggle-siyuan");
}

#[test]
fn handles_block_and_line_comments_in_binds() {
    let cfg = r#"
        binds /* 块注释 */ {
            /* 内部块注释 */ Mod+A { focus-workspace 1; }
            Mod+B { move-window-right; } /* 尾随注释 */
        }
        "#;
    let entries = parse_sample(cfg);
    assert_eq!(entries.len(), 2, "entries={:?}", entries);
    let a = entries.iter().find(|e| e.keys == "Mod+A").unwrap();
    assert_eq!(a.description, "切换工作区 1");
    assert_eq!(a.context, "工作区");
    let b = entries.iter().find(|e| e.keys == "Mod+B").unwrap();
    assert_eq!(b.description, "窗口移向右侧");
}

// ---------------------------------------------------------------------------

#[test]
fn strip_comments_keeps_text_without_comments() {
    let s = "binds { Mod+Q { close; } }";
    assert_eq!(strip_comments(s), s);
}

#[test]
fn strip_comments_drops_line_and_block_comments() {
    assert_eq!(strip_comments("a // x\nb"), "a \nb");
    assert_eq!(strip_comments("a /* x */b"), "a b");
    assert_eq!(strip_comments("a /* never closed"), "a ");
    assert_eq!(strip_comments(r#""//not" x"#), r#""//not" x"#);
    assert_eq!(strip_comments(r#""a\"//b" c"#), r#""a\"//b" c"#);
}

#[test]
fn find_imports_requires_whole_word_and_quote() {
    assert!(find_imports("myimport \"x\"").is_empty());
    assert!(find_imports("import x").is_empty());
    assert_eq!(find_imports(r#"include "a\"b""#), vec![r#"a"b"#.to_string()]);
}

#[test]
fn match_brace_returns_group_and_end() {
    let chars: Vec<char> = "x{a{b}\"}\"c}d".chars().collect();
    let (block, end) = match_brace(&chars, 1);
    assert_eq!(block, "{a{b}\"}\"c}");
    assert_eq!(end, 11);
    let open: Vec<char> = "{ {".chars().collect();
    assert_eq!(match_brace(&open, 0), ("{ {".to_string(), 3));
}

#[test]
fn extract_binds_skips_other_identifiers() {
    let mut out = Vec::new();
    extract_binds(&mut out, "mybinds { a; } binds { b; }\nbinds{c;}");
    assert_eq!(out, vec!["b;".to_string(), "c;".to_string()]);
}

#[test]
fn split_child_nodes_cuts_at_semicolons_and_blocks() {
    let nodes = split_child_nodes("A { x; } B \"s;t\"; ; C { D { e; } }");
    assert_eq!(nodes, vec!["A { x; }", "B \"s;t\";", "C { D { e; } }"]);
}

#[test]
fn tokenize_keeps_quoted_strings() {
    assert_eq!(tokenize("spawn \"a b\" c"), vec!["spawn", "\"a b\"", "c"]);
    assert_eq!(tokenize("   "), Vec::<String>::new());
    assert_eq!(tokenize(r#"spawn "a\" b""#), vec!["spawn", r#""a\" b""#]);
    assert_eq!(tokenize(r#"x "a\\" b"#), vec!["x", r#""a\\""#, "b"]);
}

#[test]
fn parse_action_node_drops_properties() {
    let (name, args) = parse_action_node("spawn scope=\"output\" \"keytip\";");
    assert_eq!(name, "spawn");
    assert_eq!(args, vec!["keytip".to_string()]);
    assert_eq!(parse_action_node(""), (String::new(), Vec::new()));
}

#[test]
fn combo_and_first_action() {
    assert_eq!(combo_of("  Mod+B hotkey-overlay-title=\"x\" { spawn \"a\"; }"), "Mod+B");
    assert_eq!(combo_of("{ close; }"), "");
    assert_eq!(first_action_name("Mod+B { ; spawn \"a\"; close; }"), "spawn");
    assert_eq!(first_action_name("close;"), "close");
}

#[test]
fn overlay_title_needs_a_non_blank_value() {
    assert_eq!(overlay_title_of("A hotkey-overlay-title=\"  \" { x; }"), None);
    assert_eq!(
        overlay_title_of("A hotkey-overlay-title = \" Lock \" { x; }"),
        Some("Lock".to_string())
    );
}

#[test]
fn describe_node_reads_chords() {
    assert_eq!(describe_node("Mod+H { Mod+L { close; } }"), "Mod+H → Mod+L → 关闭窗口");
    assert_eq!(describe_node("focus-workspace 3"), "切换工作区 3");
    assert_eq!(describe_node("custom-action a b"), "custom-action a b");
    assert_eq!(describe_node("custom-action"), "custom-action");
}

#[test]
fn describe_bind_joins_actions() {
    assert_eq!(describe_bind("Mod+Q { close; quit; }"), "关闭窗口；退出 niri");
}

#[test]
fn friendly_action_translates() {
    assert_eq!(friendly_action("toggle-overview", &[]), "切换总览");
    assert_eq!(friendly_action("set-window-height", &["50%".to_string()]), "设置窗口高度 50%");
    assert_eq!(friendly_action("switch-layout", &[]), "切换布局");
}

#[test]
fn spawn_description_cases() {
    assert_eq!(spawn_description(&[]), "启动程序");
    let dms = |v: &[&str]| spawn_description(&v.iter().map(|s| s.to_string()).collect::<Vec<_>>());
    assert_eq!(dms(&["dms", "ipc", "call", "powermenu", "toggle"]), "电源菜单；切换");
    assert_eq!(dms(&["dms", "ipc", "call", "unknown"]), "DMS 控制");
    assert_eq!(dms(&["dms", "ipc", "call", "lock"]), "锁屏");
    assert_eq!(dms(&["sh", "-c"]), "运行脚本");
    assert_eq!(dms(&["sh", "-c", "notify-send hi"]), "运行：notify-send");
    assert_eq!(dms(&["/usr/bin/firefox"]), "启动 浏览器");
    assert_eq!(dms(&["~/bin/run.sh"]), "启动 run");
    assert_eq!(dms(&["dir/"]), "启动程序");
}

#[test]
fn tables_translate() {
    assert_eq!(dms_module("notepad"), "便签");
    assert_eq!(dms_module("nothing"), "");
    assert_eq!(dms_action("playPause"), "播放/暂停");
    assert_eq!(app_alias("\"wezterm\""), Some("终端"));
    assert_eq!(app_alias("/opt/code.bin"), Some("VS Code"));
    assert_eq!(app_alias("unknown-app"), None);
}

#[test]
fn categorize_groups() {
    assert_eq!(categorize("spawn"), "启动程序");
    assert_eq!(categorize("quit"), "窗口");
    assert_eq!(categorize("move-window-to-monitor-left"), "窗口与显示器");
    assert_eq!(categorize("focus-column-left"), "列与布局");
    assert_eq!(categorize("show-hotkey-overlay"), "总览");
    assert_eq!(categorize("move-to-workspace"), "工作区");
    assert_eq!(categorize("screenshot-window"), "截图");
    assert_eq!(categorize("switch-preset-column-width"), "列与布局");
    assert_eq!(categorize("switch-focus"), "切换");
    assert_eq!(categorize("toggle-window-floating"), "窗口状态");
    assert_eq!(categorize("power-off-monitors"), "其它");
}

#[test]
fn collect_binds_skips_disabled_and_empty_nodes() {
    let entries = collect_binds("binds { Mod+Q { close; } /- { quit; } { close; } Mod+X { } }");
    assert_eq!(entries.len(), 1);
    assert_eq!(entries[0].keys, "Mod+Q");
    assert_eq!(entries[0].action, "close");
    assert_eq!(entries[0].context, "窗口");
    assert_eq!(entries[0].description, "关闭窗口");
}

#[test]
fn load_niri_shortcuts_adds_a_notice() {
    let none = load_niri_shortcuts(Vec::new());
    assert_eq!(none.len(), 1);
    assert_eq!(none[0].action, "notice");
    assert_eq!(none[0].context, "提示");
    assert!(none[0].description.starts_with("未找到 niri 配置文件"));
    let some = load_niri_shortcuts(collect_binds("binds { Mod+Q { close; } }"));
    assert_eq!(some.len(), 2);
    assert_eq!(some[0].description, "以下为实时解析 niri 配置（binds）得到的快捷键");
    assert_eq!(some[1].keys, "Mod+Q");
}
