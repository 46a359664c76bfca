use keytip::term::{
    ChainProbe, ProbeStep, ProcNode, composite_id, deepest_foreground_app, is_multiplexer,
    is_shell, is_terminal, is_tty_path, parse_children, parse_i32, parse_stat_comm, parse_u32,
    resolve_lookup_keys, sanitize_comm, tmux_pane_pid,
};

#[test]
fn sanitize_strips_tmux_client_suffix() {
    assert_eq!(sanitize_comm("tmux: client"), "tmux");
    assert_eq!(sanitize_comm("tmux: server"), "tmux");
}

#[test]
fn sanitize_lowercases_and_trims() {
    assert_eq!(sanitize_comm("  Neovim  "), "neovim");
    assert_eq!(sanitize_comm("yazi"), "yazi");
    assert_eq!(sanitize_comm(""), "");
}

#[test]
fn composite_id_normalizes_inner() {
    assert_eq!(composite_id("kitty", "tmux: client"), "kitty:tmux");
    assert_eq!(composite_id("kitty", "nvim"), "kitty:nvim");
}

#[test]
fn multiplexers_are_not_shells() {
    assert!(!is_shell("tmux"));
    assert!(!is_shell("screen"));
    assert!(is_shell("zsh"));
    assert!(is_shell("bash"));
    assert!(is_multiplexer("tmux"));
    assert!(is_multiplexer("screen"));
    assert!(!is_multiplexer("nvim"));
}

#[test]
fn lookup_keys_prefer_leaf_then_container() {
    let keys = resolve_lookup_keys("kitty", &["tmux".into(), "yazi".into()]);
    assert_eq!(keys, vec!["kitty:tmux:yazi", "kitty:yazi", "yazi", "kitty:tmux", "kitty"]);
}

#[test]
fn lookup_keys_bare_terminal_app() {
    let keys = resolve_lookup_keys("kitty", &["nvim".into()]);
    assert_eq!(keys, vec!["kitty:nvim", "nvim", "kitty"]);
}

#[test]
fn lookup_keys_empty_chain_falls_back_to_terminal() {
    let keys = resolve_lookup_keys("kitty", &[]);
    assert_eq!(keys, vec!["kitty"]);
}

// ---------------------------------------------------------------------------

#[test]
fn lookup_keys_count_and_ends() {
    let chain: Vec<String> = vec!["tmux".into(), "screen".into(), "nvim".into()];
    let keys = resolve_lookup_keys("foot", &chain);
    assert_eq!(keys.len(), 2 * chain.len() + 1);
    assert_eq!(keys[0], "foot:tmux:screen:nvim");
    assert_eq!(keys[keys.len() - 1], "foot");
}

#[test]
fn terminals_are_recognized() {
    assert!(is_terminal("kitty"));
    assert!(is_terminal("org.wezterm.wezterm"));
    assert!(!is_terminal("firefox"));
}

fn node(pid: i32, comm: &str, depth: usize) -> ProcNode {
    ProcNode { pid, comm: comm.to_string(), depth }
}

#[test]
fn deepest_foreground_app_picks_deepest_non_shell() {
    let nodes = vec![node(10, "zsh", 1), node(11, "nvim", 2), node(12, "zsh", 3)];
    assert_eq!(deepest_foreground_app(&nodes), Some(("nvim".to_string(), 11)));
    let shells = vec![node(10, "zsh", 1), node(12, "bash", 2)];
    assert_eq!(deepest_foreground_app(&shells), None);
}

#[test]
fn deepest_foreground_app_breaks_ties_by_name_and_first_pid() {
    let nodes = vec![node(5, "yazi", 2), node(6, "btop", 2), node(7, "btop", 2), node(8, "Yazi", 1)];
    assert_eq!(deepest_foreground_app(&nodes), Some(("btop".to_string(), 6)));
    let client = vec![node(20, "tmux: client", 1)];
    assert_eq!(deepest_foreground_app(&client), Some(("tmux".to_string(), 20)));
}

#[test]
fn probe_bridges_tmux_then_finds_leaf() {
    let (mut probe, step) = ChainProbe::new(100);
    assert_eq!(step, ProbeStep::Foreground(100));
    let step = probe.on_foreground(Some(("tmux".to_string(), 200)));
    assert_eq!(step, ProbeStep::BridgeTmux(200));
    let step = probe.on_bridge(Some(300));
    assert_eq!(step, ProbeStep::Foreground(300));
    let step = probe.on_foreground(Some(("yazi".to_string(), 301)));
    assert_eq!(step, ProbeStep::Done);
    assert_eq!(probe.on_foreground(Some(("more".to_string(), 1))), ProbeStep::Done);
    assert_eq!(probe.into_chain(), vec!["tmux".to_string(), "yazi".to_string()]);
}

#[test]
fn probe_screen_and_failed_bridge_are_leaves() {
    let (mut probe, _) = ChainProbe::new(1);
    assert_eq!(probe.on_foreground(Some(("screen".to_string(), 2))), ProbeStep::Done);
    assert_eq!(probe.into_chain(), vec!["screen".to_string()]);
    let (mut probe, _) = ChainProbe::new(1);
    assert_eq!(probe.on_foreground(Some(("tmux".to_string(), 2))), ProbeStep::BridgeTmux(2));
    assert_eq!(probe.on_bridge(None), ProbeStep::Done);
    assert_eq!(probe.into_chain(), vec!["tmux".to_string()]);
    let (mut probe, _) = ChainProbe::new(1);
    assert_eq!(probe.on_foreground(None), ProbeStep::Done);
    assert!(probe.into_chain().is_empty());
}

#[test]
fn probe_stops_after_eight_lookups() {
    let (mut probe, mut step) = ChainProbe::new(1);
    let mut lookups = 0;
    loop {
        match step {
            ProbeStep::Foreground(p) => {
                lookups += 1;
                step = probe.on_foreground(Some(("tmux".to_string(), p + 1)));
            }
            ProbeStep::BridgeTmux(p) => step = probe.on_bridge(Some(p + 1)),
            ProbeStep::Done => break,
        }
    }
    assert_eq!(lookups, 8);
    assert_eq!(probe.into_chain().len(), 8);
}

#[test]
fn stat_comm_between_first_and_last_paren() {
    assert_eq!(parse_stat_comm("42 (tmux: client) S 1"), Some("tmux: client".to_string()));
    assert_eq!(parse_stat_comm("42 (a) b) S"), Some("a) b".to_string()));
    assert_eq!(parse_stat_comm("42 )x( S"), None);
    assert_eq!(parse_stat_comm("no parens"), None);
}

#[test]
fn integer_parsing_follows_std() {
    assert_eq!(parse_i32("-12"), Some(-12));
    assert_eq!(parse_i32("+7"), Some(7));
    assert_eq!(parse_i32("2147483648"), None);
    assert_eq!(parse_i32("-2147483648"), Some(i32::MIN));
    assert_eq!(parse_i32("1_0"), None);
    assert_eq!(parse_i32("-"), None);
    assert_eq!(parse_u32("-1"), None);
    assert_eq!(parse_u32("4294967295"), Some(u32::MAX));
    assert_eq!(parse_u32("99999999999999999999"), None);
    for s in ["0", "-0", "+", "", "12a", "007", "-2147483649"] {
        assert_eq!(parse_i32(s), s.parse::<i32>().ok(), "{s}");
    }
}

#[test]
fn children_and_tmux_answers() {
    assert_eq!(parse_children("12 34 x 56\n"), vec![12, 34, 56]);
    assert_eq!(parse_children(""), Vec::<i32>::new());
    assert_eq!(tmux_pane_pid("  4242 \n"), Some(4242));
    assert_eq!(tmux_pane_pid("\n"), None);
    assert!(is_tty_path("/dev/pts/5"));
    assert!(is_tty_path("/dev/tty1"));
    assert!(!is_tty_path("/dev/null"));
}
