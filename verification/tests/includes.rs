use std::collections::HashMap;

use keytip::includes::{IncludeWalk, WalkStep};

fn walk(root: &str, files: &HashMap<&str, &str>) -> (Vec<String>, Vec<String>) {
    let (mut w, mut step) = IncludeWalk::new(root);
    let mut reads = Vec::new();
    while let WalkStep::Read(path) = step {
        reads.push(path.clone());
        step = match files.get(path.as_str()) {
            Some(text) => w.on_file(&path, Some(text)),
            None => w.on_missing(),
        };
    }
    let keys = w.into_entries().into_iter().map(|e| e.keys).collect();
    (reads, keys)
}

#[test]
fn imports_are_walked_depth_first_before_own_bindings() {
    let mut files = HashMap::new();
    files.insert(
        "/cfg/config.kdl",
        "import \"a.kdl\"; include \"/abs/c.kdl\";\nbinds { Mod+R { close-window; } }",
    );
    files.insert("/cfg/a.kdl", "include \"sub/b.kdl\";\nbinds { Mod+A { close-window; } }");
    files.insert("/cfg/sub/b.kdl", "import \"../a.kdl\";\nbinds { Mod+B { close-window; } }");
    files.insert("/abs/c.kdl", "binds { Mod+C { close-window; } }");
    let (reads, keys) = walk("/cfg/config.kdl", &files);
    assert_eq!(
        reads,
        vec!["/cfg/config.kdl", "/cfg/a.kdl", "/cfg/sub/b.kdl", "/cfg/sub/../a.kdl", "/abs/c.kdl"]
    );
    assert_eq!(keys, vec!["Mod+B", "Mod+A", "Mod+C", "Mod+R"]);
}

#[test]
fn files_are_read_once_by_canonical_path() {
    let (mut w, step) = IncludeWalk::new("/cfg/config.kdl");
    assert_eq!(step, WalkStep::Read("/cfg/config.kdl".to_string()));
    let step = w.on_file("/cfg/config.kdl", Some("import \"x.kdl\"; import \"y.kdl\"; binds { Mod+R { close-window; } }"));
    assert_eq!(step, WalkStep::Read("/cfg/x.kdl".to_string()));
    let step = w.on_file("/cfg/config.kdl", Some("binds { Mod+X { close-window; } }"));
    assert_eq!(step, WalkStep::Read("/cfg/y.kdl".to_string()));
    let step = w.on_file("/cfg/y.kdl", None);
    assert_eq!(step, WalkStep::Done);
    assert_eq!(w.on_missing(), WalkStep::Done);
    let keys: Vec<String> = w.into_entries().into_iter().map(|e| e.keys).collect();
    assert_eq!(keys, vec!["Mod+R"]);
}

#[test]
fn a_missing_root_gives_nothing() {
    let (reads, keys) = walk("config.kdl", &HashMap::new());
    assert_eq!(reads, vec!["config.kdl"]);
    assert!(keys.is_empty());
}
