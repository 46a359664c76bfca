use keytip::theme::{count, get, normalize};

#[test]
fn normalize_wraps_around() {
    assert_eq!(normalize(0), 0);
    assert_eq!(normalize(4), 4);
    assert_eq!(normalize(5), 0);
    assert_eq!(normalize(6), 1);
    assert_eq!(normalize(-1), 4);
    assert_eq!(normalize(-5), 0);
}

#[test]
fn themes_have_distinct_names() {
    let mut seen = std::collections::HashSet::new();
    for i in 0..count() {
        let t = get(i);
        assert!(seen.insert(t.name), "重复主题名：{}", t.name);
    }
    assert!(count() >= 2);
}

// ---------------------------------------------------------------------------

#[test]
fn get_wraps_and_keeps_defaults() {
    assert_eq!(count(), 5);
    assert_eq!(get(0).name, "科技深蓝");
    assert_eq!(get(5).name, "科技深蓝");
    assert_eq!(get(6).name, "石墨浅色");
    assert!(get(1).light);
    assert_eq!(get(0).panel, (17, 22, 31, 248));
    assert_eq!(get(4).accent, (175, 169, 236));
    assert_eq!(normalize(isize::MIN), ((isize::MIN % 5 + 5) % 5) as usize);
}

#[test]
fn any_index_wraps_by_remainder() {
    assert_eq!(get(usize::MAX).name, get(usize::MAX % count()).name);
    assert_eq!(get(usize::MAX).name, "科技深蓝");
    assert_eq!(get(7).name, get(2).name);
}
