use keytip::fonts::{font_name, is_font_collection};

#[test]
fn collections_are_recognized() {
    assert!(is_font_collection(b"ttcf\0\x01"));
    assert!(!is_font_collection(b"ttc"));
    assert!(!is_font_collection(b"OTTO...."));
}

#[test]
fn font_names_are_file_stems() {
    assert_eq!(font_name("/usr/share/fonts/maple/MapleMono-NF-CN-Regular.ttf"), "MapleMono-NF-CN-Regular");
    assert_eq!(font_name("/"), "cjk");
}

#[test]
fn cjk_fonts_take_their_places_in_the_families() {
    let v = |xs: &[&str]| xs.iter().map(|s| s.to_string()).collect::<Vec<String>>();
    let (p, m) = keytip::fonts::cjk_families(
        v(&["Ubuntu"]),
        v(&["Hack"]),
        Some("SourceHanSansCN-Regular".to_string()),
        Some("MapleMono".to_string()),
    );
    assert_eq!(p, v(&["SourceHanSansCN-Regular", "Ubuntu"]));
    assert_eq!(m, v(&["MapleMono", "Hack", "SourceHanSansCN-Regular"]));
    let (p, m) = keytip::fonts::cjk_families(v(&["Ubuntu"]), v(&["Hack"]), None, None);
    assert_eq!(p, v(&["Ubuntu"]));
    assert_eq!(m, v(&["Hack"]));
}
