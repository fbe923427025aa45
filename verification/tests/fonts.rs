use piclayout::fonts::{
    generic_family, GenericFamily, compare_str, eq_ignore_ascii_case, faces_have_family, font_list_from_faces, is_generic_family,
    style_name, system_has_family, FaceStyle, InstalledFace, KeyOrder,
};

fn face(families: &[&str], ps: &str, weight: u16, style: FaceStyle, mono: bool) -> InstalledFace {
    InstalledFace {
        families: families.iter().map(|f| f.to_string()).collect(),
        post_script_name: ps.into(),
        weight,
        style,
        monospaced: mono,
    }
}

#[test]
fn generic_families_are_recognized() {
    for name in ["sans-serif", "sans", "serif", "monospace", "monospaced", "cursive", "fantasy"] {
        assert!(is_generic_family(name));
    }
    assert!(is_generic_family("  Sans-Serif "));
    assert!(is_generic_family("MONOSPACE"));
    assert!(!is_generic_family("Helvetica"));
    assert!(!is_generic_family(""));
    assert!(!is_generic_family("sans serif"));
}

#[test]
fn blank_or_generic_families_are_always_available() {
    assert!(system_has_family(""));
    assert!(system_has_family("   "));
    assert!(system_has_family(" Serif "));
}

#[test]
fn style_names() {
    assert_eq!(style_name(FaceStyle::Normal), "normal");
    assert_eq!(style_name(FaceStyle::Italic), "italic");
    assert_eq!(style_name(FaceStyle::Oblique), "oblique");
}

#[test]
fn strings_compare_by_code_point() {
    assert_eq!(compare_str("a", "b"), KeyOrder::Less);
    assert_eq!(compare_str("b", "a"), KeyOrder::Greater);
    assert_eq!(compare_str("ab", "ab"), KeyOrder::Equal);
    assert_eq!(compare_str("ab", "abc"), KeyOrder::Less);
    assert_eq!(compare_str("", "a"), KeyOrder::Less);
    assert_eq!(compare_str("Z", "a"), KeyOrder::Less);
    assert_eq!(compare_str("é", "z"), KeyOrder::Greater);
    for (a, b) in [("Noto", "noto"), ("中文", "abc"), ("x", "xy"), ("", "")] {
        let expected = match a.cmp(b) {
            std::cmp::Ordering::Less => KeyOrder::Less,
            std::cmp::Ordering::Equal => KeyOrder::Equal,
            std::cmp::Ordering::Greater => KeyOrder::Greater,
        };
        assert_eq!(compare_str(a, b), expected);
    }
}

#[test]
fn ascii_case_is_ignored_when_matching_families() {
    let needle: Vec<char> = "noto SANS".chars().collect();
    assert!(eq_ignore_ascii_case("Noto Sans", &needle));
    assert!(!eq_ignore_ascii_case("Noto Sans Mono", &needle));
    let faces = vec![face(&["DejaVu Serif"], "DejaVuSerif", 400, FaceStyle::Normal, false), face(&["Noto Sans", "Noto"], "NotoSans", 400, FaceStyle::Normal, false)];
    assert!(faces_have_family(&faces, &needle));
    let other: Vec<char> = "Arial".chars().collect();
    assert!(!faces_have_family(&faces, &other));
}

#[test]
fn font_list_is_deduplicated_and_sorted() {
    let faces = vec![
        face(&["Zeta"], "Zeta-Regular", 400, FaceStyle::Normal, false),
        face(&["alpha", "Alpha Display"], "Alpha-Bold", 700, FaceStyle::Normal, false),
        face(&["Alpha"], "Alpha-Bold", 700, FaceStyle::Normal, true),
        face(&["Alpha"], "Alpha-Italic", 400, FaceStyle::Italic, false),
        face(&["Alpha"], "Alpha-Regular", 400, FaceStyle::Normal, false),
        face(&["Zeta"], "Zeta-Regular", 400, FaceStyle::Normal, true),
    ];
    let list = font_list_from_faces(&faces);
    let summary: Vec<(String, String, u16, String, bool)> = list
        .iter()
        .map(|f| (f.family.clone(), f.post_script_name.clone(), f.weight, f.style.clone(), f.monospaced))
        .collect();
    assert_eq!(
        summary,
        vec![
            ("Alpha".to_string(), "Alpha-Italic".to_string(), 400, "italic".to_string(), false),
            ("Alpha".to_string(), "Alpha-Regular".to_string(), 400, "normal".to_string(), false),
            ("alpha".to_string(), "Alpha-Bold".to_string(), 700, "normal".to_string(), false),
            ("Alpha Display".to_string(), "Alpha-Bold".to_string(), 700, "normal".to_string(), false),
            ("Zeta".to_string(), "Zeta-Regular".to_string(), 400, "normal".to_string(), false),
        ]
    );
}

#[test]
fn empty_font_database_gives_empty_list() {
    assert!(font_list_from_faces(&[]).is_empty());
}

#[test]
fn text_families_map_to_generic_families() {
    assert_eq!(generic_family(""), Some(GenericFamily::SansSerif));
    assert_eq!(generic_family("  "), Some(GenericFamily::SansSerif));
    assert_eq!(generic_family("Sans"), Some(GenericFamily::SansSerif));
    assert_eq!(generic_family(" Serif "), Some(GenericFamily::Serif));
    assert_eq!(generic_family("MONOSPACED"), Some(GenericFamily::Monospace));
    assert_eq!(generic_family("cursive"), Some(GenericFamily::Cursive));
    assert_eq!(generic_family("Fantasy"), Some(GenericFamily::Fantasy));
    assert_eq!(generic_family("Noto Sans"), None);
}
