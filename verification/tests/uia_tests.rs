use konx::uia::{
    check_window, clean_target_name, collect_elements, ctype_name, element_from_parts,
    name_has_word, onscreen_element_lines, pick_target, pick_target_index, RawElement,
    UiaEl,
};

fn el(name: &str, ctype: &str, y: i32) -> UiaEl {
    UiaEl { name: name.to_string(), ctype: ctype.to_string(), x: 5, y, w: 20, h: 10 }
}

#[test]
fn exact_match_prefers_lowest_on_screen() {
    // The browser's own Forward sits in the toolbar; the page's Forward is lower.
    let els = vec![el("Forward", "Button", 40), el("Forward", "Button", 600), el("Reply", "Button", 700)];
    let t = pick_target(&els, "forward").unwrap();
    assert_eq!(t.y, 600);
    assert_eq!(t.name, "Forward");
}

#[test]
fn exact_match_ties_go_to_the_last() {
    let els = vec![el("Send", "Button", 300), el("Send", "Hyperlink", 300)];
    assert_eq!(pick_target_index(&els, "Send"), Some(1));
}

#[test]
fn exact_match_beats_word_match() {
    let els = vec![el("Bold (Ctrl+B)", "Button", 900), el("  bold ", "Button", 10)];
    assert_eq!(pick_target_index(&els, "Bold"), Some(1));
}

#[test]
fn whole_word_match_finds_annotated_name() {
    let els = vec![el("Bold (Ctrl+B)", "Button", 50), el("Italic (Ctrl+I)", "Button", 50)];
    let t = pick_target(&els, "bold").unwrap();
    assert_eq!(t.name, "Bold (Ctrl+B)");
}

#[test]
fn whole_word_prefers_shortest_then_lowest_then_first() {
    let els = vec![
        el("Send it now", "Button", 900),
        el("Send now", "Button", 100),
        el("Send all", "Button", 200),
        el("Send out", "Button", 200),
    ];
    // "Send now", "Send all", "Send out" are equally short; 200 is lower than 100;
    // of the two at 200 the first wins.
    assert_eq!(pick_target_index(&els, "send"), Some(2));
}

#[test]
fn single_letter_does_not_grab_unrelated_control() {
    let els = vec![el("Table", "Button", 10), el("Bold", "Button", 20)];
    assert!(pick_target(&els, "b").is_none());
    assert!(pick_target(&els, "ta").is_none());
}

#[test]
fn substring_only_for_terms_of_three_or_more() {
    let els = vec![el("Forwarding options", "MenuItem", 10), el("Forwarded", "Text", 30)];
    assert_eq!(pick_target_index(&els, "forw"), Some(1));
    assert_eq!(pick_target_index(&els, "fo"), None);
}

#[test]
fn empty_or_blank_term_picks_nothing() {
    let els = vec![el("", "Button", 10), el("Send", "Button", 20)];
    assert!(pick_target(&els, "").is_none());
    assert!(pick_target(&els, "   ").is_none());
}

#[test]
fn surrounding_space_and_case_do_not_matter() {
    let els = vec![el("Forward", "Button", 10)];
    assert_eq!(pick_target_index(&els, "  FORWARD \t"), Some(0));
}

#[test]
fn pick_on_no_elements() {
    let els: Vec<UiaEl> = Vec::new();
    assert!(pick_target(&els, "Send").is_none());
}

#[test]
fn name_has_word_splits_on_non_alphanumerics() {
    assert!(name_has_word("bold (ctrl+b)", "bold"));
    assert!(name_has_word("bold (ctrl+b)", "ctrl"));
    assert!(name_has_word("bold (ctrl+b)", "b"));
    assert!(!name_has_word("table", "b"));
    assert!(!name_has_word("table", "tab"));
    assert!(name_has_word("a,,b", ""));
    assert!(!name_has_word("ab", ""));
    assert!(name_has_word("", ""));
    assert!(name_has_word("x-ray", "ray"));
}

#[test]
fn clean_target_name_strips_copied_annotations() {
    assert_eq!(clean_target_name("Forward [Button]"), "Forward");
    assert_eq!(clean_target_name("  Bold (Ctrl+B) "), "Bold");
    assert_eq!(clean_target_name("Save [Button] (Ctrl+S)"), "Save [Button]");
    assert_eq!(clean_target_name("Save (Ctrl+S) [Button]"), "Save");
    assert_eq!(clean_target_name("A[B]"), "A[B]");
    assert_eq!(clean_target_name("Send"), "Send");
    assert_eq!(clean_target_name("x [a] [b]"), "x [a]");
    assert_eq!(clean_target_name(""), "");
}

#[test]
fn ctype_names() {
    assert_eq!(ctype_name(50000), "Button");
    assert_eq!(ctype_name(50004), "Edit");
    assert_eq!(ctype_name(50005), "Hyperlink");
    assert_eq!(ctype_name(50011), "MenuItem");
    assert_eq!(ctype_name(50007), "ComboBox");
    assert_eq!(ctype_name(50002), "CheckBox");
    assert_eq!(ctype_name(50020), "Text");
    assert_eq!(ctype_name(50019), "TabItem");
    assert_eq!(ctype_name(50008), "ListItem");
    assert_eq!(ctype_name(1), "Other");
}

#[test]
fn window_check() {
    assert_eq!(check_window(0), Err("No target window to read.".to_string()));
    assert_eq!(check_window(42), Ok(()));
}

fn raw(name: &str, l: i32, t: i32, r: i32, b: i32, ct: i32) -> RawElement {
    RawElement { name: name.to_string(), left: l, top: t, right: r, bottom: b, control_type: ct }
}

#[test]
fn elements_keep_named_visible_controls() {
    let e = element_from_parts(&raw(" Send ", 10, 20, 60, 40, 50000)).unwrap();
    assert_eq!((e.name.as_str(), e.ctype.as_str(), e.x, e.y, e.w, e.h), (" Send ", "Button", 10, 20, 50, 20));
    assert!(element_from_parts(&raw("  ", 10, 20, 60, 40, 50000)).is_none());
    assert!(element_from_parts(&raw("Send", 10, 20, 10, 40, 50000)).is_none());
    assert!(element_from_parts(&raw("Send", 10, 20, 60, 19, 50000)).is_none());
    let all = collect_elements(vec![
        Some(raw("A", 0, 0, 1, 1, 50005)),
        None,
        Some(raw("", 0, 0, 1, 1, 50000)),
        Some(raw("B", 0, 0, 2, 3, 99)),
    ]);
    assert_eq!(all.len(), 2);
    assert_eq!(all[0].ctype, "Hyperlink");
    assert_eq!(all[1].name, "B");
    assert_eq!(all[1].ctype, "Other");
}

#[test]
fn element_lines_list_interactive_controls_once() {
    let els = vec![
        el("  Forward ", "Button", 1),
        el("forward", "Hyperlink", 2),
        el("Inbox", "Text", 3),
        el("   ", "Edit", 4),
        el("Search mail", "Edit", 5),
        el("Other", "Other", 6),
    ];
    let lines = onscreen_element_lines(&Ok(els));
    assert_eq!(lines, vec!["- Forward [Button]".to_string(), "- Search mail [Edit]".to_string()]);
}

#[test]
fn element_lines_cut_long_names_and_cap_the_list() {
    let long = "x".repeat(100);
    let lines = onscreen_element_lines(&Ok(vec![el(&long, "Button", 1)]));
    assert_eq!(lines[0], format!("- {} [Button]", "x".repeat(80)));
    let many: Vec<UiaEl> = (0..200).map(|i| el(&format!("Item {}", i), "ListItem", i)).collect();
    let lines = onscreen_element_lines(&Ok(many));
    assert_eq!(lines.len(), 120);
    assert_eq!(lines[119], "- Item 119 [ListItem]");
}

#[test]
fn element_lines_empty_when_window_unreadable() {
    assert!(onscreen_element_lines(&Err("No target window to read.".to_string())).is_empty());
}

#[test]
fn whole_word_match_is_also_substring_match() {
    for (name, term) in [("bold (ctrl+b)", "ctrl"), ("send now", "now"), ("a-b", "a")] {
        assert!(name_has_word(name, term));
        assert!(name.contains(term));
    }
}

#[test]
fn cleaned_name_is_prefix_of_trimmed_name() {
    for name in ["  Forward [Button] ", "Bold (Ctrl+B)", "Reply all", "x [a] (b)"] {
        let cleaned = clean_target_name(name);
        assert!(name.trim().starts_with(cleaned.as_str()), "{:?}", name);
    }
}

#[test]
fn matching_ignores_ascii_case_and_padding() {
    let els = vec![el("Forward", "Button", 40), el("Bold (Ctrl+B)", "Button", 80), el("Forwarding", "Text", 90)];
    for term in ["forward", "bold", "forw", "b", "zzz"] {
        let shouted = format!("  {}\t ", term.to_ascii_uppercase());
        assert_eq!(pick_target_index(&els, term), pick_target_index(&els, &shouted), "{:?}", term);
    }
}

#[test]
fn every_reported_element_is_kept_however_many() {
    let raws: Vec<Option<RawElement>> = (0..9000).map(|i| Some(raw("Cell", 0, i, 5, i + 2, 50008))).collect();
    let all = collect_elements(raws);
    assert_eq!(all.len(), 9000);
    assert_eq!(all[8999].y, 8999);
}
