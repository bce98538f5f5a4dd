use opmark_egui::meta::Parser;

#[test]
fn parses_fullscreen_and_title() {
    let p = Parser::new(String::from(
        "---meta\nfullscreen: true\ntitle: My Talk\n---\n# Hello\n",
    ));
    assert!(p.fullscreen);
    assert_eq!(p.title, "My Talk");
    assert_eq!(p.body, "\n# Hello\n");
}

#[test]
fn text_without_meta_block_is_all_body() {
    let p = Parser::new(String::from("# Hello\nworld\n"));
    assert!(!p.fullscreen);
    assert_eq!(p.title, "OpMark Egui");
    assert_eq!(p.body, "# Hello\nworld\n");
}

#[test]
fn unclosed_meta_block_is_all_body() {
    let p = Parser::new(String::from("---meta\ntitle: lost\nno end here\n"));
    assert!(!p.fullscreen);
    assert_eq!(p.title, "OpMark Egui");
    assert_eq!(p.body, "---meta\ntitle: lost\nno end here\n");
}

#[test]
fn fullscreen_needs_the_word_true() {
    let p = Parser::new(String::from("---meta\nfullscreen: yes\n---\nbody"));
    assert!(!p.fullscreen);
    let p = Parser::new(String::from("---meta\nfullscreen:  true \n---\nbody"));
    assert!(p.fullscreen);
}

#[test]
fn later_title_line_wins_and_is_trimmed() {
    let p = Parser::new(String::from(
        "---meta\ntitle: first\ntitle:   second  \n---\nbody",
    ));
    assert_eq!(p.title, "second");
}

#[test]
fn unknown_keys_and_bare_lines_are_ignored() {
    let p = Parser::new(String::from(
        "---meta\nauthor: someone\njust a line\ntitle: T\n---\nbody",
    ));
    assert!(!p.fullscreen);
    assert_eq!(p.title, "T");
    assert_eq!(p.body, "\nbody");
}

#[test]
fn empty_text_is_empty_body() {
    let p = Parser::new(String::new());
    assert!(!p.fullscreen);
    assert_eq!(p.title, "OpMark Egui");
    assert_eq!(p.body, "");
}
