use hawkeye_fmt::document::CheckOutcome;
use hawkeye_fmt::document::Document;
use hawkeye_fmt::document::check_document;
use hawkeye_fmt::matcher::HeaderMatcher;
use hawkeye_fmt::style::HeaderDef;
use hawkeye_fmt::style::HeaderStyle;

fn script_style() -> HeaderDef {
    let style = HeaderStyle {
        first_line: "#".to_string(),
        end_line: "#".to_string(),
        before_each_line: "# ".to_string(),
        after_each_line: "".to_string(),
        allow_blank_lines: false,
        multiple_lines: false,
        pad_lines: false,
        skip_line_pattern: Some("^#!.*$".to_string()),
        first_line_detection_pattern: Some("#.*$".to_string()),
        last_line_detection_pattern: Some("#.*$".to_string()),
    };
    HeaderDef::from_style("script_style", &style).unwrap()
}

fn keywords() -> Vec<String> {
    vec!["copyright".to_string()]
}

#[test]
fn render_line_comment_style() {
    let matcher = HeaderMatcher::new("Copyright 2020 Example\nLine two".to_string());
    let rendered = matcher.build_for_definition(&script_style());
    assert_eq!(rendered, "#\n# Copyright 2020 Example\n# Line two\n#\n");
}

#[test]
fn render_pads_lines_to_longest() {
    let style = HeaderStyle {
        first_line: "".to_string(),
        end_line: "".to_string(),
        before_each_line: "/* ".to_string(),
        after_each_line: " */".to_string(),
        allow_blank_lines: false,
        multiple_lines: false,
        pad_lines: true,
        skip_line_pattern: None,
        first_line_detection_pattern: None,
        last_line_detection_pattern: None,
    };
    let def = HeaderDef::from_style("padded", &style).unwrap();
    let matcher = HeaderMatcher::new("AB\nA".to_string());
    assert_eq!(matcher.build_for_definition(&def), "/* AB */\n/* A  */\n");
}

#[test]
fn render_keeps_newline_framing_line_bare() {
    let style = HeaderStyle {
        first_line: "\n".to_string(),
        end_line: "\n".to_string(),
        before_each_line: "   ".to_string(),
        after_each_line: "".to_string(),
        allow_blank_lines: true,
        multiple_lines: true,
        pad_lines: false,
        skip_line_pattern: None,
        first_line_detection_pattern: None,
        last_line_detection_pattern: None,
    };
    let def = HeaderDef::from_style("text", &style).unwrap();
    let matcher = HeaderMatcher::new("Copyright".to_string());
    assert_eq!(matcher.build_for_definition(&def), "\n   Copyright\n\n");
}

#[test]
fn matcher_reports_line_count_and_one_line() {
    let matcher = HeaderMatcher::new("Copyright 2020\n  spaced   out\n".to_string());
    assert_eq!(matcher.header_content_lines_count(), 2);
    assert_eq!(matcher.header_content_one_line(), "Copyright2020spacedout");
}

#[test]
fn update_inserts_header_and_blank_line() {
    let matcher = HeaderMatcher::new("Copyright 2020 Example".to_string());
    let mut doc = Document::new("x.py".to_string(), script_style(), &keywords(), "print(1)\n");
    assert!(!doc.header_detected());
    doc.update_header(&matcher);
    assert_eq!(doc.content(), "#\n# Copyright 2020 Example\n#\n\nprint(1)\n");
}

#[test]
fn update_keeps_shebang_above_header() {
    let matcher = HeaderMatcher::new("Copyright 2020 Example".to_string());
    let content = "#!/usr/bin/env python\nprint(1)\n";
    let mut doc = Document::new("x.py".to_string(), script_style(), &keywords(), content);
    assert!(!doc.header_detected());
    doc.update_header(&matcher);
    assert_eq!(
        doc.content(),
        "#!/usr/bin/env python\n#\n# Copyright 2020 Example\n#\n\nprint(1)\n"
    );
}

#[test]
fn updated_document_matches_strictly_on_rescan() {
    let matcher = HeaderMatcher::new("Copyright 2020 Example".to_string());
    let mut doc = Document::new("x.py".to_string(), script_style(), &keywords(), "print(1)\n");
    doc.update_header(&matcher);
    let formatted = doc.content();
    let rescanned = Document::new("x.py".to_string(), script_style(), &keywords(), &formatted);
    assert!(rescanned.header_detected());
    assert!(rescanned.header_matched(&matcher, true));
}

#[test]
fn reformatting_a_formatted_file_changes_nothing() {
    let matcher = HeaderMatcher::new("Copyright 2020 Example".to_string());
    let mut doc = Document::new("x.py".to_string(), script_style(), &keywords(), "print(1)\n");
    doc.update_header(&matcher);
    let formatted = doc.content();

    let mut again = Document::new("x.py".to_string(), script_style(), &keywords(), &formatted);
    assert!(again.header_detected());
    again.remove_header();
    again.update_header(&matcher);
    assert_eq!(again.content(), formatted);
}

#[test]
fn replace_changes_length_by_header_delta() {
    let matcher = HeaderMatcher::new("Copyright 2021 Other".to_string());
    let content = "# Copyright 2020 Example\n#\nprint(1)\n";
    let mut doc = Document::new("x.py".to_string(), script_style(), &keywords(), content);
    assert!(doc.header_detected());
    doc.remove_header();
    let removed_len = doc.content().len();
    assert_eq!(removed_len, content.len() - 27);
    doc.update_header(&matcher);
    let rendered = "#\n# Copyright 2021 Other\n#\n\n";
    assert_eq!(doc.content().len(), removed_len + rendered.len());
    let rescanned =
        Document::new("x.py".to_string(), script_style(), &keywords(), &doc.content());
    assert!(rescanned.header_matched(&matcher, true));
}

#[test]
fn removal_is_idempotent() {
    let content = "# Copyright 2020 Example\n#\nprint(\"hi\")\n";
    let mut doc = Document::new("x.py".to_string(), script_style(), &keywords(), content);
    assert!(doc.header_detected());
    doc.remove_header();
    assert_eq!(doc.content(), "print(\"hi\")\n");
    assert!(!doc.header_detected());
    doc.remove_header();
    assert_eq!(doc.content(), "print(\"hi\")\n");

    let rescanned =
        Document::new("x.py".to_string(), script_style(), &keywords(), &doc.content());
    assert!(!rescanned.header_detected());
}

#[test]
fn keyword_gating_rejects_plain_comment_blocks() {
    let content = "# All rights reserved\n# by someone\nprint(1)\n";
    let doc = Document::new("x.py".to_string(), script_style(), &keywords(), content);
    assert!(!doc.header_detected());
}

#[test]
fn loose_match_tolerates_reflowed_whitespace() {
    let matcher = HeaderMatcher::new("Copyright 2020 Example".to_string());
    let content = "# Copyright   2020    Example\nprint(1)\n";
    let doc = Document::new("x.py".to_string(), script_style(), &keywords(), content);
    assert!(doc.header_matched(&matcher, false));
    assert!(!doc.header_matched(&matcher, true));
}

#[test]
fn unsupported_style_is_reported() {
    let style = HeaderStyle::default();
    let def = HeaderDef::from_style("Unknown", &style).unwrap();
    let doc = Document::new("x.bin".to_string(), def, &keywords(), "data");
    assert!(doc.is_unsupported());
    let known = Document::new("x.py".to_string(), script_style(), &keywords(), "data");
    assert!(!known.is_unsupported());
}

#[test]
fn check_document_classifies_all_outcomes() {
    let matcher = HeaderMatcher::new("Copyright 2020 Example".to_string());
    let kw = keywords();

    let unknown = HeaderDef::from_style("unknown", &HeaderStyle::default()).unwrap();
    let doc = Document::new("a".to_string(), unknown, &kw, "x");
    assert!(matches!(check_document(&doc, &matcher, true), CheckOutcome::Unsupported));

    let doc = Document::new("b".to_string(), script_style(), &kw, "print(1)\n");
    assert!(matches!(check_document(&doc, &matcher, true), CheckOutcome::NotMatched));

    let formatted = "#\n# Copyright 2020 Example\n#\n\nprint(1)\n";
    let doc = Document::new("c".to_string(), script_style(), &kw, formatted);
    assert!(matches!(check_document(&doc, &matcher, true), CheckOutcome::Matched));
}

#[test]
fn block_style_reinsertion_does_not_accumulate_blank_lines() {
    let style = HeaderStyle {
        first_line: "/*".to_string(),
        end_line: " */".to_string(),
        before_each_line: " * ".to_string(),
        after_each_line: "".to_string(),
        allow_blank_lines: false,
        multiple_lines: true,
        pad_lines: false,
        skip_line_pattern: None,
        first_line_detection_pattern: Some("(\\s|\\t)*/\\*.*$".to_string()),
        last_line_detection_pattern: Some(".*\\*/(\\s|\\t)*$".to_string()),
    };
    let def = || HeaderDef::from_style("slashstar_style", &style).unwrap();
    let matcher = HeaderMatcher::new("Copyright 2020 Foo".to_string());

    let mut doc = Document::new("x.c".to_string(), def(), &keywords(), "code();\n");
    doc.update_header(&matcher);
    let formatted = doc.content();
    assert_eq!(formatted, "/*\n * Copyright 2020 Foo\n */\n\ncode();\n");

    let mut again = Document::new("x.c".to_string(), def(), &keywords(), &formatted);
    assert!(again.header_detected());
    again.remove_header();
    assert_eq!(again.content(), "code();\n");
    again.update_header(&matcher);
    assert_eq!(again.content(), formatted);
}
