use hawkeye_fmt::parser::FileContent;
use hawkeye_fmt::parser::parse_header;
use hawkeye_fmt::style::HeaderDef;
use hawkeye_fmt::style::HeaderStyle;

fn script_style() -> HeaderDef {
    let style = HeaderStyle {
        first_line: "#".to_string(),
        end_line: "#".to_string(),
        before_each_line: "# ".to_string(),
        after_each_line: "".to_string(),
        allow_blank_lines: false,
        multiple_lines: false,
        pad_lines: false,
        skip_line_pattern: Some("^#!.*$".to_string()),
        first_line_detection_pattern: Some("#.*$".to_string()),
        last_line_detection_pattern: Some("#.*$".to_string()),
    };
    HeaderDef::from_style("script_style", &style).unwrap()
}

fn doubleslash_style() -> HeaderDef {
    let style = HeaderStyle {
        first_line: "//".to_string(),
        end_line: "//".to_string(),
        before_each_line: "// ".to_string(),
        after_each_line: "".to_string(),
        allow_blank_lines: false,
        multiple_lines: false,
        pad_lines: false,
        skip_line_pattern: None,
        first_line_detection_pattern: Some("//.*$".to_string()),
        last_line_detection_pattern: Some("//.*$".to_string()),
    };
    HeaderDef::from_style("doubleslash_style", &style).unwrap()
}

fn keywords() -> Vec<String> {
    vec!["copyright".to_string()]
}

#[test]
fn test_remove_file_only_header() {
    let content = "\
# Copyright 2024 tison <wander4096@gmail.com>\n\
#\n\
# Licensed under the Apache License, Version 2.0 (the \"License\");\n\
# you may not use this file except in compliance with the License.\n";
    let def = script_style();
    let keywords = keywords();

    let document = parse_header(FileContent::new(content), &def, &keywords);
    let end_pos = document.end_pos.unwrap();
    let content = document.file_content.content();
    assert!(content[end_pos..].trim().is_empty());
}

#[test]
fn test_two_headers_should_only_remove_the_first() {
    let content = "\
// Copyright 2024 tison <wander4096@gmail.com>\n\
//\n\
// Licensed under the Apache License, Version 2.0 (the \"License\");\n\
\n\
// Copyright 2015 The Prometheus Authors\n\
// Licensed under the Apache License, Version 2.0 (the \"License\");\n\
\n\
fn main() {}\n";
    let def = doubleslash_style();
    let keywords = keywords();

    let document = parse_header(FileContent::new(content), &def, &keywords);
    let end_pos = document.end_pos.unwrap();
    let content = document.file_content.content();
    assert!(content[end_pos..].contains("Copyright 2015 The Prometheus Authors"));
}

#[test]
fn scan_reports_exact_span_for_line_style() {
    let content = "# Copyright 2020 Example\n#\nprint(\"hi\")\n";
    let def = script_style();
    let parser = parse_header(FileContent::new(content), &def, &keywords());
    assert_eq!(parser.begin_pos, 0);
    assert_eq!(parser.end_pos, Some(27));
    assert_eq!(&parser.file_content.content()[27..], "print(\"hi\")\n");
}

#[test]
fn scan_skips_shebang_line() {
    let content = "#!/usr/bin/env python\nprint(1)\n";
    let def = script_style();
    let parser = parse_header(FileContent::new(content), &def, &keywords());
    assert_eq!(parser.begin_pos, 22);
    assert_eq!(parser.end_pos, None);
}

#[test]
fn scan_skips_shebang_above_header() {
    let content = "#!/usr/bin/env python\n# Copyright 2020 Example\n#\nprint(1)\n";
    let def = script_style();
    let parser = parse_header(FileContent::new(content), &def, &keywords());
    assert_eq!(parser.begin_pos, 22);
    assert_eq!(parser.end_pos, Some(49));
}

#[test]
fn scan_resets_when_whole_file_is_prologue() {
    let content = "#!/usr/bin/env python\n";
    let def = script_style();
    let parser = parse_header(FileContent::new(content), &def, &keywords());
    assert_eq!(parser.begin_pos, 0);
    assert_eq!(parser.end_pos, None);
}

#[test]
fn scan_requires_all_keywords() {
    let content = "// All rights reserved.\n// Some comment text.\n\nfn main() {}\n";
    let def = doubleslash_style();
    let parser = parse_header(FileContent::new(content), &def, &keywords());
    assert_eq!(parser.end_pos, None);
}

#[test]
fn scan_is_case_insensitive_for_keywords() {
    let content = "# COPYRIGHT 2020 EXAMPLE\n#\nprint(1)\n";
    let def = script_style();
    let parser = parse_header(FileContent::new(content), &def, &keywords());
    assert_eq!(parser.end_pos, Some(27));
}

#[test]
fn scan_lowercases_configured_keywords() {
    let content = "# Copyright 2020 Example\n#\nprint(1)\n";
    let def = script_style();
    let upper = vec!["Copyright".to_string()];
    let parser = parse_header(FileContent::new(content), &def, &upper);
    assert_eq!(parser.end_pos, Some(27));
}

#[test]
fn scan_block_style_absorbs_one_blank_line() {
    let content = "/*\n * Copyright 2020 Foo\n */\n\ncode();\n";
    let style = HeaderStyle {
        first_line: "/*".to_string(),
        end_line: " */".to_string(),
        before_each_line: " * ".to_string(),
        after_each_line: "".to_string(),
        allow_blank_lines: false,
        multiple_lines: true,
        pad_lines: false,
        skip_line_pattern: None,
        first_line_detection_pattern: Some("(\\s|\\t)*/\\*.*$".to_string()),
        last_line_detection_pattern: Some(".*\\*/(\\s|\\t)*$".to_string()),
    };
    let def = HeaderDef::from_style("slashstar_style", &style).unwrap();
    let parser = parse_header(FileContent::new(content), &def, &keywords());
    assert_eq!(parser.begin_pos, 0);
    let end = parser.end_pos.unwrap();
    assert_eq!(&parser.file_content.content()[end..], "code();\n");
}

#[test]
fn scan_xml_style_with_declaration_and_blank_lines() {
    let content = "<?xml version=\"1.0\"?>\n<!--\n\n    Copyright 2020 Foo\n-->\n<root/>\n";
    let style = HeaderStyle {
        first_line: "<!--".to_string(),
        end_line: "-->".to_string(),
        before_each_line: "    ".to_string(),
        after_each_line: "".to_string(),
        allow_blank_lines: true,
        multiple_lines: true,
        pad_lines: false,
        skip_line_pattern: Some("^<\\?xml.*>$".to_string()),
        first_line_detection_pattern: Some("(\\s|\\t)*<!--.*$".to_string()),
        last_line_detection_pattern: Some(".*-->(\\s|\\t)*$".to_string()),
    };
    let def = HeaderDef::from_style("xml_style", &style).unwrap();
    let parser = parse_header(FileContent::new(content), &def, &keywords());
    assert_eq!(parser.begin_pos, 22);
    let end = parser.end_pos.unwrap();
    assert_eq!(&parser.file_content.content()[end..], "<root/>\n");
}

#[test]
fn scan_empty_file_detects_nothing() {
    let def = script_style();
    let parser = parse_header(FileContent::new(""), &def, &keywords());
    assert_eq!(parser.begin_pos, 0);
    assert_eq!(parser.end_pos, None);
}

#[test]
fn file_content_normalizes_crlf() {
    let fc = FileContent::new("a\r\nb\r\n");
    assert_eq!(fc.content(), "a\nb\n");
}

#[test]
fn file_content_normalizes_lone_cr_to_line_boundary() {
    let mut fc = FileContent::new("a\rb\n");
    assert_eq!(fc.content(), "a\nb\n");
    assert_eq!(fc.next_line(), Some("a".to_string()));
    assert_eq!(fc.next_line(), Some("b".to_string()));
    assert_eq!(fc.next_line(), None);
}

#[test]
fn file_content_reads_lines_and_rewinds() {
    let mut fc = FileContent::new("one\ntwo\nthree");
    assert_eq!(fc.next_line(), Some("one".to_string()));
    assert_eq!(fc.next_line(), Some("two".to_string()));
    fc.rewind();
    assert_eq!(fc.next_line(), Some("two".to_string()));
    assert_eq!(fc.next_line(), Some("three".to_string()));
    assert_eq!(fc.next_line(), None);
    assert_eq!(fc.next_line(), None);
    assert!(fc.end_reached());
}

#[test]
fn file_content_reset_restarts_reading() {
    let mut fc = FileContent::new("one\ntwo\n");
    assert_eq!(fc.next_line(), Some("one".to_string()));
    fc.reset();
    assert_eq!(fc.next_line(), Some("one".to_string()));
    fc.reset_to(4);
    assert_eq!(fc.next_line(), Some("two".to_string()));
}

#[test]
fn file_content_insert_and_delete_splice_text() {
    let mut fc = FileContent::new("hello world");
    fc.insert(5, ",");
    assert_eq!(fc.content(), "hello, world");
    fc.delete(0, 7);
    assert_eq!(fc.content(), "world");
}
