use hawkeye_fmt::config::BuildInfo;
use hawkeye_fmt::config::DocumentType;
use hawkeye_fmt::config::FeatureGate;
use hawkeye_fmt::config::Git;
use hawkeye_fmt::config::GitFileAttrs;
use hawkeye_fmt::config::HeaderSource;
use hawkeye_fmt::config::Mapping;
use hawkeye_fmt::config::check_unknown_files;
use hawkeye_fmt::config::default_config;
use hawkeye_fmt::config::default_cwd;
use hawkeye_fmt::config::default_keywords;
use hawkeye_fmt::config::default_true;
use hawkeye_fmt::config::resolve_features;
use hawkeye_fmt::pattern::Pattern;
use hawkeye_fmt::style::Error;
use hawkeye_fmt::style::HeaderDef;
use hawkeye_fmt::style::HeaderStyle;

#[test]
fn filename_mapping_ignores_case() {
    let m = Mapping::Filename { pattern: "Makefile".to_string(), header_type: "script_style".to_string() };
    assert_eq!(m.header_type("makefile"), Some("script_style".to_string()));
    assert_eq!(m.header_type("MAKEFILE"), Some("script_style".to_string()));
    assert_eq!(m.header_type("makefile.am"), None);
}

#[test]
fn extension_mapping_requires_dot_suffix() {
    let m = Mapping::Extension { pattern: "py".to_string(), header_type: "script_style".to_string() };
    assert_eq!(m.header_type("main.PY"), Some("script_style".to_string()));
    assert_eq!(m.header_type("main.py"), Some("script_style".to_string()));
    assert_eq!(m.header_type("mainpy"), None);
    assert_eq!(m.header_type("main.pyc"), None);
}

#[test]
fn feature_gate_predicates() {
    assert!(FeatureGate::Enable.is_enable());
    assert!(!FeatureGate::Enable.is_disable());
    assert!(!FeatureGate::Enable.is_auto());
    assert!(FeatureGate::Disable.is_disable());
    assert!(FeatureGate::Auto.is_auto());
}

#[test]
fn git_gates_combine_with_enable_first() {
    let enable = Git { attrs: FeatureGate::Enable, ignore: FeatureGate::Disable };
    assert!(resolve_features(&enable).is_enable());
    let auto = Git { attrs: FeatureGate::Disable, ignore: FeatureGate::Auto };
    assert!(resolve_features(&auto).is_auto());
    let off = Git { attrs: FeatureGate::Disable, ignore: FeatureGate::Disable };
    assert!(resolve_features(&off).is_disable());
    let default = Git::default();
    assert!(resolve_features(&default).is_auto());
}

#[test]
fn unknown_files_fail_only_when_asked() {
    let none: Vec<String> = vec![];
    let some = vec!["a.bin".to_string()];
    assert!(!check_unknown_files(&none, true));
    assert!(!check_unknown_files(&some, false));
    assert!(check_unknown_files(&some, true));
}

#[test]
fn defaults_are_the_documented_ones() {
    assert!(default_true());
    assert_eq!(default_cwd(), ".");
    assert_eq!(default_keywords(), vec!["copyright".to_string()]);
    assert_eq!(default_config(), "licenserc.toml");
    let style = HeaderStyle::default();
    assert!(style.multiple_lines);
    assert!(!style.allow_blank_lines);
    assert_eq!(style.first_line, "");
}

#[test]
fn document_type_yields_enabled_mappings() {
    let both = DocumentType {
        pattern: "py".to_string(),
        header_type: "script_style".to_string(),
        extension: true,
        filename: true,
    };
    let ms = both.mappings();
    assert_eq!(ms.len(), 2);
    assert!(matches!(&ms[0], Mapping::Extension { pattern, .. } if pattern == "py"));
    assert!(matches!(&ms[1], Mapping::Filename { pattern, .. } if pattern == "py"));

    let neither = DocumentType {
        pattern: "py".to_string(),
        header_type: "script_style".to_string(),
        extension: false,
        filename: false,
    };
    assert_eq!(neither.mappings().len(), 0);
}

#[test]
fn git_file_attrs_fold_times_and_authors() {
    let mut attrs = GitFileAttrs::new(100, "alice".to_string());
    attrs.observe(50, "bob".to_string());
    attrs.observe(200, "alice".to_string());
    assert_eq!(attrs.created_time, 50);
    assert_eq!(attrs.modified_time, 200);
    assert_eq!(attrs.authors, vec!["alice".to_string(), "bob".to_string()]);
}

#[test]
fn header_source_holds_content() {
    let src = HeaderSource::new("Copyright".to_string());
    assert_eq!(src.content, "Copyright");
}

#[test]
fn build_info_renders_labelled_lines() {
    let info = BuildInfo {
        branch: "main".to_string(),
        commit: "abcdef0123".to_string(),
        commit_short: "abcdef0".to_string(),
        clean: true,
        description: "license tool".to_string(),
        source_time: "2024-01-01".to_string(),
        build_time: "2024-01-02".to_string(),
        rustc: "rustc 1.75.0".to_string(),
        target: "x86_64-unknown-linux-gnu".to_string(),
        version: "1.0.0".to_string(),
    };
    assert_eq!(
        info.render(),
        "\nversion: 1.0.0\nbranch: main\ncommit: abcdef0123\nclean: true\nsource_time: \
         2024-01-01\nbuild_time: 2024-01-02\nrustc: rustc 1.75.0\ntarget: x86_64-unknown-linux-gnu"
    );
}

#[test]
fn pattern_compile_reports_malformed_regex() {
    assert!(Pattern::compile("(").is_none());
    let p = Pattern::compile("^#!.*$").unwrap();
    assert!(p.is_match("#!/bin/sh"));
    assert!(!p.is_match("x = 1"));
}

#[test]
fn style_with_blank_lines_must_be_multi_line() {
    let style = HeaderStyle {
        allow_blank_lines: true,
        multiple_lines: false,
        ..HeaderStyle::default()
    };
    match HeaderDef::from_style("bad", &style) {
        Err(err) => {
            assert!(matches!(err, Error::InvalidConfig { .. }));
            assert!(err.message().contains("multi-line"));
        },
        Ok(_) => panic!("expected the style to be rejected"),
    }
}

#[test]
fn style_with_malformed_pattern_is_rejected() {
    let style = HeaderStyle {
        first_line_detection_pattern: Some("(".to_string()),
        ..HeaderStyle::default()
    };
    match HeaderDef::from_style("bad", &style) {
        Err(err) => {
            assert!(matches!(err, Error::MalformedRegex { .. }));
            assert_eq!(err.message(), "(");
        },
        Ok(_) => panic!("expected the pattern to be rejected"),
    }
}

#[test]
fn style_names_are_lowercased() {
    let def = HeaderDef::from_style("Script_Style", &HeaderStyle::default()).unwrap();
    assert_eq!(def.name, "script_style");
}

#[test]
fn detection_predicates_follow_patterns() {
    let style = HeaderStyle {
        skip_line_pattern: Some("^#!.*$".to_string()),
        first_line_detection_pattern: Some("#.*$".to_string()),
        last_line_detection_pattern: Some("#.*$".to_string()),
        ..HeaderStyle::default()
    };
    let def = HeaderDef::from_style("s", &style).unwrap();
    assert!(def.is_skip_line("#!/usr/bin/env bash"));
    assert!(!def.is_skip_line("# plain comment"));
    assert!(def.is_first_header_line("# Copyright"));
    assert!(!def.is_first_header_line("code"));
    assert!(def.is_last_header_line("# end"));

    let bare = HeaderDef::from_style("bare", &HeaderStyle::default()).unwrap();
    assert!(!bare.is_skip_line("anything"));
    assert!(!bare.is_first_header_line("anything"));
    assert!(!bare.is_last_header_line("anything"));
}
