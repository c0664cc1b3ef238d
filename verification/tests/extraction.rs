use markdown_extract::extract::extract_from_lines;
use markdown_extract::extract::first_matching_section;
use markdown_extract::extract::section_display_lines;
use markdown_extract::heading::try_parse_heading;
use markdown_extract::matcher::Matcher;
use markdown_extract::options::Opts;

fn doc_lines(text: &str) -> Vec<String> {
    text.lines().map(|l| l.to_string()).collect()
}

fn matcher(pattern: &str, case_sensitive: bool) -> Matcher {
    Matcher::new(pattern, case_sensitive).unwrap()
}

#[test]
fn first_match_basic() {
    let lines = doc_lines("# Intro\ntext\n# Setup\nstep1\n# Done\n");
    let m = matcher("Setup", false);
    let section = first_matching_section(&lines, &m).unwrap();
    assert_eq!(section, vec!["# Setup".to_string(), "step1".to_string()]);
}

#[test]
fn fenced_fake_heading_not_matched() {
    let lines = doc_lines("# Real\n```\n# fake\n```\n");
    let m = matcher("fake", false);
    let sections = extract_from_lines(&lines, &m);
    assert_eq!(sections.len(), 0);
    assert!(first_matching_section(&lines, &m).is_none());
}

#[test]
fn deeper_heading_included() {
    let lines = doc_lines("# A\n## B\ntext\n# C\n");
    let m = matcher("A", false);
    let section = first_matching_section(&lines, &m).unwrap();
    assert_eq!(
        section,
        vec!["# A".to_string(), "## B".to_string(), "text".to_string()]
    );
}

#[test]
fn all_matches_in_document_order() {
    let lines = doc_lines("# One\nx\n# Two\ny\n");
    let m = matcher(".*", false);
    let sections = extract_from_lines(&lines, &m);
    assert_eq!(sections.len(), 2);
    assert_eq!(sections[0], vec!["# One".to_string(), "x".to_string()]);
    assert_eq!(sections[1], vec!["# Two".to_string(), "y".to_string()]);
}

#[test]
fn first_match_mode_returns_only_first() {
    let lines = doc_lines("# One\nx\n# Two\ny\n");
    let m = matcher(".*", false);
    let section = first_matching_section(&lines, &m).unwrap();
    assert_eq!(section, vec!["# One".to_string(), "x".to_string()]);
}

#[test]
fn case_sensitive_distinguishes() {
    let lines = doc_lines("# setup\nx\n");
    let sensitive = matcher("Setup", true);
    assert!(first_matching_section(&lines, &sensitive).is_none());
}

#[test]
fn case_insensitive_equates() {
    let lines = doc_lines("# setup\nx\n");
    let insensitive = matcher("Setup", false);
    let section = first_matching_section(&lines, &insensitive).unwrap();
    assert_eq!(section, vec!["# setup".to_string(), "x".to_string()]);
}

#[test]
fn rerun_yields_identical_result() {
    let lines = doc_lines("# A\ntext\n```\n# B\n```\n## C\n# D\nend\n");
    let m = matcher("[AD]", true);
    let first = extract_from_lines(&lines, &m);
    let second = extract_from_lines(&lines, &m);
    assert_eq!(first, second);
}

#[test]
fn fences_inside_section_are_captured() {
    let lines = doc_lines("# S\n```\n# inner\n```\nafter\n# T\n");
    let m = matcher("S", true);
    let section = first_matching_section(&lines, &m).unwrap();
    assert_eq!(
        section,
        vec![
            "# S".to_string(),
            "```".to_string(),
            "# inner".to_string(),
            "```".to_string(),
            "after".to_string(),
        ]
    );
}

#[test]
fn closing_fence_restores_heading_recognition() {
    let lines = doc_lines("```\n# hidden\n```\n# shown\nx\n");
    let m = matcher("n", false);
    let sections = extract_from_lines(&lines, &m);
    assert_eq!(sections.len(), 1);
    assert_eq!(sections[0], vec!["# shown".to_string(), "x".to_string()]);
}

#[test]
fn section_closes_at_equal_depth() {
    let lines = doc_lines("## A\ntext\n## B\n");
    let m = matcher("A", true);
    let section = first_matching_section(&lines, &m).unwrap();
    assert_eq!(section, vec!["## A".to_string(), "text".to_string()]);
}

#[test]
fn section_closes_at_shallower_depth() {
    let lines = doc_lines("## A\ntext\n# B\n");
    let m = matcher("A", true);
    let section = first_matching_section(&lines, &m).unwrap();
    assert_eq!(section, vec!["## A".to_string(), "text".to_string()]);
}

#[test]
fn section_closes_at_end_of_input() {
    let lines = doc_lines("# Last\ntail\n");
    let m = matcher("Last", false);
    let section = first_matching_section(&lines, &m).unwrap();
    assert_eq!(section, vec!["# Last".to_string(), "tail".to_string()]);
}

#[test]
fn empty_input_gives_no_sections() {
    let lines: Vec<String> = Vec::new();
    let m = matcher(".*", false);
    assert_eq!(extract_from_lines(&lines, &m).len(), 0);
    assert!(first_matching_section(&lines, &m).is_none());
}

#[test]
fn matching_is_on_heading_text_not_markers() {
    let lines = doc_lines("# Intro\ntext\n");
    let m = matcher("#", false);
    assert!(first_matching_section(&lines, &m).is_none());
}

#[test]
fn regex_semantics_reach_the_match() {
    let lines = doc_lines("# My Setup Guide\nstep\n");
    let m = matcher("Set.p", true);
    let section = first_matching_section(&lines, &m).unwrap();
    assert_eq!(
        section,
        vec!["# My Setup Guide".to_string(), "step".to_string()]
    );
}

#[test]
fn invalid_pattern_is_rejected() {
    assert!(Matcher::new("(", false).is_none());
    assert!(Matcher::new("[a-", true).is_none());
}

#[test]
fn parse_heading_basic() {
    let h = try_parse_heading("## Hello").unwrap();
    assert_eq!(h.depth, 2);
    assert_eq!(h.content, "Hello".to_string());
}

#[test]
fn parse_heading_depth_six() {
    let h = try_parse_heading("###### deep").unwrap();
    assert_eq!(h.depth, 6);
    assert_eq!(h.content, "deep".to_string());
}

#[test]
fn seven_markers_is_no_heading() {
    assert!(try_parse_heading("####### too deep").is_none());
}

#[test]
fn marker_without_space_is_no_heading() {
    assert!(try_parse_heading("#Hello").is_none());
    assert!(try_parse_heading("#").is_none());
}

#[test]
fn heading_content_is_trimmed() {
    let h = try_parse_heading("#   Hello   ").unwrap();
    assert_eq!(h.depth, 1);
    assert_eq!(h.content, "Hello".to_string());
}

#[test]
fn heading_tab_separator_accepted() {
    let h = try_parse_heading("#\tHello").unwrap();
    assert_eq!(h.content, "Hello".to_string());
}

#[test]
fn trailing_markers_are_kept() {
    let h = try_parse_heading("# Hello #").unwrap();
    assert_eq!(h.content, "Hello #".to_string());
}

#[test]
fn heading_with_only_whitespace_text() {
    let h = try_parse_heading("#  ").unwrap();
    assert_eq!(h.depth, 1);
    assert_eq!(h.content, "".to_string());
}

#[test]
fn display_lines_keep_heading() {
    let section = vec!["# A".to_string(), "body".to_string()];
    let shown = section_display_lines(&section, false);
    assert_eq!(shown, section);
}

#[test]
fn display_lines_skip_heading() {
    let section = vec!["# A".to_string(), "body".to_string()];
    let shown = section_display_lines(&section, true);
    assert_eq!(shown, vec!["body".to_string()]);
}

#[test]
fn display_lines_of_empty_section() {
    let section: Vec<String> = Vec::new();
    assert_eq!(section_display_lines(&section, true).len(), 0);
    assert_eq!(section_display_lines(&section, false).len(), 0);
}

#[test]
fn opts_name_exactly_one_input() {
    let from_path = Opts {
        all: false,
        case_sensitive: false,
        no_print_matched_heading: false,
        pattern: "x".to_string(),
        path: Some("doc.md".to_string()),
        stdin: false,
    };
    assert!(from_path.input_is_valid());

    let from_stdin = Opts { path: None, stdin: true, ..from_path };
    assert!(from_stdin.input_is_valid());
}

#[test]
fn opts_reject_both_or_neither_input() {
    let both = Opts {
        all: false,
        case_sensitive: false,
        no_print_matched_heading: false,
        pattern: "x".to_string(),
        path: Some("doc.md".to_string()),
        stdin: true,
    };
    assert!(!both.input_is_valid());

    let neither = Opts { path: None, stdin: false, ..both };
    assert!(!neither.input_is_valid());
}
