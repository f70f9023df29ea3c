use fix_whitespace::config::{config_from_modeline, Config};
use fix_whitespace::modeline::{
    find_modeline, modeline_among, pick_last, unify_line_ends, PatternError, MODELINE_PATTERN,
};

fn found(text: &str) -> Option<String> {
    find_modeline(text).unwrap()
}

#[test]
fn the_pattern_is_a_regular_expression() {
    assert!(regex::Regex::new(MODELINE_PATTERN).is_ok());
    assert!(find_modeline("").is_ok());
}

#[test]
fn a_text_without_modeline_has_none() {
    assert_eq!(found(""), None);
    assert_eq!(found("fn main() {}\n"), None);
    assert_eq!(found("vim: et\n"), None);
    assert_eq!(found("# vim:et\n"), None);
    assert_eq!(found("# vim: \n"), None);
    assert_eq!(found("# vim: "), None);
    assert_eq!(found("# emacs: et\n"), None);
    assert_eq!(found("# VIM: et\n"), None);
}

#[test]
fn the_text_behind_the_colon_is_the_modeline() {
    assert_eq!(found("// ex: noet ts=4 filetype=rust\n").as_deref(), Some("noet ts=4 filetype=rust"));
    assert_eq!(found("# vim: et\n").as_deref(), Some("et"));
    assert_eq!(found("# vi: ts=2").as_deref(), Some("ts=2"));
    assert_eq!(found(" ex: x").as_deref(), Some("x"));
    assert_eq!(found("# vim:  et\n").as_deref(), Some(" et"));
    assert_eq!(found("# vim: et  \n").as_deref(), Some("et  "));
}

#[test]
fn the_modeline_is_not_the_whole_line() {
    // A wrapper that handed the line back would give the line itself.
    let line = "# vim: et ts=2";
    assert_ne!(found(line).as_deref(), Some(line));
    assert_eq!(found(line).as_deref(), Some("et ts=2"));
}

#[test]
fn the_first_keyword_of_a_line_counts() {
    assert_eq!(found("# vim: a vi: b\n").as_deref(), Some("a vi: b"));
    assert_eq!(found("x vi: ex: y\n").as_deref(), Some("ex: y"));
}

#[test]
fn every_line_is_searched() {
    assert_eq!(found("a\nb\n# vim: et\nc\nd\n").as_deref(), Some("et"));
    assert_eq!(found("# vim: et\nc\nd\n").as_deref(), Some("et"));
    assert_eq!(found("c\nd\n# vim: et").as_deref(), Some("et"));
}

#[test]
fn the_last_modeline_wins() {
    assert_eq!(found("# vim: ts=2\ncode\n# vim: ts=8\n").as_deref(), Some("ts=8"));
    assert_eq!(found("# vim: ts=2\n# ex: et\n# vi: noet\nrest\n").as_deref(), Some("noet"));
}

#[test]
fn modeline_precedence() {
    let base = Config { expand_tabs: false, tab_size: 4, line_length: 80 };
    let text = "# vim: ts=2\nsome text\n# vim: ts=8\n";
    let modeline = found(text).unwrap();
    assert_eq!(config_from_modeline(base, &modeline).tab_size, 8);
}

#[test]
fn a_modeline_ends_with_its_line_whatever_the_terminator() {
    assert_eq!(found("# vim: et\r\nx\r\n").as_deref(), Some("et"));
    assert_eq!(found("# vim: et\rx\r").as_deref(), Some("et"));
    assert_eq!(found("# vim: \r\nx").as_deref(), None);
    assert_eq!(found("# vim: \rx").as_deref(), None);
    assert_eq!(found("# vim: ts=2\n# vim: \r\n").as_deref(), Some("ts=2"));
}

#[test]
fn line_ends_become_line_feeds() {
    assert_eq!(unify_line_ends(""), "");
    assert_eq!(unify_line_ends("a"), "a");
    assert_eq!(unify_line_ends("a\r\nb\rc\nd"), "a\nb\nc\nd");
    assert_eq!(unify_line_ends("\r\r\n\n\r"), "\n\n\n\n");
    assert_eq!(unify_line_ends("a \t\r\n"), "a \t\n");
}

#[test]
fn the_last_group_that_is_present_is_picked() {
    assert_eq!(pick_last(vec![]), None);
    assert_eq!(pick_last(vec![None, None]), None);
    assert_eq!(pick_last(vec![Some("a".to_string())]).as_deref(), Some("a"));
    assert_eq!(
        pick_last(vec![Some("a".to_string()), Some("b".to_string()), None]).as_deref(),
        Some("b")
    );
    assert_eq!(pick_last(vec![Some("a".to_string()), None, None]).as_deref(), Some("a"));
}

#[test]
fn the_message_of_a_refused_pattern() {
    let error = PatternError { detail: "unclosed group".to_string() };
    assert_eq!(error.message(), "Regex error: unclosed group");
}

#[test]
fn a_search_that_went_through_gives_its_last_group() {
    assert_eq!(modeline_among(Ok(vec![])).unwrap(), None);
    assert_eq!(modeline_among(Ok(vec![None])).unwrap(), None);
    let groups = vec![Some("ts=2".to_string()), Some("ts=8".to_string())];
    assert_eq!(modeline_among(Ok(groups)).unwrap().as_deref(), Some("ts=8"));
}

#[test]
fn a_refused_pattern_gives_the_error_with_its_detail() {
    let fault = regex::Regex::new("(").unwrap_err();
    let words = fault.to_string();
    let error = modeline_among(Err(fault)).unwrap_err();
    assert_eq!(error.detail, words);
    assert_eq!(error.message(), format!("Regex error: {}", words));
}
