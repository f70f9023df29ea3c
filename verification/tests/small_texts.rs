use fix_whitespace::config::{config_from_modeline, Config};
use fix_whitespace::file::{check_file, fix_file};
use fix_whitespace::fix::{fix_line, LineText, Tag};
use fix_whitespace::line::check_line;
use fix_whitespace::process::{process_with, Outcome};

const ALPHABET: [char; 5] = ['a', ' ', '\t', '\r', '\n'];

/// Every text of at most `max` characters over the alphabet.
fn texts(max: usize) -> Vec<String> {
    let mut all = vec![String::new()];
    let mut last = vec![String::new()];
    let mut length = 0;
    while length < max {
        let mut next = Vec::new();
        for text in last.iter() {
            for c in ALPHABET.iter() {
                let mut longer = text.clone();
                longer.push(*c);
                next.push(longer);
            }
        }
        all.extend(next.iter().cloned());
        last = next;
        length += 1;
    }
    all
}

fn configs() -> Vec<Config> {
    vec![
        Config { expand_tabs: false, tab_size: 4, line_length: 80 },
        Config { expand_tabs: true, tab_size: 4, line_length: 80 },
        Config { expand_tabs: true, tab_size: 0, line_length: 80 },
        Config { expand_tabs: true, tab_size: 1, line_length: 2 },
        Config { expand_tabs: false, tab_size: 2, line_length: 3 },
    ]
}

#[test]
fn every_small_text_is_compliant_after_one_repair() {
    for config in configs().iter() {
        for text in texts(6).iter() {
            let once = fix_file(config, "f", text);
            assert_eq!(check_file(config, &once.text).fixable, 0, "{:?} {:?}", config, text);
        }
    }
}

#[test]
fn every_small_text_is_repaired_by_one_repair() {
    for config in configs().iter() {
        for text in texts(6).iter() {
            let once = fix_file(config, "f", text);
            let twice = fix_file(config, "f", &once.text);
            assert_eq!(twice.text, once.text, "{:?} {:?}", config, text);
        }
    }
}

#[test]
fn every_small_clean_text_is_left_alone() {
    for config in configs().iter() {
        for text in texts(6).iter() {
            let totals = check_file(config, text);
            let outcome = process_with(config, "f", text);
            if totals.fixable == 0 && totals.unfixable == 0 {
                assert!(matches!(outcome, Outcome::Untouched), "{:?} {:?}", config, text);
                let fix = fix_file(config, "f", text);
                assert_eq!(fix.text.as_bytes(), text.as_bytes());
                assert!(fix.reports.is_empty());
            } else if totals.fixable > 0 {
                assert!(matches!(outcome, Outcome::Rewritten { .. }), "{:?} {:?}", config, text);
            } else {
                assert!(matches!(outcome, Outcome::Reported { .. }), "{:?} {:?}", config, text);
            }
        }
    }
}

#[test]
fn every_small_line_without_violations_passes_unchanged() {
    for config in configs().iter() {
        for line in texts(5).iter() {
            let counts = check_line(config, line);
            let fix = fix_line(config, "f", 1, line);
            assert_eq!(fix.tags.is_empty(), counts.fixable == 0 && counts.unfixable == 0);
            assert_eq!(fix.report.is_none(), fix.tags.is_empty());
            assert_eq!(matches!(fix.text, LineText::Unchanged(_)), counts.fixable == 0);
            if counts.fixable == 0 {
                assert_eq!(fix.text.as_str().as_bytes(), line.as_bytes());
            } else {
                assert_ne!(fix.text.as_str(), line.as_str());
            }
        }
    }
}

#[test]
fn the_tags_of_every_small_line_name_what_was_counted() {
    for config in configs().iter() {
        if config.expand_tabs && config.tab_size == 0 {
            continue;
        }
        for line in texts(5).iter() {
            let counts = check_line(config, line);
            let fix = fix_line(config, "f", 1, line);
            let repairs = fix
                .tags
                .iter()
                .filter(|tag| {
                    matches!(
                        tag,
                        Tag::FixedMacLineEnding
                            | Tag::FixedWindowsLineEnding
                            | Tag::ExpandedTabs
                            | Tag::RemovedWhitespaceFromEnd
                    )
                })
                .count();
            assert_eq!(repairs as u64, counts.fixable, "{:?} {:?}", config, line);
        }
    }
}

#[test]
fn a_tab_of_no_width_is_counted_as_whitespace_and_leaves_none() {
    let config = Config { expand_tabs: true, tab_size: 0, line_length: 80 };
    assert_eq!(check_line(&config, "a\t\n").fixable, 2);
    let fix = fix_line(&config, "f", 1, "a\t\n");
    assert_eq!(fix.text.as_str(), "a\n");
    assert_eq!(fix.tags, vec![Tag::ExpandedTabs]);
}

#[test]
fn a_modeline_in_two_parts_is_applied_part_by_part() {
    let base = Config { expand_tabs: false, tab_size: 4, line_length: 80 };
    let parts = ["et", "noet", "ts=2", "ts=x", "", "sw=4", "ts=8"];
    for first in parts.iter() {
        for second in parts.iter() {
            let whole = format!("{} {}", first, second);
            assert_eq!(
                config_from_modeline(base, &whole),
                config_from_modeline(config_from_modeline(base, first), second)
            );
        }
    }
}

#[test]
fn every_small_line_is_settled_by_one_repair() {
    for config in configs().iter() {
        if config.expand_tabs && config.tab_size == 0 {
            continue;
        }
        for line in texts(5).iter() {
            let once = fix_line(config, "f", 1, line);
            let text = once.text.as_str().to_string();
            assert_eq!(check_line(config, &text).fixable, 0, "{:?} {:?}", config, line);
            let twice = fix_line(config, "f", 1, &text);
            assert_eq!(twice.text.as_str(), text, "{:?} {:?}", config, line);
            assert!(matches!(twice.text, LineText::Unchanged(_)));
        }
    }
}

#[test]
fn a_tab_of_no_width_can_bare_a_carriage_return() {
    let config = Config { expand_tabs: true, tab_size: 0, line_length: 80 };
    let once = fix_line(&config, "f", 1, "a\r\t");
    assert_eq!(once.text.as_str(), "a\r");
    assert_eq!(check_line(&config, "a\r").fixable, 1);
    // Cut from a text, the carriage return ends a line of its own.
    let fixed = fix_file(&config, "f", "a\r\t");
    assert_eq!(fixed.text, "a\n");
    assert_eq!(check_file(&config, &fixed.text).fixable, 0);
}
