use fix_whitespace::config::Config;
use fix_whitespace::file::{check_file, cut_lines, fix_file, line_at, line_end};
use fix_whitespace::line::CheckResult;

fn base() -> Config {
    Config { expand_tabs: false, tab_size: 4, line_length: 80 }
}

fn expanding() -> Config {
    Config { expand_tabs: true, tab_size: 4, line_length: 80 }
}

fn counts(fixable: u64, unfixable: u64) -> CheckResult {
    CheckResult { fixable, unfixable }
}

fn lines(text: &str) -> Vec<String> {
    let chars: Vec<char> = text.chars().collect();
    let mut found = Vec::new();
    let mut at = 0;
    while at < chars.len() {
        let end = line_end(&chars, at);
        found.push(chars[at..end].iter().collect());
        at = end;
    }
    found
}

#[test]
fn a_text_is_cut_behind_each_terminator() {
    assert_eq!(lines(""), Vec::<String>::new());
    assert_eq!(lines("a"), vec!["a"]);
    assert_eq!(lines("a\n"), vec!["a\n"]);
    assert_eq!(lines("a\nb"), vec!["a\n", "b"]);
    assert_eq!(lines("a\r\nb\rc\nd"), vec!["a\r\n", "b\r", "c\n", "d"]);
    assert_eq!(lines("\n\n"), vec!["\n", "\n"]);
    assert_eq!(lines("\r\r\n\n\r"), vec!["\r", "\r\n", "\n", "\r"]);
    assert_eq!(lines("a\n\rb"), vec!["a\n", "\r", "b"]);
}

#[test]
fn the_counts_of_the_lines_add_up() {
    assert_eq!(check_file(&base(), ""), counts(0, 0));
    assert_eq!(check_file(&base(), "a\nb\n"), counts(0, 0));
    assert_eq!(check_file(&base(), "a \nb\r\nc\td\n"), counts(2, 1));
    assert_eq!(check_file(&expanding(), "a \nb\r\nc\td\n\te"), counts(4, 0));
    let long = format!("{}\n", "x".repeat(100));
    assert_eq!(check_file(&base(), &long.repeat(3)), counts(0, 3));
}

#[test]
fn a_lone_carriage_return_ends_a_line() {
    assert_eq!(check_file(&base(), "a\rb\rc\r"), counts(3, 0));
    let fix = fix_file(&base(), "f", "a\rb\rc\r");
    assert_eq!(fix.text, "a\nb\nc\n");
    assert_eq!(
        fix.reports,
        vec![
            "f:1: fixed mac line ending",
            "f:2: fixed mac line ending",
            "f:3: fixed mac line ending",
        ]
    );
}

#[test]
fn every_line_is_repaired_and_reported_once() {
    let text = "ok\nfoo  \r\n\tbar\tbaz\nlast\t";
    let fix = fix_file(&base(), "dir/name.txt", text);
    assert_eq!(fix.text, "ok\nfoo\n\tbar\tbaz\nlast\t");
    assert_eq!(
        fix.reports,
        vec![
            "dir/name.txt:2: fixed windows line ending, removed whitespace from end",
            "dir/name.txt:3: tabs after other characters",
            "dir/name.txt:4: tabs after other characters",
        ]
    );
    let fix = fix_file(&expanding(), "n", text);
    assert_eq!(fix.text, "ok\nfoo\n    bar    baz\nlast    ");
    assert_eq!(
        fix.reports,
        vec![
            "n:2: fixed windows line ending, removed whitespace from end",
            "n:3: expanded tabs",
            "n:4: expanded tabs",
        ]
    );
}

#[test]
fn an_empty_text_stays_empty() {
    let fix = fix_file(&base(), "f", "");
    assert_eq!(fix.text, "");
    assert!(fix.reports.is_empty());
}

#[test]
fn a_text_without_violations_is_its_own_repair() {
    for text in ["", "a\n", "a\nb\n\n\tc\n", "no newline at the end", "\u{e9}\n\n"] {
        for config in [base(), expanding()] {
            if check_file(&config, text) == counts(0, 0) {
                let fix = fix_file(&config, "f", text);
                assert_eq!(fix.text.as_bytes(), text.as_bytes());
                assert!(fix.reports.is_empty());
            }
        }
    }
    assert_eq!(check_file(&base(), "a\nb\n\n\tc\n"), counts(0, 0));
    assert_eq!(check_file(&expanding(), "a\nb\n\n\tc\n"), counts(1, 0));
}

#[test]
fn a_repaired_text_has_nothing_left_to_repair() {
    let texts = [
        "a \r\nb\t\rc\n\td \n",
        "\r\r\n\r",
        "x\ty\t\n\t\t\n  \n",
        "tail without newline \t",
        "\t",
        "a\r\n\tb",
    ];
    let configs = [
        base(),
        expanding(),
        Config { expand_tabs: true, tab_size: 0, line_length: 80 },
        Config { expand_tabs: true, tab_size: 1, line_length: 3 },
    ];
    for config in configs.iter() {
        for text in texts.iter() {
            let once = fix_file(config, "f", text);
            assert_eq!(check_file(config, &once.text).fixable, 0, "{:?} {:?}", config, text);
        }
    }
}

#[test]
fn repairing_twice_is_repairing_once() {
    let texts = [
        "a \r\nb\t\rc\n\td \n",
        "\r\r\n\r",
        "x\ty\t\n\t\t\n  \n",
        "tail without newline \t",
        "\t",
        "a\r\n\tb",
    ];
    let configs = [
        base(),
        expanding(),
        Config { expand_tabs: true, tab_size: 0, line_length: 80 },
        Config { expand_tabs: true, tab_size: 1, line_length: 3 },
    ];
    for config in configs.iter() {
        for text in texts.iter() {
            let once = fix_file(config, "f", text);
            let twice = fix_file(config, "f", &once.text);
            assert_eq!(twice.text.as_bytes(), once.text.as_bytes(), "{:?} {:?}", config, text);
        }
    }
}

#[test]
fn unfixable_violations_stay_after_the_repair() {
    let text = format!("a\tb \n{}\n", "x".repeat(81));
    assert_eq!(check_file(&base(), &text), counts(1, 2));
    let fix = fix_file(&base(), "f", &text);
    assert_eq!(check_file(&base(), &fix.text), counts(0, 2));
}

#[test]
fn the_cuts_of_a_text_are_the_ends_of_its_lines() {
    let chars: Vec<char> = "a\r\nb\rc\nd".chars().collect();
    let ends = cut_lines(&chars);
    assert_eq!(ends, vec![3, 5, 7, 8]);
    assert_eq!(line_at(&chars, &ends, 0), &['a', '\r', '\n']);
    assert_eq!(line_at(&chars, &ends, 1), &['b', '\r']);
    assert_eq!(line_at(&chars, &ends, 2), &['c', '\n']);
    assert_eq!(line_at(&chars, &ends, 3), &['d']);
    assert_eq!(cut_lines(&[]), Vec::<usize>::new());
    assert_eq!(cut_lines(&['\n']), vec![1]);
    assert_eq!(cut_lines(&['\r', '\n', '\r']), vec![2, 3]);
}

#[test]
fn the_cuts_agree_with_the_ends_found_one_by_one() {
    for text in ["", "a", "a\nb", "\r\r\n\n\r", "a\n\rb\r\n", "no end"] {
        let chars: Vec<char> = text.chars().collect();
        let ends = cut_lines(&chars);
        let mut at = 0;
        for end in ends.iter() {
            assert_eq!(*end, line_end(&chars, at));
            at = *end;
        }
        assert_eq!(at, chars.len());
    }
}
