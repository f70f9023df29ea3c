use fix_whitespace::config::Config;
use fix_whitespace::line::{check_line, classify, findings, CheckResult, Findings, Terminator};
use fix_whitespace::scan::scan_line;

fn base() -> Config {
    Config { expand_tabs: false, tab_size: 4, line_length: 80 }
}

fn expanding() -> Config {
    Config { expand_tabs: true, tab_size: 4, line_length: 80 }
}

fn counts(fixable: u64, unfixable: u64) -> CheckResult {
    CheckResult { fixable, unfixable }
}

#[test]
fn default_config_is_the_standard_one() {
    assert_eq!(Config::default(), base());
}

#[test]
fn clean_line_has_no_violation() {
    assert_eq!(check_line(&base(), "foo\n"), counts(0, 0));
    assert_eq!(check_line(&base(), "\tfoo\n"), counts(0, 0));
    assert_eq!(check_line(&base(), "foo"), counts(0, 0));
}

#[test]
fn empty_and_terminator_only_lines_are_clean() {
    assert_eq!(check_line(&base(), ""), counts(0, 0));
    assert_eq!(check_line(&base(), "\n"), counts(0, 0));
    assert_eq!(check_line(&expanding(), ""), counts(0, 0));
    assert_eq!(check_line(&expanding(), "\n"), counts(0, 0));
}

#[test]
fn tab_is_fixable_where_tabs_are_expanded() {
    assert_eq!(check_line(&expanding(), "a\tb\n"), counts(1, 0));
    assert_eq!(check_line(&expanding(), "\ta\n"), counts(1, 0));
    assert_eq!(check_line(&expanding(), "\t\ta\tb\tc\n"), counts(1, 0));
}

#[test]
fn tab_after_text_is_unfixable_where_tabs_are_kept() {
    assert_eq!(check_line(&base(), "\t\ta\tb\n"), counts(0, 1));
    assert_eq!(check_line(&base(), "a\tb\n"), counts(0, 1));
    assert_eq!(check_line(&base(), "\t\ta b\n"), counts(0, 0));
    assert_eq!(check_line(&base(), " \tb\n"), counts(0, 1));
}

#[test]
fn leading_tabs_alone_are_no_violation() {
    assert_eq!(check_line(&base(), "\t\t\tx\n"), counts(0, 0));
    assert_eq!(check_line(&base(), "\t"), counts(0, 0));
}

#[test]
fn mac_ending_is_fixable() {
    assert_eq!(check_line(&base(), "foo\r"), counts(1, 0));
    assert_eq!(check_line(&base(), "\r"), counts(1, 0));
}

#[test]
fn windows_ending_is_counted_once() {
    assert_eq!(check_line(&base(), "foo\r\n"), counts(1, 0));
    assert_eq!(check_line(&base(), "\r\n"), counts(1, 0));
}

#[test]
fn trailing_whitespace_is_fixable() {
    assert_eq!(check_line(&base(), "foo   \n"), counts(1, 0));
    assert_eq!(check_line(&base(), "foo \r"), counts(2, 0));
    assert_eq!(check_line(&base(), "foo \r\n"), counts(2, 0));
    assert_eq!(check_line(&base(), " \n"), counts(1, 0));
    assert_eq!(check_line(&base(), "foo\u{a0}\n"), counts(1, 0));
}

#[test]
fn whitespace_at_the_end_of_an_unterminated_line_is_not_counted() {
    assert_eq!(check_line(&base(), "foo   "), counts(0, 0));
    assert_eq!(check_line(&base(), " "), counts(0, 0));
}

#[test]
fn a_line_of_one_character_has_no_trailing_whitespace() {
    assert_eq!(check_line(&base(), " "), counts(0, 0));
    assert_eq!(check_line(&base(), "\n"), counts(0, 0));
    assert_eq!(check_line(&base(), "\r"), counts(1, 0));
}

#[test]
fn several_rules_fire_on_one_line() {
    assert_eq!(check_line(&expanding(), "a\t \r\n"), counts(3, 0));
    assert_eq!(check_line(&expanding(), "\t\r"), counts(3, 0));
    let long = format!("\ta\t{} \r", "x".repeat(90));
    assert_eq!(check_line(&base(), &long), counts(2, 2));
}

#[test]
fn visible_length_counts_the_line_without_one_character() {
    let eighty = format!("{}\n", "x".repeat(80));
    let eighty_one = format!("{}\n", "x".repeat(81));
    assert_eq!(check_line(&base(), &eighty), counts(0, 0));
    assert_eq!(check_line(&base(), &eighty_one), counts(0, 1));
}

#[test]
fn visible_length_counts_a_tab_as_tab_size_columns() {
    // 1 tab of 4 columns and 76 letters: 80 columns.
    let fits = format!("\t{}\n", "x".repeat(76));
    // 1 tab of 4 columns and 77 letters: 81 columns.
    let over = format!("\t{}\n", "x".repeat(77));
    assert_eq!(check_line(&base(), &fits), counts(0, 0));
    assert_eq!(check_line(&base(), &over), counts(0, 1));
    let wide = Config { expand_tabs: false, tab_size: 8, line_length: 80 };
    // 10 tabs of 8 columns: 80 columns; one letter more: 81.
    assert_eq!(check_line(&wide, &format!("{}\n", "\t".repeat(10))), counts(1, 0));
    assert_eq!(check_line(&wide, &format!("{}x\n", "\t".repeat(10))), counts(0, 1));
    assert_eq!(check_line(&wide, &format!("{}x", "\t".repeat(10))), counts(0, 0));
}

#[test]
fn visible_length_counts_characters_not_bytes() {
    let line = format!("{}\n", "\u{e9}".repeat(80));
    assert_eq!(check_line(&base(), &line), counts(0, 0));
    let line = format!("{}\n", "\u{e9}".repeat(81));
    assert_eq!(check_line(&base(), &line), counts(0, 1));
}

#[test]
fn visible_length_is_never_negative() {
    let tight = Config { expand_tabs: false, tab_size: 4, line_length: 0 };
    assert_eq!(check_line(&tight, ""), counts(0, 0));
    assert_eq!(check_line(&tight, "\n"), counts(0, 0));
    assert_eq!(check_line(&tight, "a\n"), counts(0, 1));
    let flat = Config { expand_tabs: false, tab_size: 0, line_length: 0 };
    assert_eq!(check_line(&flat, "\tx"), counts(0, 0));
    assert_eq!(check_line(&flat, "\txy"), counts(0, 1));
    assert_eq!(check_line(&flat, "\t\t"), counts(0, 0));
    assert_eq!(check_line(&flat, "\t"), counts(0, 0));
}

#[test]
fn a_huge_tab_size_does_not_overflow() {
    let huge = Config { expand_tabs: false, tab_size: usize::MAX, line_length: usize::MAX };
    assert_eq!(check_line(&huge, "x\n"), counts(0, 0));
    assert_eq!(check_line(&huge, "\t"), counts(0, 0));
    assert_eq!(check_line(&huge, "\tx"), counts(0, 0));
    assert_eq!(check_line(&huge, "\txy"), counts(0, 1));
    assert_eq!(check_line(&huge, "\t\t\tx\n"), counts(0, 1));
}

#[test]
fn counts_add_up_field_by_field() {
    let mut total = CheckResult::new();
    assert_eq!(total, counts(0, 0));
    assert!(total.is_clean());
    total.add_assign(counts(2, 1));
    total.add_assign(counts(0, 0));
    total.add_assign(counts(3, 4));
    assert_eq!(total, counts(5, 5));
    assert!(!total.is_clean());
}

#[test]
fn counts_stay_at_the_greatest_value() {
    let mut total = counts(u64::MAX - 1, 7);
    total.add_assign(counts(5, u64::MAX));
    assert_eq!(total, counts(u64::MAX, u64::MAX));
}

#[test]
fn a_string_and_its_characters_are_classified_alike() {
    let alphabet = ['a', ' ', '\t', '\r', '\n', '\u{a0}'];
    let mut lines = vec![String::new()];
    let mut last = vec![String::new()];
    for _ in 0..5 {
        let mut next = Vec::new();
        for line in last.iter() {
            for c in alphabet.iter() {
                let mut longer = line.clone();
                longer.push(*c);
                next.push(longer);
            }
        }
        lines.extend(next.iter().cloned());
        last = next;
    }
    let configs = [
        base(),
        expanding(),
        Config { expand_tabs: false, tab_size: 0, line_length: 2 },
        Config { expand_tabs: true, tab_size: 3, line_length: 4 },
    ];
    for config in configs.iter() {
        for line in lines.iter() {
            let chars: Vec<char> = line.chars().collect();
            assert_eq!(scan_line(config, line), findings(config, &chars), "{:?}", line);
            assert_eq!(check_line(config, line), classify(config, &chars), "{:?}", line);
        }
    }
}

#[test]
fn what_is_found_on_a_line() {
    let found = scan_line(&base(), "\ta\tb \r\n");
    assert_eq!(
        found,
        Findings {
            has_tab: true,
            tab_after_text: true,
            terminator: Terminator::CrLf,
            trailing_whitespace: true,
            too_long: false,
        }
    );
    assert_eq!(found.counts(&base()), counts(2, 1));
    assert_eq!(found.counts(&expanding()), counts(3, 0));
    assert_eq!(scan_line(&base(), "").terminator, Terminator::Missing);
    assert_eq!(scan_line(&base(), "a").terminator, Terminator::Missing);
    assert_eq!(scan_line(&base(), "a\n").terminator, Terminator::Lf);
    assert_eq!(scan_line(&base(), "a\r").terminator, Terminator::Cr);
    assert_eq!(scan_line(&base(), "\n\r").terminator, Terminator::Cr);
    assert_eq!(scan_line(&base(), "\r\n").terminator, Terminator::CrLf);
}
