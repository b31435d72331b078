use sus::text::{contains_sub, find_sub, first_token_str, split_lines, str_eq, trim};

#[test]
fn trim_strips_surrounding_whitespace() {
    assert_eq!(trim("  Normal \t"), "Normal");
    assert_eq!(trim("\t\r Iconic"), "Iconic");
    assert_eq!(trim("bare"), "bare");
    assert_eq!(trim("   \t  "), "");
    assert_eq!(trim(""), "");
    assert_eq!(trim(" a b "), "a b");
}

#[test]
fn find_sub_returns_the_first_occurrence() {
    assert_eq!(find_sub("window state: Normal", "state:"), Some(7));
    assert_eq!(find_sub("aaa", "aa"), Some(0));
    assert_eq!(find_sub("abc", "d"), None);
    assert_eq!(find_sub("abc", ""), Some(0));
    assert_eq!(find_sub("", "abc"), None);
}

#[test]
fn contains_sub_agrees_with_find_sub() {
    assert!(contains_sub("a = b", "="));
    assert!(!contains_sub("a b", "="));
}

#[test]
fn split_lines_keeps_every_line() {
    let lines = split_lines("a\nb\nc");
    assert_eq!(lines, vec!["a", "b", "c"]);
    let lines = split_lines("a\nb\n");
    assert_eq!(lines, vec!["a", "b", ""]);
    let lines = split_lines("");
    assert_eq!(lines, vec![""]);
    let lines = split_lines("\n");
    assert_eq!(lines, vec!["", ""]);
}

#[test]
fn first_token_skips_leading_whitespace() {
    assert_eq!(first_token_str("0x01 host title"), "0x01");
    assert_eq!(first_token_str("  \t0x02 host"), "0x02");
    assert_eq!(first_token_str("solo"), "solo");
    assert_eq!(first_token_str("   "), "");
    assert_eq!(first_token_str(""), "");
}

#[test]
fn str_eq_compares_characters() {
    assert!(str_eq("Normal", "Normal"));
    assert!(!str_eq("Normal", "Iconic"));
    assert!(!str_eq("Normal", "Normal "));
}

#[test]
fn enumerator_takes_first_field_of_each_line() {
    let ids = sus::enumerate::list_window_ids(
        "0x01 0 host Terminal\n0x02 0 host Browser\n\n   \n0x03 0 host Editor",
    );
    assert_eq!(ids, vec!["0x01", "0x02", "0x03"]);
}
