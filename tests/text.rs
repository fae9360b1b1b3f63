use firmware_attributes::text::{
    decimal_string, join_list, parse_i32, parse_usize, same_text, split_list,
    strip_line_terminator,
};

fn strings(v: &[&str]) -> Vec<String> {
    v.iter().map(|s| s.to_string()).collect()
}

#[test]
fn possible_values_split_in_order() {
    assert_eq!(split_list("Enabled;Disabled", ';'), strings(&["Enabled", "Disabled"]));
}

#[test]
fn split_keeps_empty_pieces() {
    assert_eq!(split_list("", ';'), strings(&[""]));
    assert_eq!(split_list(";a;", ';'), strings(&["", "a", ""]));
    assert_eq!(split_list("a:b;c", ':'), strings(&["a", "b;c"]));
}

#[test]
fn join_puts_delimiter_between_pieces() {
    assert_eq!(join_list(&strings(&["a", "b", "c"]), ';'), "a;b;c");
    assert_eq!(join_list(&strings(&["x"]), ':'), "x");
    assert_eq!(join_list(&Vec::new(), ':'), "");
    assert_eq!(join_list(&strings(&["", ""]), ':'), ":");
}

#[test]
fn split_after_join_gives_list_back() {
    let v = strings(&["HDD0", "USB", "PXE"]);
    assert_eq!(split_list(&join_list(&v, ':'), ':'), v);
}

#[test]
fn strip_removes_exactly_one_line_terminator() {
    assert_eq!(strip_line_terminator("42\n"), "42");
    assert_eq!(strip_line_terminator("42\n\n"), "42\n");
    assert_eq!(strip_line_terminator("42"), "42");
    assert_eq!(strip_line_terminator(""), "");
}

#[test]
fn parse_i32_reads_decimal() {
    assert_eq!(parse_i32("42"), Some(42));
    assert_eq!(parse_i32("+7"), Some(7));
    assert_eq!(parse_i32("-0"), Some(0));
    assert_eq!(parse_i32("-2147483648"), Some(i32::MIN));
    assert_eq!(parse_i32("2147483647"), Some(i32::MAX));
    assert_eq!(parse_i32("007"), Some(7));
}

#[test]
fn parse_i32_rejects_bad_text() {
    assert_eq!(parse_i32("2147483648"), None);
    assert_eq!(parse_i32("-2147483649"), None);
    assert_eq!(parse_i32(""), None);
    assert_eq!(parse_i32("-"), None);
    assert_eq!(parse_i32("+"), None);
    assert_eq!(parse_i32("4a"), None);
    assert_eq!(parse_i32(" 4"), None);
    assert_eq!(parse_i32("99999999999999999999999"), None);
}

#[test]
fn parse_usize_reads_decimal() {
    assert_eq!(parse_usize("128"), Some(128));
    assert_eq!(parse_usize("+3"), Some(3));
    assert_eq!(parse_usize(&usize::MAX.to_string()), Some(usize::MAX));
    assert_eq!(parse_usize("-0"), None);
    assert_eq!(parse_usize("-1"), None);
    assert_eq!(parse_usize(""), None);
    assert_eq!(parse_usize("18446744073709551616"), None);
}

#[test]
fn decimal_string_writes_like_to_string() {
    for v in [0, 5, 10, 42, 150, -1, -123, i32::MAX, i32::MIN] {
        assert_eq!(decimal_string(v), v.to_string());
        assert_eq!(parse_i32(&decimal_string(v)), Some(v));
    }
}

#[test]
fn same_text_compares_characters() {
    assert!(same_text("bios-admin", "bios-admin"));
    assert!(!same_text("bios-admin", "bios-admi"));
    assert!(!same_text("ab", "ba"));
    assert!(same_text("", ""));
}
