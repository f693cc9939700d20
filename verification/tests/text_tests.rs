use shoruichecker::text::{
    copy_range, decimal, find_first, find_last, hex, holds_any, join, json_part, select_marked,
    select_unmarked, signed_decimal, take_first,
};

fn strings(v: &[&str]) -> Vec<String> {
    v.iter().map(|s| s.to_string()).collect()
}

#[test]
fn decimal_and_hex_notation() {
    assert_eq!(decimal(0), "0");
    assert_eq!(decimal(9), "9");
    assert_eq!(decimal(10), "10");
    assert_eq!(decimal(1234567890), "1234567890");
    assert_eq!(decimal(u64::MAX), "18446744073709551615");
    assert_eq!(hex(0), "0");
    assert_eq!(hex(255), "ff");
    assert_eq!(hex(0xdeadbeef), "deadbeef");
    assert_eq!(hex(u64::MAX), "ffffffffffffffff");
    assert_eq!(signed_decimal(0), "0");
    assert_eq!(signed_decimal(-1), "-1");
    assert_eq!(signed_decimal(i32::MIN), "-2147483648");
    assert_eq!(signed_decimal(i32::MAX), "2147483647");
}

#[test]
fn join_puts_the_separator_between_parts() {
    assert_eq!(join(&strings(&[]), ", "), "");
    assert_eq!(join(&strings(&["a"]), ", "), "a");
    assert_eq!(join(&strings(&["a", "", "c"]), ", "), "a, , c");
}

#[test]
fn take_first_takes_at_most_n() {
    assert_eq!(take_first(&strings(&["a", "b", "c"]), 2), strings(&["a", "b"]));
    assert_eq!(take_first(&strings(&["a"]), 5), strings(&["a"]));
    assert_eq!(take_first(&strings(&["a"]), 0), strings(&[]));
}

#[test]
fn marked_lines_are_trimmed_and_unmarked_lines_are_kept_as_they_are() {
    let lines = strings(&["  ⚠ one  ", "two", "\t警告 three", "  four  "]);
    let markers = strings(&["⚠", "警告"]);
    assert!(holds_any("x ⚠ y", &markers));
    assert!(!holds_any("x y", &markers));
    assert!(!holds_any("⚠", &strings(&[])));
    assert_eq!(select_marked(&lines, &markers), strings(&["⚠ one", "警告 three"]));
    assert_eq!(select_unmarked(&lines, &markers), strings(&["two", "  four  "]));
}

#[test]
fn json_part_of_an_answer() {
    assert_eq!(json_part("```json\n{\"common\": [\"契約\"]}\n```"), "{\"common\": [\"契約\"]}");
    assert_eq!(json_part("前置き { a { b } c } 後書き"), "{ a { b } c }");
    assert_eq!(json_part("no braces"), "no braces");
    assert_eq!(json_part("only { open"), "only { open");
    assert_eq!(json_part("only } close"), "only } close");
    assert_eq!(json_part("} reversed {"), "} reversed {");
    assert_eq!(json_part(""), "");
    assert_eq!(find_first(b"a{b{", b'{'), Some(1));
    assert_eq!(find_last(b"a}b}c", b'}'), Some(3));
    assert_eq!(find_first(b"abc", b'{'), None);
    assert_eq!(find_last(b"", b'}'), None);
    assert_eq!(copy_range(b"abcdef", 2, 4), b"cd".to_vec());
    assert_eq!(copy_range(b"abc", 1, 1), Vec::<u8>::new());
}

#[test]
fn trimming_follows_the_unicode_white_space_set() {
    let markers = strings(&["⚠"]);
    let lines = strings(&[
        "\u{3000}\u{a0} \t⚠ a\u{2003}\u{205f}\u{85}",
        "\u{200b}⚠ b\u{200b}",
        "\u{1680}\u{2028}\u{2029}\u{202f}\u{b}\u{c}⚠\u{2000}\u{200a}",
        "\u{feff}⚠\u{180e}",
    ]);
    assert_eq!(
        select_marked(&lines, &markers),
        strings(&["⚠ a", "\u{200b}⚠ b\u{200b}", "⚠", "\u{feff}⚠\u{180e}"])
    );
}
