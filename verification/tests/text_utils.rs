use mdb::text::{
    chars_of, count_char, decimal_text, join, push_range, range_is, same_text, scan_backward,
    scan_forward, signed_decimal_text, split_commas, string_of, strip_bounds, trim, CharClass,
};

fn chars(text: &str) -> Vec<char> {
    text.chars().collect()
}

#[test]
fn characters_of_a_string() {
    assert_eq!(chars_of(""), Vec::<char>::new());
    assert_eq!(chars_of("a\u{e9}\u{1f600}"), vec!['a', '\u{e9}', '\u{1f600}']);
}

#[test]
fn strings_of_ranges() {
    let text = chars("h\u{e9}llo world");
    assert_eq!(string_of(&text, 0, 5), "h\u{e9}llo");
    assert_eq!(string_of(&text, 6, 11), "world");
    assert_eq!(string_of(&text, 3, 3), "");
    let mut out = String::from(">");
    push_range(&mut out, &text, 1, 4);
    assert_eq!(out, ">\u{e9}ll");
}

#[test]
fn ranges_are_compared_with_words() {
    let text = chars("file.name");
    assert!(range_is(&text, 0, 4, "file"));
    assert!(range_is(&text, 5, 9, "name"));
    assert!(range_is(&text, 4, 4, ""));
    assert!(!range_is(&text, 0, 4, "fill"));
    assert!(!range_is(&text, 0, 4, "fil"));
    assert!(!range_is(&text, 0, 4, "file."));
    assert!(!range_is(&text, 0, 9, "file"));
}

#[test]
fn texts_are_compared() {
    assert!(same_text("", ""));
    assert!(same_text("abc", "abc"));
    assert!(!same_text("abc", "abd"));
    assert!(!same_text("abc", "ab"));
    assert!(!same_text("ab", "abc"));
    assert!(same_text("\u{e9}", "\u{e9}"));
    assert!(!same_text("\u{e9}", "e"));
}

#[test]
fn class_membership() {
    assert!(CharClass::Space.test(' '));
    assert!(CharClass::Space.test('\n'));
    assert!(CharClass::Space.test('\u{a0}'));
    assert!(!CharClass::Space.test('a'));
    assert!(CharClass::NumberPart.test('0'));
    assert!(CharClass::NumberPart.test('9'));
    assert!(CharClass::NumberPart.test('.'));
    assert!(!CharClass::NumberPart.test('/'));
    assert!(!CharClass::NumberPart.test(':'));
    assert!(!CharClass::NumberPart.test('\u{663}'));
    assert!(CharClass::IdentPart.test('a'));
    assert!(CharClass::IdentPart.test('Z'));
    assert!(CharClass::IdentPart.test('5'));
    assert!(CharClass::IdentPart.test('_'));
    assert!(CharClass::IdentPart.test('.'));
    assert!(CharClass::IdentPart.test('\u{e9}'));
    assert!(!CharClass::IdentPart.test('-'));
    assert!(!CharClass::IdentPart.test(' '));
    assert!(CharClass::Only('x').test('x'));
    assert!(!CharClass::Only('x').test('y'));
    assert!(CharClass::Except('x').test('y'));
    assert!(!CharClass::Except('x').test('x'));
    assert!(CharClass::Either('|', '#').test('|'));
    assert!(CharClass::Either('|', '#').test('#'));
    assert!(!CharClass::Either('|', '#').test('a'));
}

#[test]
fn decimal_numbers() {
    assert_eq!(decimal_text(0), "0");
    assert_eq!(decimal_text(7), "7");
    assert_eq!(decimal_text(9), "9");
    assert_eq!(decimal_text(10), "10");
    assert_eq!(decimal_text(99), "99");
    assert_eq!(decimal_text(100), "100");
    assert_eq!(decimal_text(1234567890), "1234567890");
    assert_eq!(decimal_text(u64::MAX), "18446744073709551615");
}

#[test]
fn signed_decimal_numbers() {
    assert_eq!(signed_decimal_text(0), "0");
    assert_eq!(signed_decimal_text(5), "5");
    assert_eq!(signed_decimal_text(-1), "-1");
    assert_eq!(signed_decimal_text(-10), "-10");
    assert_eq!(signed_decimal_text(1704067200), "1704067200");
    assert_eq!(signed_decimal_text(i64::MAX), "9223372036854775807");
    assert_eq!(signed_decimal_text(i64::MIN), "-9223372036854775808");
    for n in [-12345i64, -99, -9, 9, 99, 100, 1 << 40] {
        assert_eq!(signed_decimal_text(n), n.to_string());
    }
}

#[test]
fn forward_scans() {
    let text = chars("  ab12.3,x");
    assert_eq!(scan_forward(&text, 0, CharClass::Space), 2);
    assert_eq!(scan_forward(&text, 2, CharClass::Space), 2);
    assert_eq!(scan_forward(&text, 2, CharClass::IdentPart), 8);
    assert_eq!(scan_forward(&text, 4, CharClass::NumberPart), 8);
    assert_eq!(scan_forward(&text, 0, CharClass::Except(',')), 8);
    assert_eq!(scan_forward(&text, 9, CharClass::Except(',')), 10);
    assert_eq!(scan_forward(&text, 10, CharClass::Space), 10);
    assert_eq!(scan_forward(&text, 99, CharClass::Space), 99);
    assert_eq!(scan_forward(&text, 8, CharClass::Only(',')), 9);
}

#[test]
fn backward_scans() {
    let text = chars("ab  ");
    assert_eq!(scan_backward(&text, 4, CharClass::Space), 2);
    assert_eq!(scan_backward(&text, 2, CharClass::Space), 2);
    assert_eq!(scan_backward(&text, 2, CharClass::IdentPart), 0);
    assert_eq!(scan_backward(&text, 0, CharClass::IdentPart), 0);
    assert_eq!(scan_backward(&text, 9, CharClass::Space), 9);
}

#[test]
fn stripping_both_ends() {
    assert_eq!(strip_bounds(&chars("''a'b''"), CharClass::Only('\'')), (2, 5));
    assert_eq!(strip_bounds(&chars("abc"), CharClass::Only('\'')), (0, 3));
    assert_eq!(strip_bounds(&chars("''''"), CharClass::Only('\'')), (0, 0));
    assert_eq!(strip_bounds(&chars(""), CharClass::Only('\'')), (0, 0));
}

#[test]
fn trimming_white_space() {
    assert_eq!(trim("  a b \t\n"), "a b");
    assert_eq!(trim("a"), "a");
    assert_eq!(trim(""), "");
    assert_eq!(trim(" \u{a0}\u{2003} "), "");
    assert_eq!(trim("\u{a0}x\u{a0}"), "x");
    for text in ["", " ", "a", " a", "a ", " a b ", "\t\r\n", "\u{3000}x y\u{3000}"] {
        assert_eq!(trim(text), text.trim());
    }
}

#[test]
fn counting_characters() {
    assert_eq!(count_char(&chars(""), '.'), 0);
    assert_eq!(count_char(&chars("abc"), '.'), 0);
    assert_eq!(count_char(&chars("a.b"), '.'), 1);
    assert_eq!(count_char(&chars("..a.."), '.'), 4);
}

#[test]
fn splitting_at_commas() {
    assert_eq!(split_commas(""), vec![""]);
    assert_eq!(split_commas("a"), vec!["a"]);
    assert_eq!(split_commas("a,b"), vec!["a", "b"]);
    assert_eq!(split_commas("a,"), vec!["a", ""]);
    assert_eq!(split_commas(",a"), vec!["", "a"]);
    assert_eq!(split_commas(",,"), vec!["", "", ""]);
    assert_eq!(split_commas(" a , b "), vec![" a ", " b "]);
    for text in ["", ",", "a,b,c", "a,,b", ",a,", "no comma", "\u{e9},\u{e9}"] {
        let expected: Vec<String> = text.split(',').map(|piece| piece.to_string()).collect();
        assert_eq!(split_commas(text), expected);
    }
}

#[test]
fn joining_with_a_separator() {
    let parts = |list: &[&str]| -> Vec<String> { list.iter().map(|p| p.to_string()).collect() };
    assert_eq!(join(&parts(&[]), ", "), "");
    assert_eq!(join(&parts(&["a"]), ", "), "a");
    assert_eq!(join(&parts(&["a", "b"]), ", "), "a, b");
    assert_eq!(join(&parts(&["a", "", "b"]), "-+-"), "a-+--+-b");
    assert_eq!(join(&parts(&["", ""]), "|"), "|");
    assert_eq!(join(&parts(&["a", "b", "c"]), ""), "abc");
    for list in [&["x", "y", "z"][..], &[""][..], &["", "a", ""][..]] {
        assert_eq!(join(&parts(list), " | "), list.join(" | "));
    }
}
