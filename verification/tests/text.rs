use aerial::text::{compare_text, decimal_string, is_blank, is_white_space, numbered_record_lines, same_text, NumberedLine, TextOrder};

#[test]
fn blank_lines_are_skipped_and_numbers_kept() {
    let lines: Vec<String> = vec!["{\"a\":1}", "", "  \t", "{\"b\":2}", "\u{3000}"].into_iter().map(String::from).collect();
    assert_eq!(
        numbered_record_lines(&lines),
        vec![
            NumberedLine { number: 1, text: "{\"a\":1}".into() },
            NumberedLine { number: 4, text: "{\"b\":2}".into() },
        ]
    );
}

#[test]
fn white_space_matches_std() {
    for c in ['\t', '\n', '\u{b}', '\u{c}', '\r', ' ', '\u{85}', '\u{a0}', '\u{1680}', '\u{2000}', '\u{200a}', '\u{2028}', '\u{2029}', '\u{202f}', '\u{205f}', '\u{3000}', 'a', '\u{200b}', '\u{180e}', '0'] {
        assert_eq!(is_white_space(c), c.is_whitespace(), "{c:?}");
    }
    assert!(is_blank(" \r\n"));
    assert!(!is_blank(" x "));
    assert!(is_blank(""));
}

#[test]
fn text_order_matches_str_order() {
    let words = ["", "a", "ab", "b", "B", "é", "z", "aé"];
    for x in words {
        for y in words {
            let expected = match x.cmp(y) {
                std::cmp::Ordering::Less => TextOrder::Before,
                std::cmp::Ordering::Equal => TextOrder::Same,
                std::cmp::Ordering::Greater => TextOrder::After,
            };
            assert_eq!(compare_text(x, y), expected, "{x:?} {y:?}");
        }
    }
    assert!(same_text("abc", "abc"));
    assert!(!same_text("abc", "abd"));
}

#[test]
fn decimal_text_of_counts() {
    assert_eq!(decimal_string(0), "0");
    assert_eq!(decimal_string(7), "7");
    assert_eq!(decimal_string(120), "120");
    assert_eq!(decimal_string(18446744073709551615), "18446744073709551615");
}
