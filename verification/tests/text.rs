use cbundl::minify::{MinifyError, Names};
use cbundl::text::{
    consume_until_whitespace, consume_whitespace, consume_while, consume_word,
    ends_with_blank_line, same_text, split_lines, text_contains, text_replace, text_starts_with,
    to_chars, to_decimal, CharClass, Cursor,
};

#[test]
fn decimal_has_no_leading_zeros() {
    assert_eq!(to_decimal(0), "0");
    assert_eq!(to_decimal(7), "7");
    assert_eq!(to_decimal(10), "10");
    assert_eq!(to_decimal(1234567890), "1234567890");
    assert_eq!(to_decimal(usize::MAX), usize::MAX.to_string());
}

#[test]
fn text_search_finds_parts_anywhere() {
    assert!(text_contains("int main(void)", "main"));
    assert!(text_contains("main", "main"));
    assert!(text_contains("xmain", "main"));
    assert!(text_contains("anything", ""));
    assert!(text_contains("", ""));
    assert!(!text_contains("mai", "main"));
    assert!(!text_contains("ma in", "main"));
    assert!(!text_contains("", "main"));
}

#[test]
fn text_prefix_is_matched_at_the_start_only() {
    assert!(text_starts_with("#include <x>", "#include"));
    assert!(text_starts_with("#include", "#include"));
    assert!(text_starts_with("abc", ""));
    assert!(!text_starts_with(" #include", "#include"));
    assert!(!text_starts_with("#incl", "#include"));
}

#[test]
fn texts_compare_by_their_characters() {
    assert!(same_text("bundle", "bundle"));
    assert!(same_text("", ""));
    assert!(!same_text("bundle", "bundles"));
    assert!(!same_text("bundle", "bundlE"));
    assert_eq!(to_chars("aä€"), vec!['a', 'ä', '€']);
}

#[test]
fn blank_line_at_the_end_is_two_line_feeds() {
    assert!(ends_with_blank_line("x\n\n"));
    assert!(ends_with_blank_line("\n\n"));
    assert!(!ends_with_blank_line("x\n"));
    assert!(!ends_with_blank_line("\n"));
    assert!(!ends_with_blank_line(""));
    assert!(!ends_with_blank_line("\n\nx"));
    assert!(!ends_with_blank_line("x\n\r\n"));
}

#[test]
fn short_names_are_numbered_in_the_order_of_asking() {
    let mut names = Names::new();
    assert_eq!(names.name_for("count"), Ok("v0".to_string()));
    assert_eq!(names.name_for("total"), Ok("v1".to_string()));
    assert_eq!(names.name_for("count"), Ok("v0".to_string()));
    assert_eq!(names.name_for(""), Ok("v2".to_string()));
    assert_eq!(names.next, 3);
    assert_eq!(names.pairs.len(), 3);
    assert_eq!(names.pairs[1].name, "total");
    assert_eq!(names.pairs[1].short, "v1");
}

#[test]
fn short_names_run_out_at_the_last_number() {
    let mut names = Names { pairs: Vec::new(), next: usize::MAX };
    assert_eq!(names.name_for("x"), Err(MinifyError::TooManyIdentifiers));
    let mut names = Names { pairs: Vec::new(), next: usize::MAX - 1 };
    assert_eq!(names.name_for("x"), Ok(format!("v{}", usize::MAX - 1)));
    assert_eq!(names.name_for("y"), Err(MinifyError::TooManyIdentifiers));
    assert_eq!(names.name_for("x"), Ok(format!("v{}", usize::MAX - 1)));
}

#[test]
fn replacing_goes_from_left_to_right_without_overlap() {
    assert_eq!(text_replace("aaaa", "aa", "b"), "bb");
    assert_eq!(text_replace("aaa", "aa", "b"), "ba");
    assert_eq!(text_replace("abcabc", "bc", ""), "aa");
    assert_eq!(text_replace("abc", "abcd", "x"), "abc");
    assert_eq!(text_replace("", "a", "x"), "");
    assert_eq!(text_replace("x = \"a\" + \"a\";", "\"a\"", "__0"), "x = __0 + __0;");
    assert_eq!(text_replace("ää€", "ä", "ae"), "aeae€");
}

#[test]
fn replacing_agrees_with_the_standard_library() {
    let texts = ["", "a", "aa", "abab", "a\nb", "ä€ä", "__STRING_LITERAL_0 __STRING_LITERAL_01"];
    let parts = ["", "a", "ab", "ba", "\n", "ä", "__STRING_LITERAL_0", "zzz"];
    let news = ["", "x", "ab", "\"a b\""];
    for text in texts {
        for part in parts {
            for new in news {
                assert_eq!(text_replace(text, part, new), text.replace(part, new));
            }
        }
    }
}

fn rest_of(cur: &mut Cursor<'_>) -> String {
    let mut out = String::new();
    while let Some(c) = cur.next() {
        out.push(c);
    }
    out
}

#[test]
fn optional_whitespace_is_skipped_where_there_is_any() {
    let chars = to_chars(" \t\u{a0}x y");
    let mut cur = Cursor::new(&chars, 0, chars.len());
    assert_eq!(consume_whitespace(&mut cur, false), Some(()));
    assert_eq!(consume_whitespace(&mut cur, false), Some(()));
    assert_eq!(rest_of(&mut cur), "x y");
}

#[test]
fn required_whitespace_takes_one_character_in_any_case() {
    let chars = to_chars("  x");
    let mut cur = Cursor::new(&chars, 0, chars.len());
    assert_eq!(consume_whitespace(&mut cur, true), Some(()));
    assert_eq!(consume_whitespace(&mut cur, true), None);
    assert_eq!(consume_whitespace(&mut cur, true), None);
    assert_eq!(rest_of(&mut cur), "");
    let chars = to_chars("xy z");
    let mut cur = Cursor::new(&chars, 0, chars.len());
    assert_eq!(consume_whitespace(&mut cur, true), None);
    assert_eq!(rest_of(&mut cur), "y z");
}

#[test]
fn runs_end_at_the_first_character_outside_the_class() {
    let chars = to_chars("implé=a.c  rest");
    let mut cur = Cursor::new(&chars, 0, chars.len());
    assert_eq!(consume_word(&mut cur), Some("implé".to_string()));
    assert_eq!(consume_word(&mut cur), None);
    assert!(cur.eat("="));
    assert!(!cur.eat("b"));
    assert_eq!(consume_until_whitespace(&mut cur), Some("a.c".to_string()));
    assert_eq!(consume_until_whitespace(&mut cur), None);
    assert_eq!(consume_while(&mut cur, CharClass::Whitespace), Some("  ".to_string()));
    assert_eq!(consume_while(&mut cur, CharClass::Except('t')), Some("res".to_string()));
    assert_eq!(rest_of(&mut cur), "t");
}

#[test]
fn cursor_stays_within_its_window() {
    let chars = to_chars("abcdef");
    let mut cur = Cursor::new(&chars, 2, 4);
    assert_eq!(consume_word(&mut cur), Some("cd".to_string()));
    assert_eq!(cur.next(), None);
}

#[test]
fn lines_end_at_line_feeds_and_lose_one_carriage_return() {
    let chars = to_chars("a\r\n\nb\r\r\nc\r");
    let bounds = split_lines(&chars);
    let lines: Vec<String> =
        bounds.iter().map(|(start, end)| chars[*start..*end].iter().collect()).collect();
    assert_eq!(lines, vec!["a", "", "b\r", "c\r"]);
    let expected: Vec<&str> = "a\r\n\nb\r\r\nc\r".lines().collect();
    assert_eq!(lines, expected);
    assert!(split_lines(&to_chars("")).is_empty());
    assert_eq!(split_lines(&to_chars("\n")), vec![(0, 0)]);
    assert_eq!(split_lines(&to_chars("x\n")), vec![(0, 1)]);
}
