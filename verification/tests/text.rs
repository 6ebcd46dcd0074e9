use turm::text::{
    align_left, align_right, begins_with, count_lines, cut_at_char, decimal_text, has,
    is_white_space, join_texts, same, signed_decimal_text, split_text, strip_prefix, substring,
    to_chars, trim_text, trim_text_end,
};

#[test]
fn white_space_is_what_the_standard_library_takes_for_it() {
    for code in 0..=0x10FFFFu32 {
        if let Some(c) = char::from_u32(code) {
            assert_eq!(is_white_space(c), c.is_whitespace(), "{:x}", code);
        }
    }
}

#[test]
fn trimming_agrees_with_the_standard_library() {
    for s in ["", " ", "a", " a ", "\t\u{3000}a b\u{85}\n", "\u{200b}a\u{200b}", "é \r"] {
        assert_eq!(trim_text(s), s.trim());
        assert_eq!(trim_text_end(s), s.trim_end());
    }
}

#[test]
fn splitting_agrees_with_the_standard_library() {
    for (s, sep) in [
        ("", ","),
        (",", ","),
        ("a,b,,c,", ","),
        ("no separator", "##"),
        ("a#####b", "##"),
        ("ü##ö##", "##"),
    ] {
        let expected: Vec<String> = s.split(sep).map(|p| p.to_string()).collect();
        assert_eq!(split_text(s, sep), expected);
    }
}

#[test]
fn joining_undoes_splitting() {
    for s in ["", ",", "a,b,,c,", "x"] {
        assert_eq!(join_texts(&split_text(s, ","), ","), s);
    }
    assert_eq!(join_texts(&Vec::new(), ","), "");
}

#[test]
fn searching_agrees_with_the_standard_library() {
    for (s, p) in [("", ""), ("abc", ""), ("abc", "bc"), ("abc", "abcd"), ("aab", "ab"), ("é", "e")]
    {
        assert_eq!(has(s, p), s.contains(p));
        assert_eq!(begins_with(s, p), s.starts_with(p));
        assert_eq!(same(s, p), s == p);
        assert_eq!(strip_prefix(s, p), s.strip_prefix(p).map(|r| r.to_string()));
    }
}

#[test]
fn a_text_is_cut_at_the_first_of_a_character() {
    assert_eq!(cut_at_char("12_3_4", '_'), ("12".to_string(), Some("3_4".to_string())));
    assert_eq!(cut_at_char("12_", '_'), ("12".to_string(), Some("".to_string())));
    assert_eq!(cut_at_char("12", '_'), ("12".to_string(), None));
}

#[test]
fn columns_line_up_like_formatted_text() {
    for s in ["", "a", "abc", "abcdef", "ééé"] {
        for width in 0..6usize {
            assert_eq!(align_left(s, width), format!("{:<w$.w$}", s, w = width));
            assert_eq!(align_right(s, width), format!("{:>w$.w$}", s, w = width));
        }
    }
}

#[test]
fn numbers_are_written_in_decimal() {
    for n in [0u64, 7, 9, 10, 99, 100, 65535, u64::MAX] {
        assert_eq!(decimal_text(n), n.to_string());
    }
    for n in [0i32, -1, 137, i32::MIN, i32::MAX] {
        assert_eq!(signed_decimal_text(n), n.to_string());
    }
}

#[test]
fn lines_are_counted_like_the_standard_library_does() {
    for s in ["", "\n", "a", "a\n", "a\nb", "\n\n", "a\r\nb\r\n", "a\n\n\nb"] {
        assert_eq!(count_lines(s), s.lines().count());
    }
}

#[test]
fn parts_of_a_text_are_counted_in_characters() {
    let chars = to_chars("aéb");
    assert_eq!(chars.len(), 3);
    assert_eq!(substring(&chars, 1, 3), "éb");
    assert_eq!(substring(&chars, 2, 2), "");
}
