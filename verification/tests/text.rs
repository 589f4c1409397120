//! Character helpers that the rest is built from.

use codex_flow::text::{
    decimal_text, find, hex_fixed_text, hex_text, is_white_space, join, pad_right, parse_unsigned,
    same_text, split_lines, text_contains, text_ends_with, text_starts_with, trim,
};

#[test]
fn white_space_matches_the_standard_library() {
    for u in 0..=0x10ffffu32 {
        if let Some(c) = char::from_u32(u) {
            assert_eq!(is_white_space(c), c.is_whitespace(), "{u:x}");
        }
    }
}

#[test]
fn trimming_matches_the_standard_library() {
    for s in ["", " ", " a ", "\u{85}x y\u{2003}\n", "\u{200b}z", "é\t"] {
        assert_eq!(trim(s), s.trim());
    }
}

#[test]
fn numbers_match_the_standard_library() {
    for n in [0u128, 7, 10, 4294967296, u128::MAX] {
        assert_eq!(decimal_text(n), n.to_string());
    }
    for n in [0u64, 15, 16, 255, u64::MAX] {
        assert_eq!(hex_text(n), format!("{n:x}"));
        assert_eq!(hex_fixed_text(n, 16), format!("{n:016x}"));
    }
    for s in ["", "0", "007", "+9", "++9", "-1", "9x", "18446744073709551615", "18446744073709551616", "٣"] {
        assert_eq!(parse_unsigned(s, u64::MAX), s.parse::<u64>().ok(), "{s}");
        assert_eq!(parse_unsigned(s, 255).map(|n| n as u8), s.parse::<u8>().ok(), "{s}");
    }
}

#[test]
fn lines_match_the_standard_library() {
    for s in ["", "\n", "a", "a\n", "a\r\nb", "a\r", "\r\n\r\n", "a\n\nb\r\n"] {
        let want: Vec<String> = s.lines().map(str::to_string).collect();
        assert_eq!(split_lines(s), want);
    }
}

#[test]
fn searching_matches_the_standard_library() {
    for (h, p) in [("abcabc", "ca"), ("aaa", "aa"), ("", ""), ("a", ""), ("a", "ab"), ("日本", "本")] {
        assert_eq!(text_contains(h, p), h.contains(p));
        assert_eq!(text_starts_with(h, p), h.starts_with(p));
        assert_eq!(text_ends_with(h, p), h.ends_with(p));
        assert_eq!(same_text(h, p), h == p);
    }
    let h: Vec<char> = "xaab".chars().collect();
    let p: Vec<char> = "ab".chars().collect();
    assert_eq!(find(&h, &p), Some(2));
}

#[test]
fn joining_and_padding() {
    let v = vec!["a".to_string(), "b".to_string()];
    assert_eq!(join(&v, ", "), "a, b");
    assert_eq!(join(&Vec::new(), ", "), "");
    assert_eq!(pad_right("é".into(), 3), format!("{:<3}", "é"));
    assert_eq!(pad_right("long".into(), 3), "long");
}
