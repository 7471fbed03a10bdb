use lynara::text::{
    chars_of, concat_text, decimal_string, eq_ignore_ascii_case, join_strings, last_segment, parse_u32,
    split_chars, string_of, trim, trim_end_matches,
};

fn v(s: &str) -> Vec<char> {
    s.chars().collect()
}

fn s(c: &[char]) -> String {
    c.iter().collect()
}

#[test]
fn split_keeps_empty_pieces() {
    let parts = split_chars(&v("a::b:"), ':');
    let texts: Vec<String> = parts.iter().map(|p| s(p)).collect();
    assert_eq!(texts, vec!["a", "", "b", ""]);
}

#[test]
fn split_of_empty_text_is_one_empty_piece() {
    let parts = split_chars(&v(""), ':');
    assert_eq!(parts.len(), 1);
    assert!(parts[0].is_empty());
}

#[test]
fn decimal_rendering() {
    assert_eq!(decimal_string(0), "0");
    assert_eq!(decimal_string(4096), "4096");
    assert_eq!(decimal_string(u64::MAX), "18446744073709551615");
}

#[test]
fn parse_u32_accepts_what_std_accepts() {
    for text in ["0", "17", "+5", "007", "4294967295", "", "+", "-1", "4294967296", "1a", " 1", "1_0"] {
        assert_eq!(parse_u32(&v(text)), text.parse::<u32>().ok(), "input {:?}", text);
    }
}

#[test]
fn parse_reads_back_decimal() {
    for n in [0u32, 9, 10, 21, 65535, u32::MAX] {
        let d = decimal_string(n as u64);
        assert_eq!(parse_u32(&v(&d)), Some(n));
    }
}

#[test]
fn trim_matches_std() {
    for text in ["  -Xss2M  ", "\t\n", "", "a b", "\u{3000}x\u{a0}", "\u{200b}y"] {
        assert_eq!(s(&trim(&v(text))), text.trim(), "input {:?}", text);
    }
}

#[test]
fn trim_twice_is_trim_once() {
    let once = trim(&v(" \t x y \n"));
    assert_eq!(trim(&once), once);
}

#[test]
fn trim_end_matches_removes_every_repetition() {
    assert_eq!(s(&trim_end_matches(&v("a.jar.jar"), &v(".jar"))), "a");
    assert_eq!(s(&trim_end_matches(&v("https://x//"), &v("/"))), "https://x");
    assert_eq!(s(&trim_end_matches(&v("abc"), &v(""))), "abc");
}

#[test]
fn ascii_case_insensitive_equality() {
    assert!(eq_ignore_ascii_case("A9993E36", "a9993e36"));
    assert!(!eq_ignore_ascii_case("abc", "abcd"));
    assert!(!eq_ignore_ascii_case("É", "é"));
    assert_eq!(eq_ignore_ascii_case("Straße", "STRAßE"), "Straße".eq_ignore_ascii_case("STRAßE"));
}

#[test]
fn join_with_separator() {
    let parts = vec!["a".to_string(), "b".to_string(), "c".to_string()];
    assert_eq!(join_strings(&parts, ";"), "a;b;c");
    assert_eq!(join_strings(&Vec::new(), ":"), "");
    assert_eq!(join_strings(&vec!["x".to_string()], ":"), "x");
}

#[test]
fn last_segment_after_slash() {
    assert_eq!(s(&last_segment(&v("org/lwjgl/liblwjgl.so"))), "liblwjgl.so");
    assert_eq!(s(&last_segment(&v("lwjgl.dll"))), "lwjgl.dll");
    assert_eq!(s(&last_segment(&v("dir/"))), "");
}

#[test]
fn string_round_trip() {
    assert_eq!(string_of(&chars_of("héllo")), "héllo");
    assert_eq!(concat_text("ab", "cd"), "abcd");
}
