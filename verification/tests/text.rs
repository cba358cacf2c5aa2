use ds_code::bytes::{can_keep, can_shorten, keep_output, length_in_bytes, shorten};
use ds_code::number::{i64_text, parse_i32, parse_nat, two_places_text, u64_text};
use ds_code::search::{find_text, rfind_text, split_once, strip_prefix};
use ds_code::slug::sanitize_id;
use ds_code::split::{join, split_lines, split_words};
use ds_code::text::{chars, is_blank, same_ignoring_case, string, trim_str};

fn texts(list: Vec<&[char]>) -> Vec<String> {
    list.into_iter().map(string).collect()
}

#[test]
fn white_space_is_that_of_unicode() {
    let listed = |n: u32| {
        (0x9..=0xd).contains(&n)
            || n == 0x20
            || n == 0x85
            || n == 0xa0
            || n == 0x1680
            || (0x2000..=0x200a).contains(&n)
            || n == 0x2028
            || n == 0x2029
            || n == 0x202f
            || n == 0x205f
            || n == 0x3000
    };
    for n in 0..=0x10ffffu32 {
        if let Some(c) = char::from_u32(n) {
            assert_eq!(c.is_whitespace(), listed(n), "{:#x}", n);
            assert_eq!(is_blank(&c.to_string()), listed(n));
        }
    }
}

#[test]
fn trimming_takes_white_space_from_both_ends() {
    assert_eq!(trim_str("\u{3000} a b \r\n"), "a b");
    assert_eq!(trim_str(" \t "), "");
    assert_eq!(trim_str(""), "");
}

#[test]
fn characters_lead_there_and_back() {
    let s = "a密🦀";
    assert_eq!(chars(s).len(), 3);
    assert_eq!(string(&chars(s)), s);
}

#[test]
fn lines_are_those_of_the_standard_library() {
    for s in ["", "a", "a\n", "a\r\nb", "a\r\n\r\n", "\n\n", "a\rb\r", "x\r\n\ry\r"] {
        let all = chars(s);
        let expected: Vec<String> = s.lines().map(str::to_string).collect();
        assert_eq!(texts(split_lines(&all)), expected, "{:?}", s);
    }
}

#[test]
fn words_are_those_of_the_standard_library() {
    for s in ["", "  ", "a  b", " a\tb\u{3000}c\n"] {
        let all = chars(s);
        let expected: Vec<String> = s.split_whitespace().map(str::to_string).collect();
        assert_eq!(texts(split_words(&all)), expected, "{:?}", s);
    }
}

#[test]
fn patterns_are_found_first_and_last() {
    let all = chars("密ab密ab");
    assert_eq!(find_text(&all, "ab"), Some(1));
    assert_eq!(rfind_text(&all, "ab"), Some(4));
    assert_eq!(find_text(&all, "abc"), None);
    assert_eq!(find_text(&all, ""), Some(0));
    let (a, b) = split_once(&all, "ab").unwrap();
    assert_eq!((string(a), string(b)), ("密".to_string(), "密ab".to_string()));
    assert_eq!(strip_prefix(&all, "密").map(string), Some("ab密ab".to_string()));
    assert!(strip_prefix(&all, "a").is_none());
}

#[test]
fn joining_puts_separators_between() {
    let list = vec!["a".to_string(), String::new(), "b".to_string()];
    assert_eq!(join(&list, ", "), "a, , b");
    assert_eq!(join(&Vec::new(), ","), "");
}

#[test]
fn numbers_are_written_and_read() {
    for n in [0u64, 7, 10, 909, u64::MAX] {
        assert_eq!(u64_text(n), n.to_string());
        assert_eq!(parse_nat(&chars(&n.to_string()), u64::MAX), Some(n));
    }
    for n in [i64::MIN, -10, -1, 0, i64::MAX] {
        assert_eq!(i64_text(n), n.to_string());
    }
    for s in ["", "+", "+5", "-5", "05", "5a", "2147483647", "2147483648", "-2147483648", "-2147483649", "--1"] {
        assert_eq!(parse_i32(&chars(s)), s.parse::<i32>().ok(), "{:?}", s);
        assert_eq!(parse_nat(&chars(s), u64::MAX), s.parse::<u64>().ok(), "{:?}", s);
    }
    for n in [-12i64, -5, 0, 9, 10, 123] {
        assert_eq!(two_places_text(n), format!("{:02}", n));
    }
}

#[test]
fn capitals_of_ascii_do_not_count() {
    assert!(same_ignoring_case("DeskTop", "desktop"));
    assert!(!same_ignoring_case("desktop ", "desktop"));
    assert!(!same_ignoring_case("Ä", "ä"));
}

#[test]
fn identifiers_hold_letters_digits_and_single_hyphens() {
    assert_eq!(sanitize_id("  My  Skill__v2! ", "x"), "my-skill-v2");
    assert_eq!(sanitize_id("--A--", "x"), "a");
    assert_eq!(sanitize_id("密码", "custom-skill"), "custom-skill");
    assert_eq!(sanitize_id("ÀB", "x"), "b");
}

#[test]
fn an_identifier_of_an_identifier_is_the_same() {
    for s in ["My Skill", "a--b", "X1 y2", "  -z- "] {
        let once = sanitize_id(s, "fallback");
        assert_eq!(sanitize_id(&once, "fallback"), once);
        assert!(once.split('-').all(|run| {
            !run.is_empty() && run.chars().all(|c| c.is_ascii_lowercase() || c.is_ascii_digit())
        }));
    }
    assert_eq!(sanitize_id(" - ", "Any Text"), "Any Text");
}

#[test]
fn bytes_are_those_of_utf8() {
    for s in ["", "a", "é", "密", "🦀", "aé密🦀"] {
        assert_eq!(length_in_bytes(s), s.len());
    }
}

#[test]
fn long_logs_are_cut_with_a_note() {
    let short = "x".repeat(8000);
    assert!(can_shorten(&short));
    assert_eq!(shorten(&short), short);
    let long = "x".repeat(8001);
    assert!(can_shorten(&long));
    assert_eq!(
        shorten(&long),
        format!("{}...\n[ truncated, total 8001 chars ]", "x".repeat(8000))
    );
    // a character of three bytes reaches over the limit
    let wide = "密".repeat(2667);
    assert_eq!(wide.len(), 8001);
    assert!(!can_shorten(&wide));
    let even = format!("ab{}", "密".repeat(2667));
    assert!(can_shorten(&even));
    assert_eq!(
        shorten(&even),
        format!("ab{}...\n[ truncated, total 8003 chars ]", "密".repeat(2666))
    );
}

#[test]
fn kept_output_is_the_end_within_the_limit() {
    let mut out = String::new();
    keep_output(&mut out, "abc");
    assert_eq!(out, "abc");
    keep_output(&mut out, &"x".repeat(119_997));
    assert_eq!(out.len(), 120_000);
    assert!(out.starts_with("abc"));
    keep_output(&mut out, "yz");
    assert_eq!(out.len(), 120_000);
    assert!(out.starts_with("cxx") && out.ends_with("xyz"));
    // the kept part would begin inside a character
    assert!(!can_keep(&format!("密{}", "x".repeat(119_999))));
    assert!(can_keep(&format!("密{}", "x".repeat(120_000))));
}
