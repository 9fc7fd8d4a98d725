use kaito::services::ServiceKind;
use kaito::text::{
    char_is_whitespace, find, format_hex, format_i64, format_u64, from_chars, has_at, join,
    parse_bounded, parse_u64, replace, split_chars, str_eq, string_of, to_chars, trim_range,
};
use kaito::utils::escape_untrusted_text;

fn cs(s: &str) -> Vec<char> {
    s.chars().collect()
}

fn st(v: &[char]) -> String {
    v.iter().collect()
}

#[test]
fn characters_round_trip() {
    for s in ["", "a", "héllo wörld", "日本語\n\t"] {
        assert_eq!(to_chars(s), cs(s));
        assert_eq!(string_of(&cs(s)), s);
    }
    assert_eq!(from_chars(&cs("hello"), 1, 3), "el");
    assert_eq!(from_chars(&cs("hello"), 2, 2), "");
}

#[test]
fn whitespace_is_what_std_says() {
    let mut c = 0u32;
    while c <= 0x10FFFF {
        if let Some(ch) = char::from_u32(c) {
            assert_eq!(char_is_whitespace(ch), ch.is_whitespace(), "U+{:04X}", c);
        }
        c += 1;
    }
}

#[test]
fn trim_is_what_std_says() {
    for s in ["", " ", "a", "  a b  ", "\n\ta\u{a0}", "\u{3000}x\u{2003}y\u{85}", "a  "] {
        let v = cs(s);
        let (lo, hi) = trim_range(&v);
        assert_eq!(st(&v[lo..hi]), s.trim(), "{:?}", s);
    }
}

#[test]
fn find_is_what_std_says() {
    let cases = [("hello", "l", 0), ("hello", "lo", 0), ("hello", "x", 0), ("aaa", "aa", 1),
        ("abc", "", 0), ("abc", "", 3), ("abc", "abc", 0), ("abc", "abcd", 0), ("a```b```", "```", 4)];
    for (s, p, from) in cases {
        let expected = s[from..].find(p).map(|i| i + from);
        assert_eq!(find(&cs(s), &cs(p), from), expected, "{:?} {:?} {}", s, p, from);
    }
    assert_eq!(find(&cs("abc"), &cs("a"), 4), None);
    assert!(has_at(&cs("abc"), 1, &cs("bc")));
    assert!(!has_at(&cs("abc"), 2, &cs("bc")));
    assert!(has_at(&cs("abc"), 3, &cs("")));
    assert!(!has_at(&cs("abc"), 4, &cs("")));
}

#[test]
fn replace_is_what_std_says() {
    let cases = [("aaa", "aa", "b"), ("hello", "l", "LL"), ("abcabc", "bc", ""), ("", "x", "y"),
        ("@everyone@everyone", "@everyone", "@\u{200B}everyone"), ("ababa", "aba", "x")];
    for (s, p, t) in cases {
        assert_eq!(st(&replace(&cs(s), &cs(p), &cs(t))), s.replace(p, t), "{:?}", s);
    }
}

#[test]
fn split_is_what_std_says() {
    for s in ["", "a", "a\nb", "\n", "a\n", "\na", "a\n\nb", "é\nü"] {
        let expected: Vec<String> = s.split('\n').map(|l| l.to_string()).collect();
        assert_eq!(split_chars(&cs(s), '\n'), expected, "{:?}", s);
    }
}

#[test]
fn join_is_what_std_says() {
    let cases: [Vec<&str>; 4] = [vec![], vec!["a"], vec!["a", "b", "c"], vec!["", "", ""]];
    for parts in cases {
        let owned: Vec<String> = parts.iter().map(|p| p.to_string()).collect();
        assert_eq!(st(&join(&owned, &cs(", "))), owned.join(", "));
    }
}

#[test]
fn string_equality() {
    assert!(str_eq("", ""));
    assert!(str_eq("abc", "abc"));
    assert!(!str_eq("abc", "abd"));
    assert!(!str_eq("abc", "ab"));
    assert!(!str_eq("ab", "abc"));
}

#[test]
fn numbers_are_written_as_std_writes_them() {
    for n in [0u64, 1, 9, 10, 99, 100, 12345, u64::MAX, u64::MAX - 1, 1 << 32] {
        assert_eq!(st(&format_u64(n)), n.to_string());
        assert_eq!(st(&format_hex(n)), format!("{:x}", n));
    }
    for n in [0i64, 1, -1, 42, -42, i64::MAX, i64::MIN, i64::MIN + 1] {
        assert_eq!(st(&format_i64(n)), n.to_string());
    }
}

#[test]
fn numbers_are_read_as_std_reads_them() {
    let cases = ["0", "1", "007", "+5", "+", "", "-1", "-0", "12a", " 1", "1 ",
        "18446744073709551615", "18446744073709551616", "99999999999999999999999", "+0",
        "++1", "1+", "٣"];
    for s in cases {
        assert_eq!(parse_u64(&cs(s)), s.parse::<u64>().ok(), "{:?}", s);
    }
    let small = ["4294967295", "4294967296", "0", "300", "+4294967295", "42949672950"];
    for s in small {
        assert_eq!(
            parse_bounded(&cs(s), u32::MAX as u64),
            s.parse::<u32>().ok().map(|n| n as u64),
            "{:?}",
            s
        );
    }
    assert_eq!(parse_bounded(&cs("5"), 4), None);
    assert_eq!(parse_bounded(&cs("4"), 4), Some(4));
    assert_eq!(parse_bounded(&cs("0"), 0), Some(0));
    assert_eq!(parse_bounded(&cs("1"), 0), None);
}

#[test]
fn reading_back_what_was_written() {
    for n in [0u64, 7, 10, 1000, u64::MAX] {
        assert_eq!(parse_u64(&format_u64(n)), Some(n));
    }
}

#[test]
fn mass_mentions_are_broken() {
    let d = ServiceKind::Discord;
    assert_eq!(
        escape_untrusted_text(d, "hi @everyone and @here".into()),
        "hi @\u{200B}everyone and @\u{200B}here"
    );
    assert_eq!(escape_untrusted_text(d, "plain".into()), "plain");
    assert_eq!(escape_untrusted_text(d, "".into()), "");
    assert_eq!(
        escape_untrusted_text(d, "@@everyone@here@her".into()),
        "@@\u{200B}everyone@\u{200B}here@her"
    );
    let out = escape_untrusted_text(d, "@everyone @here @@here @everyon@everyone".into());
    assert!(!out.contains("@everyone"));
    assert!(!out.contains("@here"));
}
