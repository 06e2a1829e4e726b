use untis_calendar::text::{
    chars_of, contains, decimal, find_from, glue, join, matches_at, natural, pair, replace,
    split, starts_with,
};

fn strings(parts: &[&str]) -> Vec<String> {
    parts.iter().map(|p| p.to_string()).collect()
}

#[test]
fn split_as_std_does() {
    for (hay, pat) in [
        ("a,b,c", ","),
        ("", ","),
        (",", ","),
        ("a,,b,", ","),
        ("aaa", "aa"),
        ("state=1&nonce=2", "state="),
        ("no match", "xyz"),
        ("\u{2795} x \u{2795}", "\u{2795}"),
    ] {
        let expected: Vec<String> = hay.split(pat).map(|p| p.to_string()).collect();
        assert_eq!(split(hay, pat), expected);
    }
}

#[test]
fn split_exact_pieces() {
    assert_eq!(split("a,b,,c", ","), strings(&["a", "b", "", "c"]));
    assert_eq!(split("abc", ","), strings(&["abc"]));
    assert_eq!(split("", ","), strings(&[""]));
}

#[test]
fn replace_as_std_does() {
    for (hay, pat, with) in [
        ("a\nb\n", "\n", "\\n"),
        ("2024-03-08", "-", ""),
        ("x%3Dy%3D", "%3D", "="),
        ("aaa", "aa", "b"),
        ("nothing", ";", "\\;"),
    ] {
        assert_eq!(replace(hay, pat, with), hay.replace(pat, with));
    }
    assert_eq!(replace("a,b", ",", "\\,"), "a\\,b");
}

#[test]
fn join_puts_the_separator_between() {
    assert_eq!(join(&strings(&["a", "b", "c"]), "\n"), "a\nb\nc");
    assert_eq!(join(&strings(&["a"]), "\n"), "a");
    assert_eq!(join(&strings(&[]), "\n"), "");
}

#[test]
fn searching() {
    let hay = chars_of("hello world");
    assert_eq!(hay.len(), 11);
    assert_eq!(find_from(&hay, &chars_of("o"), 0), Some(4));
    assert_eq!(find_from(&hay, &chars_of("o"), 5), Some(7));
    assert_eq!(find_from(&hay, &chars_of("o"), 8), None);
    assert_eq!(find_from(&hay, &chars_of("world!"), 0), None);
    assert!(matches_at(&hay, &chars_of("world"), 6));
    assert!(!matches_at(&hay, &chars_of("world"), 7));
    assert!(contains("ab default cd", "default"));
    assert!(!contains("defaul", "default"));
    assert!(starts_with("<!doctype html><html>", "<!doctype html>"));
    assert!(!starts_with(" <!doctype html>", "<!doctype html>"));
}

#[test]
fn pieces_count_characters() {
    assert_eq!(split("\u{2795} MA", " "), strings(&["\u{2795}", "MA"]));
    assert_eq!(split("a\u{1F504}b\u{1F504}", "\u{1F504}"), strings(&["a", "b", ""]));
}

#[test]
fn empty_pattern_changes_nothing() {
    assert_eq!(split("abc", ""), strings(&["abc"]));
    assert_eq!(replace("abc", "", "x"), "abc");
}

#[test]
fn small_helpers() {
    assert_eq!(glue("l", "MA"), "lMA");
    assert_eq!(pair("a", "b".to_string()), ("a".to_string(), "b".to_string()));
}

#[test]
fn decimal_as_to_string_does() {
    for n in [0, 7, 10, 42, 1708, -1, -1908, 20240308, i64::MAX, i64::MIN, i64::MIN + 1] {
        assert_eq!(decimal(n), n.to_string());
    }
    assert_eq!(decimal(-1908), "-1908");
    assert_eq!(natural(0), "0");
    assert_eq!(natural(u64::MAX), u64::MAX.to_string());
}
