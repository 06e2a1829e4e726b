use untis_calendar::routes::{parse_integer, route, trim_leading, Route};

#[test]
fn known_routes() {
    assert_eq!(route("GET", "/", ""), Route::Listing);
    assert_eq!(route("GET", "/", "ignored"), Route::Listing);
    assert_eq!(
        route("GET", "/ics", "MA,DE"),
        Route::Groups { names: vec!["MA".to_string(), "DE".to_string()] }
    );
    assert_eq!(route("GET", "/ics", ""), Route::Groups { names: vec![String::new()] });
    assert_eq!(route("GET", "/t", "Lovelace"), Route::Teacher { name: "Lovelace".to_string() });
    assert_eq!(route("GET", "/ics/-1908", ""), Route::Key { key: -1908 });
    assert_eq!(route("GET", "/ics/1908", "MA"), Route::Key { key: 1908 });
    assert_eq!(route("POST", "/id", ""), Route::SessionToken);
}

#[test]
fn key_that_is_no_integer_is_zero() {
    assert_eq!(route("GET", "/ics/", ""), Route::Key { key: 0 });
    assert_eq!(route("GET", "/ics/abc", ""), Route::Key { key: 0 });
    assert_eq!(route("GET", "/ics/12/3", ""), Route::Key { key: 0 });
    assert_eq!(route("GET", "/ics//ics/5", ""), Route::Key { key: 5 });
    assert_eq!(route("GET", "/ics/99999999999999999999", ""), Route::Key { key: 0 });
}

#[test]
fn anything_else_is_nothing() {
    assert_eq!(route("GET", "/id", ""), Route::Nothing);
    assert_eq!(route("GET", "/icsx", ""), Route::Nothing);
    assert_eq!(route("POST", "/", ""), Route::Nothing);
    assert_eq!(route("POST", "/ics/5", ""), Route::Nothing);
    assert_eq!(route("PUT", "/id", ""), Route::Nothing);
    assert_eq!(route("get", "/", ""), Route::Nothing);
}

#[test]
fn integers_as_parse_reads_them() {
    for text in [
        "0",
        "7",
        "-7",
        "+7",
        "007",
        "-0",
        "",
        "-",
        "+",
        "--1",
        "1-",
        " 1",
        "1 ",
        "12a",
        "9223372036854775807",
        "9223372036854775808",
        "-9223372036854775808",
        "-9223372036854775809",
        "18446744073709551616",
        "000000000000000000000000000001",
        "١",
    ] {
        assert_eq!(parse_integer(text), text.parse::<i64>().ok());
    }
    assert_eq!(parse_integer("-1908"), Some(-1908));
    assert_eq!(parse_integer("x"), None);
}

#[test]
fn leading_copies_are_taken_off() {
    for (hay, pat) in [
        ("/ics/5", "/ics/"),
        ("/ics//ics/5", "/ics/"),
        ("/ics", "/ics/"),
        ("", "/ics/"),
        ("aaa", "a"),
        ("aaab", "aa"),
    ] {
        assert_eq!(trim_leading(hay, pat), hay.trim_start_matches(pat));
    }
    assert_eq!(trim_leading("/ics/-1908", "/ics/"), "-1908");
}
