use nightwatch_updater::json::{parse_string, skip_value, skip_ws};

fn chars(s: &str) -> usize {
    s.chars().count()
}

#[test]
fn whitespace_skipping() {
    let s = " \t\r\n x";
    assert_eq!(skip_ws(s, chars(s), 0), 5);
    assert_eq!(skip_ws(s, chars(s), 5), 5);
    let all = "   ";
    assert_eq!(skip_ws(all, chars(all), 0), 3);
}

#[test]
fn string_literals_decode() {
    let s = r#""hello""#;
    let (v, end) = parse_string(s, chars(s), 0).expect("parses");
    assert_eq!(v, "hello");
    assert_eq!(end, 7);

    let esc = r#""a\"b\\c\ndA""#;
    let (v, _) = parse_string(esc, chars(esc), 0).expect("parses");
    assert_eq!(v, "a\"b\\c\ndA");

    // Unicode escapes, including a surrogate pair.
    let uni = r#""\u0041\u044F\uD83D\uDE00""#;
    let (v, _) = parse_string(uni, chars(uni), 0).expect("parses");
    assert_eq!(v, "A\u{44F}\u{1F600}");
}

#[test]
fn bad_string_literals_are_rejected() {
    for s in [r#""unterminated"#, r#""bad\escape""#, r#""bad\u12""#, r#""lone\uD800""#, "x"] {
        assert!(parse_string(s, chars(s), 0).is_none(), "accepted {:?}", s);
    }
}

#[test]
fn values_of_every_kind_are_skipped() {
    for (s, end) in [
        ("true", 4),
        ("false", 5),
        ("null", 4),
        ("-12.5e3", 7),
        (r#""str""#, 5),
        ("[1, [2, 3], {\"a\": null}]", 24),
        ("{\"a\": [true], \"b\": {}}", 22),
    ] {
        assert_eq!(skip_value(s, chars(s), 0), Some(end), "skipping {:?}", s);
    }
}

#[test]
fn malformed_values_are_rejected() {
    for s in ["tru", "[1, ", "{\"a\"}", "{\"a\":}", "", "}", "[1,]"] {
        assert!(skip_value(s, chars(s), 0).is_none(), "accepted {:?}", s);
    }
}
