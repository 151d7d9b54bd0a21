use pkl_bind::logger::{format_trace, format_warn, parse_i32, should_log, Logger};

#[test]
fn test_name() {
    let printed = Logger::StderrLogger.log(1, &None, format!("this is an unprinted {}", "test"));
    assert!(!printed);
}

#[test]
fn test_env_set() {
    let debug_value = Some(String::from("1"));
    let printed = Logger::StderrLogger.log(1, &debug_value, format!("this is a {} test", "printed"));
    assert!(printed);
}

#[test]
fn test_env_set_no_print() {
    let debug_value = Some(String::from("0"));
    let printed = Logger::StderrLogger.log(1, &debug_value, "this is still not to print".into());
    assert!(!printed);
}

#[test]
fn test_printed_log() {
    let printed = Logger::StderrLogger.log(0, &None, "This should print".into());
    assert!(printed);
}

#[test]
fn parse_i32_matches_standard_parse() {
    let cases: Vec<&str> = vec![
        "0",
        "1",
        "123",
        "-123",
        "+42",
        "2147483647",
        "-2147483648",
        "2147483648",
        "-2147483649",
        "00123",
        "-0",
        "",
        "+",
        "-",
        "12a",
        "a12",
        " 1",
        "9999999999999999999999",
        "-9999999999999999999999",
    ];
    for s in cases {
        let expected = s.parse::<i32>().ok();
        let got = parse_i32(&String::from(s));
        assert_eq!(got, expected, "parsing {:?}", s);
    }
}

#[test]
fn should_log_gate() {
    assert!(should_log(0, &None));
    assert!(!should_log(1, &None));
    assert!(should_log(1, &Some("1".into())));
    assert!(should_log(1, &Some("2".into())));
    assert!(!should_log(2, &Some("1".into())));
    assert!(!should_log(1, &Some("0".into())));
    // An unparsable value prints only level zero, like an absent one.
    assert!(should_log(0, &Some("yes".into())));
    assert!(!should_log(1, &Some("yes".into())));
}

#[test]
fn trace_and_warn_lines_are_exact() {
    let line = format_trace(&"hello, ".into(), &"world".into());
    assert_eq!(line, "TRACE: hello,  world");
    let line = format_warn(&"watch out".into(), &"file:///a.pkl".into());
    assert_eq!(line, "WARN: watch out file:///a.pkl");
}
