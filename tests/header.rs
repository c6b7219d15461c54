use load_rs::header::{parse_header, to_header_map};
use load_rs::ConfigError;

#[test]
fn header_line_is_split_and_trimmed() {
    let (name, value) = parse_header("Content-Type: application/json").ok().unwrap();
    assert_eq!(name, "Content-Type");
    assert_eq!(value, "application/json");
    let (name, value) = parse_header("  X-Time :  12:30 ").ok().unwrap();
    assert_eq!(name, "X-Time");
    assert_eq!(value, "12:30");
}

#[test]
fn header_without_colon_is_refused() {
    let err = parse_header("NoColon").err().unwrap();
    assert_eq!(err, ConfigError::InvalidHeader("NoColon".to_string()));
    assert_eq!(err.message(), "Invalid header format: NoColon");
}

#[test]
fn header_with_bad_name_or_value_is_refused() {
    assert_eq!(
        parse_header("Bad Name: x").err().unwrap(),
        ConfigError::InvalidHeaderName("Bad Name".to_string())
    );
    assert_eq!(
        parse_header(": x").err().unwrap(),
        ConfigError::InvalidHeaderName(String::new())
    );
    assert_eq!(
        parse_header("X-A: a\u{1}b").err().unwrap(),
        ConfigError::InvalidHeaderValue("a\u{1}b".to_string())
    );
    assert!(parse_header("X-A: caf\u{e9}\tok").is_ok());
}

#[test]
fn header_lists_parse_in_order() {
    let lines = vec!["A: 1".to_string(), "B:2".to_string()];
    let pairs = to_header_map(&lines).ok().unwrap();
    assert_eq!(pairs, vec![("A".to_string(), "1".to_string()), ("B".to_string(), "2".to_string())]);
    let lines = vec!["A: 1".to_string(), "broken".to_string(), "C D: 3".to_string()];
    assert_eq!(
        to_header_map(&lines).err().unwrap(),
        ConfigError::InvalidHeader("broken".to_string())
    );
    assert_eq!(to_header_map(&Vec::new()).ok().unwrap(), Vec::new());
}

#[test]
fn header_names_need_token_characters() {
    assert!(parse_header("X_Custom~1!#$%&'*+-.^`|: v").is_ok());
    assert!(parse_header("X\"Q: v").is_err());
    assert!(parse_header("Caf\u{e9}: v").is_err());
    let long = format!("{}: v", "a".repeat(65535));
    assert!(parse_header(&long).is_ok());
    let too_long = format!("{}: v", "a".repeat(65536));
    assert!(parse_header(&too_long).is_err());
}

#[test]
fn header_trimming_removes_unicode_white_space() {
    let (name, value) = parse_header("\u{3000}X-A\t:\u{a0} v w \u{2003}").ok().unwrap();
    assert_eq!(name, "X-A");
    assert_eq!(value, "v w");
}
