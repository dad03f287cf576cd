use rhb::cli::{parse_header, parse_method, HeaderError, MethodError};

#[test]
fn test_parse_header_ok() {
    let (k, v) = parse_header("Content-Type: application/json").unwrap();
    assert_eq!(k, "Content-Type");
    assert_eq!(v, "application/json");
}

#[test]
fn test_parse_header_invalid() {
    assert!(parse_header("no-colon-here").is_err());
}

#[test]
fn test_parse_header_empty_name() {
    assert!(parse_header(": value").is_err());
}

#[test]
fn test_parse_method_ok() {
    assert!(parse_method("GET").is_ok());
    assert!(parse_method("POST").is_ok());
}

#[test]
fn test_parse_method_invalid() {
    assert!(parse_method("FOO BAR").is_err());
    assert!(parse_method("GET\r\n").is_err());
}

#[test]
fn header_splits_at_first_colon_and_trims() {
    let (k, v) = parse_header("  X-Time :  12:30:00  ").unwrap();
    assert_eq!(k, "X-Time");
    assert_eq!(v, "12:30:00");
}

#[test]
fn header_value_may_be_empty() {
    let (k, v) = parse_header("X-Empty:").unwrap();
    assert_eq!(k, "X-Empty");
    assert_eq!(v, "");
}

#[test]
fn header_errors_are_told_apart() {
    assert_eq!(parse_header("nothing").unwrap_err(), HeaderError::MissingColon);
    assert_eq!(parse_header("   : v").unwrap_err(), HeaderError::EmptyName);
}

#[test]
fn header_trims_unicode_white_space() {
    let (k, v) = parse_header("\u{3000}Name\u{a0}:\tvalue\u{2003}").unwrap();
    assert_eq!(k, "Name");
    assert_eq!(v, "value");
}

#[test]
fn method_extension_tokens_are_accepted() {
    let m = parse_method("PURGE").unwrap();
    assert_eq!(m.as_str(), "PURGE");
    assert_eq!(parse_method("get").unwrap().as_str(), "get");
}

#[test]
fn method_empty_or_non_token_is_refused() {
    assert_eq!(parse_method("").unwrap_err(), MethodError::Invalid);
    assert_eq!(parse_method("GÉT").unwrap_err(), MethodError::Invalid);
    assert_eq!(parse_method("GET(").unwrap_err(), MethodError::Invalid);
}
