use sidecar_core::port::{line_contains_port_token, parse_port_line, parse_u16};

#[test]
fn plain_announcement_yields_port() {
    assert_eq!(parse_port_line("SERVER_PORT=8080"), Some(8080));
}

#[test]
fn prefixed_announcement_with_trailing_token_takes_last_eq() {
    // the text after the last `=` is "1", a valid u16
    assert_eq!(parse_port_line("[INFO] SERVER_PORT=9090 extra=1"), Some(1));
}

#[test]
fn trailing_non_numeric_token_fails_parse() {
    // the text after the last `=` is "bar": parse failure, no registry change
    assert_eq!(parse_port_line("SERVER_PORT=8080 foo=bar"), None);
}

#[test]
fn log_prefixed_announcement_yields_port() {
    assert_eq!(parse_port_line("[INFO] SERVER_PORT=8080"), Some(8080));
}

#[test]
fn line_without_token_yields_nothing() {
    assert_eq!(parse_port_line("listening on 8080"), None);
    assert_eq!(parse_port_line(""), None);
}

#[test]
fn announcement_with_trailing_whitespace_is_trimmed() {
    assert_eq!(parse_port_line("SERVER_PORT=8080\n"), Some(8080));
    assert_eq!(parse_port_line("SERVER_PORT= 443 "), Some(443));
}

#[test]
fn out_of_range_value_is_rejected() {
    assert_eq!(parse_port_line("SERVER_PORT=65535"), Some(65535));
    assert_eq!(parse_port_line("SERVER_PORT=65536"), None);
    assert_eq!(parse_port_line("SERVER_PORT=99999999999999999999"), None);
}

#[test]
fn empty_suffix_is_rejected() {
    assert_eq!(parse_port_line("SERVER_PORT="), None);
}

#[test]
fn zero_overwrites_with_sentinel_value() {
    assert_eq!(parse_port_line("SERVER_PORT=0"), Some(0));
}

#[test]
fn token_scan_matches_substring_search() {
    assert!(line_contains_port_token("xxSERVER_PORT=1yy"));
    assert!(!line_contains_port_token("SERVER_PORT"));
    assert!(!line_contains_port_token("server_port=1"));
}

#[test]
fn u16_parsing_follows_std() {
    assert_eq!(parse_u16("123"), Some(123));
    assert_eq!(parse_u16("+123"), Some(123));
    assert_eq!(parse_u16("+"), None);
    assert_eq!(parse_u16(""), None);
    assert_eq!(parse_u16("12a"), None);
    assert_eq!(parse_u16("0000065535"), Some(65535));
    assert_eq!(parse_u16(" 1"), None);
}
