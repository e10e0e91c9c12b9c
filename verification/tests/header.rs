use overpower::config::{BenchmarkConfig, ConfigError};
use overpower::duration::{ParseDurationError, RunDuration};
use overpower::header::{find_colon, split_header};
use overpower::method::HttpMethods;

#[test]
fn header_splits_at_the_first_colon() {
    assert_eq!(split_header("Accept: */*"), Some(("Accept", " */*")));
    assert_eq!(split_header("k:v"), Some(("k", "v")));
    assert_eq!(split_header("Host:localhost:8080"), Some(("Host", "localhost:8080")));
}

#[test]
fn header_may_have_an_empty_side() {
    assert_eq!(split_header(":"), Some(("", "")));
    assert_eq!(split_header("X-Empty:"), Some(("X-Empty", "")));
    assert_eq!(split_header(":value"), Some(("", "value")));
}

#[test]
fn header_without_colon_is_none() {
    assert_eq!(split_header(""), None);
    assert_eq!(split_header("Accept"), None);
    assert_eq!(split_header("Accept */*"), None);
}

#[test]
fn header_may_hold_any_text() {
    assert_eq!(split_header("X-Name: Zo\u{eb}"), Some(("X-Name", " Zo\u{eb}")));
    assert_eq!(split_header("\u{fc}ber:\u{2603}"), Some(("\u{fc}ber", "\u{2603}")));
    // A full-width colon is no colon.
    assert_eq!(split_header("k\u{ff1a}v"), None);
}

#[test]
fn first_colon_is_found() {
    assert_eq!(find_colon(b"abc:def:ghi"), Some(3));
    assert_eq!(find_colon(b":"), Some(0));
    assert_eq!(find_colon(b"abc"), None);
    assert_eq!(find_colon(b""), None);
}

fn with_headers(headers: Vec<String>, threads: usize) -> Result<BenchmarkConfig, ConfigError> {
    BenchmarkConfig::new(
        HttpMethods::GET,
        "http://localhost/".to_string(),
        headers,
        None,
        RunDuration::from_secs(1),
        0,
        threads,
    )
}

#[test]
fn config_refuses_a_header_without_colon() {
    let headers = vec!["Accept: */*".to_string(), "broken".to_string()];
    assert_eq!(with_headers(headers, 1).err(), Some(ConfigError::MalformedHeader));
}

#[test]
fn config_looks_at_workers_before_headers() {
    let headers = vec!["broken".to_string()];
    assert_eq!(with_headers(headers, 0).err(), Some(ConfigError::NoWorkers));
}

#[test]
fn config_headers_all_split() {
    let headers = vec!["A: 1".to_string(), "B:2".to_string(), "A: 1".to_string()];
    let config = with_headers(headers, 2).unwrap();
    let split: Vec<(&str, &str)> =
        config.request().headers.iter().map(|line| split_header(line).unwrap()).collect();
    assert_eq!(split, vec![("A", " 1"), ("B", "2"), ("A", " 1")]);
}

#[test]
fn errors_say_what_is_wrong() {
    assert_eq!(ParseDurationError::Empty.message(), "cannot parse duration from empty string");
    assert_eq!(ParseDurationError::InvalidDigit.message(), "invalid digit found in duration");
    assert_eq!(
        ParseDurationError::PosOverflow.message(),
        "duration too large to fit in 64 bits"
    );
    assert_eq!(ConfigError::NoWorkers.message(), "at least one thread is required");
    assert_eq!(
        ConfigError::MalformedHeader.message(),
        "a header needs a colon between name and value"
    );
}
