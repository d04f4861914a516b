use std::time::Duration;

use cmish::error::CmisError;
use cmish::text::{sort_strings, str_eq_ignore_ascii_case, u64_to_string, usize_to_string};
use cmish::util::{duration_to_string, seconds_to_string};

#[test]
fn decimal_rendering() {
    assert_eq!(u64_to_string(0), "0");
    assert_eq!(u64_to_string(7), "7");
    assert_eq!(u64_to_string(1234567890), "1234567890");
    assert_eq!(u64_to_string(u64::MAX), u64::MAX.to_string());
    assert_eq!(usize_to_string(100), "100");
}

#[test]
fn hours_minutes_seconds() {
    assert_eq!(seconds_to_string(0), "0h 00m 00s");
    assert_eq!(seconds_to_string(3725), "1h 02m 05s");
    assert_eq!(seconds_to_string(36000 + 59 * 60 + 59), "10h 59m 59s");
    assert_eq!(duration_to_string(&Duration::from_secs(61)), "0h 01m 01s");
    assert_eq!(duration_to_string(&Duration::from_millis(1999)), "0h 00m 01s");
}

#[test]
fn ascii_case_insensitive_equality() {
    assert!(str_eq_ignore_ascii_case("Hello", "hELLO"));
    assert!(!str_eq_ignore_ascii_case("Hello", "Hell"));
    assert!(str_eq_ignore_ascii_case("\u{e4}", "\u{e4}"));
    assert!(!str_eq_ignore_ascii_case("\u{e4}", "\u{c4}"));
}

#[test]
fn sorting_strings() {
    let v = vec!["b".to_string(), "a".to_string(), "B".to_string(), "ab".to_string(), "a".to_string()];
    assert_eq!(sort_strings(v), vec!["B", "a", "a", "ab", "b"]);
    assert_eq!(sort_strings(vec![]), Vec::<String>::new());
}

#[test]
fn error_messages() {
    let cases = vec![
        (CmisError::NotConnected, "not connected"),
        (CmisError::NotImplemented, "not implemented"),
        (CmisError::MissingPath, "missing path attribute: cmis:path or path_tokens"),
        (CmisError::NoConnectionConfig("c".to_string()), "No config for connection c"),
        (CmisError::RawParse, "raw parsing error"),
        (
            CmisError::HttpStatus { status: "401 Unauthorized".to_string(), body: "no".to_string() },
            "401 Unauthorized:\nno",
        ),
        (CmisError::Other("x".to_string()), "x"),
        (CmisError::ConnectionNotFound("c".to_string()), "connection configuration 'c' not found"),
        (
            CmisError::RepositoryNotFound { repository: "r".to_string(), connection: "c".to_string() },
            "repository 'r' not found in connection 'c'",
        ),
    ];
    for (e, m) in cases {
        assert_eq!(e.message(), m);
    }
}

#[test]
fn decimal_reads_back() {
    for n in [0u64, 9, 10, 99, 100, 4096, 18_446_744_073_709_551_615] {
        let s = u64_to_string(n);
        assert!(s.chars().all(|c| c.is_ascii_digit()));
        assert_eq!(s.parse::<u64>().unwrap(), n);
    }
}

#[test]
fn hms_text_recombines_to_seconds() {
    for secs in [0u64, 59, 60, 3599, 3600, 86399, 90061] {
        let text = seconds_to_string(secs);
        let parts: Vec<u64> = text
            .split(' ')
            .map(|p| p[..p.len() - 1].parse::<u64>().unwrap())
            .collect();
        assert_eq!(parts[0] * 3600 + parts[1] * 60 + parts[2], secs);
        assert!(parts[1] < 60 && parts[2] < 60);
    }
}

#[test]
fn case_insensitive_equality_is_symmetric_and_transitive() {
    assert!(str_eq_ignore_ascii_case("abc", "abc"));
    assert_eq!(str_eq_ignore_ascii_case("aBc", "AbC"), str_eq_ignore_ascii_case("AbC", "aBc"));
    assert!(str_eq_ignore_ascii_case("aBc", "ABC") && str_eq_ignore_ascii_case("ABC", "abc"));
    assert!(str_eq_ignore_ascii_case("aBc", "abc"));
}
