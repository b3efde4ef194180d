use signal_pager::version::{parse_version, version_key};

#[test]
fn parses_plain_decimal() {
    assert_eq!(parse_version("0"), Some(0));
    assert_eq!(parse_version("42"), Some(42));
    assert_eq!(parse_version("0012"), Some(12));
    assert_eq!(parse_version("+7"), Some(7));
    assert_eq!(parse_version("4294967295"), Some(u32::MAX));
}

#[test]
fn rejects_other_keys() {
    assert_eq!(parse_version(""), None);
    assert_eq!(parse_version("+"), None);
    assert_eq!(parse_version("-1"), None);
    assert_eq!(parse_version("12a"), None);
    assert_eq!(parse_version("state"), None);
    assert_eq!(parse_version("4294967296"), None);
    assert_eq!(parse_version("99999999999999999999"), None);
}

#[test]
fn key_round_trip() {
    assert_eq!(version_key(0), "0");
    assert_eq!(version_key(1234), "1234");
    for v in [0u32, 9, 10, 101, 65536, u32::MAX] {
        assert_eq!(parse_version(&version_key(v)), Some(v));
    }
}
