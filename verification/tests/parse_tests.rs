use invoker::cli_args::{parse_id_range, IdRange, ParseIdRangeError};
use invoker::error::Error;
use invoker::path_resolver::path_join;
use invoker::sandbox::{access_ok, default_host_mounts, widen_mode, without_dots, SharedItemKind};
use invoker::server::{parse_listen_address, ListenAddress};
use invoker::text::{parse_u16, parse_u32, u64_to_dec, u64_to_hex_pad, uid_hyphenated};

#[test]
fn id_range_parses() {
    assert_eq!(parse_id_range("100:200"), Ok(IdRange { low: 100, high: 200 }));
}

#[test]
fn id_range_needs_exactly_one_colon() {
    assert_eq!(parse_id_range("100"), Err(ParseIdRangeError::UnexpectedColonCount));
    assert_eq!(parse_id_range("1:2:3"), Err(ParseIdRangeError::UnexpectedColonCount));
}

#[test]
fn id_range_rejects_bad_numbers() {
    assert_eq!(parse_id_range("a:2"), Err(ParseIdRangeError::BadNumber));
    assert_eq!(parse_id_range("1:"), Err(ParseIdRangeError::BadNumber));
}

#[test]
fn id_range_needs_low_below_high() {
    assert_eq!(parse_id_range("5:5"), Err(ParseIdRangeError::BadRange));
    assert_eq!(parse_id_range("9:2"), Err(ParseIdRangeError::BadRange));
}

#[test]
fn listen_address_tcp() {
    match parse_listen_address("tcp://0.0.0.0:8000").unwrap() {
        ListenAddress::Tcp { host, port } => {
            assert_eq!(host, "0.0.0.0");
            assert_eq!(port, 8000);
        }
        _ => panic!("expected a tcp address"),
    }
}

#[test]
fn listen_address_unix() {
    match parse_listen_address("unix:/run/invoker.sock").unwrap() {
        ListenAddress::Uds(path) => assert_eq!(path, "/run/invoker.sock"),
        _ => panic!("expected a unix socket address"),
    }
}

#[test]
fn listen_address_rejects_other_schemes() {
    assert!(matches!(parse_listen_address("http://x:1"), Err(Error::BadListenAddress)));
    assert!(matches!(parse_listen_address("tcp://nohost"), Err(Error::BadListenAddress)));
    assert!(matches!(parse_listen_address("tcp://h:70000"), Err(Error::BadListenAddress)));
}

#[test]
fn decimal_rendering() {
    assert_eq!(u64_to_dec(0), "0");
    assert_eq!(u64_to_dec(42), "42");
    assert_eq!(u64_to_dec(18446744073709551615), "18446744073709551615");
}

#[test]
fn decimal_parsing() {
    assert_eq!(parse_u32("0"), Some(0));
    assert_eq!(parse_u32("+17"), Some(17));
    assert_eq!(parse_u32("4294967295"), Some(4294967295));
    assert_eq!(parse_u32("4294967296"), None);
    assert_eq!(parse_u32(""), None);
    assert_eq!(parse_u32("1x"), None);
    assert_eq!(parse_u16("65535"), Some(65535));
    assert_eq!(parse_u16("65536"), None);
}

#[test]
fn hex_rendering() {
    assert_eq!(u64_to_hex_pad(0xdeadbeef, 16), "00000000deadbeef");
    assert_eq!(u64_to_hex_pad(0, 4), "0000");
}

#[test]
fn uid_rendering() {
    let u = invoker::api::Uid { hi: 0x0123456789abcdef, lo: 0xfedcba9876543210 };
    assert_eq!(uid_hyphenated(&u), "01234567-89ab-cdef-fedc-ba9876543210");
}

#[test]
fn path_join_adds_one_separator() {
    assert_eq!(path_join("/a/b", "c"), "/a/b/c");
    assert_eq!(path_join("/a/b/", "c"), "/a/b/c");
    assert_eq!(path_join("", "c"), "/c");
}

#[test]
fn widen_mode_copies_owner_bits() {
    assert_eq!(widen_mode(0o40750) & 0o777, 0o777);
    assert_eq!(widen_mode(0o40600) & 0o777, 0o666);
    assert_eq!(widen_mode(0o40750) >> 9, 0o40750 >> 9);
}

#[test]
fn access_bits_checked_against_kind() {
    assert!(access_ok(0o755, SharedItemKind::Readonly));
    assert!(!access_ok(0o750, SharedItemKind::Readonly));
    assert!(access_ok(0o777, SharedItemKind::Full));
    assert!(!access_ok(0o755, SharedItemKind::Full));
}

#[test]
fn listing_drops_dot_entries() {
    let entries = vec![
        ".".to_string(),
        "usr".to_string(),
        "..".to_string(),
        "bin".to_string(),
    ];
    assert_eq!(without_dots(&entries), vec!["usr".to_string(), "bin".to_string()]);
}

#[test]
fn built_in_host_mounts() {
    assert_eq!(
        default_host_mounts(),
        vec!["usr".to_string(), "bin".to_string(), "lib".to_string(), "lib64".to_string()]
    );
}
