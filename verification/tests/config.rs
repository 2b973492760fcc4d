use mnestic::config::{
    bind_address, extract_model, json_logs, mock_providers, nap_secs, tally, trust_proxy, worker_settings,
    IpAddress, DEFAULT_DB_MAX_CONNECTIONS,
};
use mnestic::{check_bind_safety, db_max_connections};

const LOCALHOST: IpAddress = IpAddress::V4(127, 0, 0, 1);

#[test]
fn bind_safety_allows_loopback_and_refuses_exposed() {
    // Loopback is always fine: nothing off-host can reach it.
    assert!(check_bind_safety("127.0.0.1:8080", Ok(LOCALHOST), false).is_ok());
    assert!(check_bind_safety("[::1]:8080", Ok(IpAddress::V6(1)), false).is_ok());
    // A network-reachable bind over plain HTTP is refused without the proxy assertion.
    assert!(check_bind_safety("0.0.0.0:8080", Ok(IpAddress::V4(0, 0, 0, 0)), false).is_err());
    assert!(check_bind_safety("[::]:8080", Ok(IpAddress::V6(0)), false).is_err());
    assert!(check_bind_safety("10.0.0.5:8080", Ok(IpAddress::V4(10, 0, 0, 5)), false).is_err());
    // Allowed once the operator asserts TLS is terminated upstream.
    assert!(check_bind_safety("0.0.0.0:8080", Ok(IpAddress::V4(0, 0, 0, 0)), true).is_ok());
    // A non-address is a clear error, not a silent pass-through.
    let detail = "invalid socket address syntax".to_string();
    assert!(check_bind_safety("localhost:8080", Err(detail), false).is_err());
}

#[test]
fn refused_binds_say_why() {
    assert_eq!(
        check_bind_safety("localhost:8080", Err("invalid socket address syntax".to_string()), true),
        Err("invalid bind address 'localhost:8080': invalid socket address syntax; use an ip:port like 127.0.0.1:8080".to_string())
    );
    let refusal = check_bind_safety("10.0.0.5:80", Ok(IpAddress::V4(10, 0, 0, 5)), false).unwrap_err();
    assert!(refusal.starts_with("refusing to bind 10.0.0.5:80: it is reachable off-host"));
    assert!(refusal.ends_with("See DEPLOYMENT.md."));
}

#[test]
fn whole_loopback_block_is_local() {
    assert!(check_bind_safety("127.9.9.9:1", Ok(IpAddress::V4(127, 9, 9, 9)), false).is_ok());
    assert!(check_bind_safety("128.0.0.1:1", Ok(IpAddress::V4(128, 0, 0, 1)), false).is_err());
}

#[test]
fn db_max_connections_parses_or_defaults() {
    assert_eq!(db_max_connections(Some("32")), 32);
    assert_eq!(db_max_connections(Some("  8 ")), 8);
    // Missing, non-numeric, and zero all fall back to the default, never panic or 0.
    assert_eq!(db_max_connections(None), DEFAULT_DB_MAX_CONNECTIONS);
    assert_eq!(db_max_connections(Some("lots")), DEFAULT_DB_MAX_CONNECTIONS);
    assert_eq!(db_max_connections(Some("0")), DEFAULT_DB_MAX_CONNECTIONS);
}

#[test]
fn pool_sizes_at_the_edges() {
    assert_eq!(DEFAULT_DB_MAX_CONNECTIONS, 16);
    assert_eq!(db_max_connections(Some("+4")), 4);
    assert_eq!(db_max_connections(Some("4294967295")), u32::MAX);
    assert_eq!(db_max_connections(Some("4294967296")), 16);
    assert_eq!(db_max_connections(Some("-1")), 16);
    assert_eq!(db_max_connections(Some("")), 16);
    assert_eq!(db_max_connections(Some("\u{3000}7\u{a0}")), 7);
}

#[test]
fn flags_and_names_from_the_environment() {
    assert!(trust_proxy(Some("1")));
    assert!(trust_proxy(Some("TRUE")));
    assert!(!trust_proxy(Some("yes")));
    assert!(!trust_proxy(None));
    assert!(json_logs(Some("Json")));
    assert!(!json_logs(Some("text")));
    assert!(!json_logs(None));
    assert_eq!(extract_model(Some(" small ")), Some("small".to_string()));
    assert_eq!(extract_model(Some("  ")), None);
    assert_eq!(extract_model(None), None);
    assert!(mock_providers(Some("1")));
    assert!(!mock_providers(Some("true")) && !mock_providers(None));
    assert_eq!(bind_address(None), "127.0.0.1:8080");
    assert_eq!(bind_address(Some("0.0.0.0:80".to_string())), "0.0.0.0:80");
}

#[test]
fn worker_settings_parse_or_default() {
    let s = worker_settings(None, None, None);
    assert_eq!((s.poll_secs, s.lease_secs, s.batch), (5, 300, 16));
    let s = worker_settings(Some("0"), Some("-7"), Some("3"));
    assert_eq!((s.poll_secs, s.lease_secs, s.batch), (0, -7, 3));
    // Unlike the pool size, these are taken as they stand.
    let s = worker_settings(Some(" 9"), Some("9223372036854775808"), Some("x"));
    assert_eq!((s.poll_secs, s.lease_secs, s.batch), (5, 300, 16));
    let s = worker_settings(Some("18446744073709551615"), Some("-9223372036854775808"), None);
    assert_eq!((s.poll_secs, s.lease_secs), (u64::MAX, i64::MIN));
}

#[test]
fn worker_naps_only_when_idle() {
    assert_eq!(tally(2, Some(3)), Some(5));
    assert_eq!(tally(2, None), Some(2));
    assert_eq!(tally(usize::MAX, Some(1)), None);
    assert_eq!(nap_secs(0, 5), 5);
    assert_eq!(nap_secs(1, 5), 0);
}
