use std::cell::RefCell;
use std::collections::HashMap;
use std::num::IntErrorKind;
use std::path::PathBuf;
use std::time::Duration;

use arti_proxy::{parse_bool, parse_duration_secs, ConfigError, ProxyConfig, SocketAddr};

fn read(pairs: &[(&str, &str)]) -> Result<ProxyConfig, ConfigError> {
    let env: HashMap<String, String> =
        pairs.iter().map(|(k, v)| ((*k).to_owned(), (*v).to_owned())).collect();
    ProxyConfig::from_lookup(|key| env.get(key).cloned())
}

fn refused(pairs: &[(&str, &str)]) -> String {
    read(pairs).unwrap_err().message()
}

#[test]
fn config_reads_env_overrides() {
    let env = HashMap::from([
        ("ARTI_PROXY_LISTEN_ADDR".to_owned(), "127.0.0.1:1337".to_owned()),
        ("ARTI_PROXY_POOL_SIZE".to_owned(), "16".to_owned()),
        ("ARTI_PROXY_NEW_CIRCUIT_PERIOD_SECS".to_owned(), "45".to_owned()),
        ("ARTI_PROXY_MAX_CIRCUIT_DIRTINESS_SECS".to_owned(), "90".to_owned()),
        ("ARTI_PROXY_CIRCUIT_BUILD_TIMEOUT_SECS".to_owned(), "15".to_owned()),
        ("ARTI_PROXY_OPTIMISTIC_STREAMS".to_owned(), "false".to_owned()),
        ("ARTI_PROXY_STATE_DIR".to_owned(), "/tmp/arti-state".to_owned()),
        ("ARTI_PROXY_CACHE_DIR".to_owned(), "/tmp/arti-cache".to_owned()),
    ]);

    let config = ProxyConfig::from_lookup(|key| env.get(key).cloned()).unwrap();

    assert_eq!(config.listen_addr, SocketAddr::parse("127.0.0.1:1337").unwrap());
    assert_eq!(config.pool_size, 16);
    assert_eq!(config.new_circuit_period, Duration::from_secs(45));
    assert_eq!(config.max_circuit_dirtiness, Duration::from_secs(90));
    assert_eq!(config.circuit_build_timeout, Duration::from_secs(15));
    assert!(!config.optimistic_streams);
    assert_eq!(config.state_dir.map(PathBuf::from), Some(PathBuf::from("/tmp/arti-state")));
    assert_eq!(config.cache_dir.map(PathBuf::from), Some(PathBuf::from("/tmp/arti-cache")));
}

#[test]
fn nothing_set_is_the_standard() {
    let config = read(&[]).unwrap();
    let standard = ProxyConfig::default();
    assert_eq!(config.listen_addr, standard.listen_addr);
    assert_eq!(standard.listen_addr, SocketAddr::V4 { octets: [127, 0, 0, 1], port: 9050 });
    assert_eq!(config.pool_size, 8);
    assert_eq!(config.request_timeout, Duration::from_secs(30));
    assert_eq!(config.new_circuit_period, Duration::from_secs(120));
    assert_eq!(config.max_circuit_dirtiness, Duration::from_secs(600));
    assert_eq!(config.circuit_build_timeout, Duration::from_secs(60));
    assert!(config.optimistic_streams);
    assert_eq!(config.state_dir, None);
    assert_eq!(config.cache_dir, None);
}

#[test]
fn request_timeout_is_read() {
    let config = read(&[("ARTI_PROXY_REQUEST_TIMEOUT_SECS", "+0007")]).unwrap();
    assert_eq!(config.request_timeout, Duration::from_secs(7));
}

#[test]
fn a_copy_is_equal() {
    let config = read(&[("ARTI_PROXY_STATE_DIR", "/s"), ("ARTI_PROXY_CACHE_DIR", "/c")]).unwrap();
    assert_eq!(format!("{:?}", config.clone()), format!("{:?}", config));
}

#[test]
fn invalid_values_are_reported_with_their_names() {
    assert_eq!(
        refused(&[("ARTI_PROXY_LISTEN_ADDR", "localhost:9050")]),
        "invalid ARTI_PROXY_LISTEN_ADDR: localhost:9050"
    );
    assert_eq!(refused(&[("ARTI_PROXY_POOL_SIZE", "-1")]), "invalid ARTI_PROXY_POOL_SIZE: -1");
    assert_eq!(
        refused(&[("ARTI_PROXY_POOL_SIZE", "4294967296")]),
        "invalid ARTI_PROXY_POOL_SIZE: 4294967296"
    );
    for name in [
        "ARTI_PROXY_REQUEST_TIMEOUT_SECS",
        "ARTI_PROXY_NEW_CIRCUIT_PERIOD_SECS",
        "ARTI_PROXY_MAX_CIRCUIT_DIRTINESS_SECS",
        "ARTI_PROXY_CIRCUIT_BUILD_TIMEOUT_SECS",
        "ARTI_PROXY_OPTIMISTIC_STREAMS",
    ] {
        assert_eq!(refused(&[(name, "soon")]), format!("invalid {name}: soon"));
    }
}

#[test]
fn the_first_invalid_value_is_reported() {
    assert_eq!(
        refused(&[
            ("ARTI_PROXY_OPTIMISTIC_STREAMS", "maybe"),
            ("ARTI_PROXY_POOL_SIZE", "many"),
            ("ARTI_PROXY_STATE_DIR", "/s"),
        ]),
        "invalid ARTI_PROXY_POOL_SIZE: many"
    );
}

#[test]
fn directories_come_in_pairs() {
    let message =
        "ARTI_PROXY_STATE_DIR and ARTI_PROXY_CACHE_DIR must either both be set or both be unset";
    assert_eq!(refused(&[("ARTI_PROXY_STATE_DIR", "/s")]), message);
    assert_eq!(refused(&[("ARTI_PROXY_CACHE_DIR", "/c"), ("ARTI_PROXY_POOL_SIZE", "0")]), message);
}

#[test]
fn the_pool_is_not_empty() {
    assert_eq!(
        refused(&[("ARTI_PROXY_POOL_SIZE", "0")]),
        "ARTI_PROXY_POOL_SIZE must be greater than zero"
    );
    assert!(matches!(read(&[("ARTI_PROXY_POOL_SIZE", "+00")]), Err(ConfigError::ZeroPoolSize)));
}

#[test]
fn reading_stops_at_the_first_invalid_value() {
    let asked = RefCell::new(Vec::new());
    let result = ProxyConfig::from_lookup(|key| {
        asked.borrow_mut().push(key.to_owned());
        if key == "ARTI_PROXY_POOL_SIZE" {
            Some("none".to_owned())
        } else {
            None
        }
    });
    assert!(result.is_err());
    assert_eq!(asked.into_inner(), vec!["ARTI_PROXY_LISTEN_ADDR", "ARTI_PROXY_POOL_SIZE"]);
}

#[test]
fn seconds_are_decimal_numbers() {
    assert_eq!(parse_duration_secs("X", "0").unwrap(), Duration::from_secs(0));
    assert_eq!(
        parse_duration_secs("X", "18446744073709551615").unwrap(),
        Duration::from_secs(u64::MAX)
    );
    for value in ["", "+", "-1", " 1", "1 ", "1_0", "1.5", "0x10", "18446744073709551616"] {
        let error = parse_duration_secs("X", value).unwrap_err();
        assert_eq!(error.message(), format!("invalid X: {value}"));
        assert!(matches!(error, ConfigError::InvalidNumber { .. }));
    }
}

#[test]
fn an_invalid_value_is_reported_in_kind() {
    assert!(matches!(
        read(&[("ARTI_PROXY_LISTEN_ADDR", "soon")]),
        Err(ConfigError::InvalidListenAddr { .. })
    ));
    assert!(matches!(
        read(&[("ARTI_PROXY_OPTIMISTIC_STREAMS", "soon")]),
        Err(ConfigError::InvalidSwitch { .. })
    ));
    for name in [
        "ARTI_PROXY_POOL_SIZE",
        "ARTI_PROXY_REQUEST_TIMEOUT_SECS",
        "ARTI_PROXY_NEW_CIRCUIT_PERIOD_SECS",
        "ARTI_PROXY_MAX_CIRCUIT_DIRTINESS_SECS",
        "ARTI_PROXY_CIRCUIT_BUILD_TIMEOUT_SECS",
    ] {
        for (value, kind) in [
            ("", IntErrorKind::Empty),
            ("soon", IntErrorKind::InvalidDigit),
            ("99999999999999999999", IntErrorKind::PosOverflow),
        ] {
            match read(&[(name, value)]) {
                Err(ConfigError::InvalidNumber { cause, .. }) => assert_eq!(*cause.kind(), kind),
                other => panic!("{name} {value}: {other:?}"),
            }
        }
    }
    let within_u64 = "4294967296";
    assert!(matches!(
        read(&[("ARTI_PROXY_POOL_SIZE", within_u64)]),
        Err(ConfigError::InvalidNumber { cause, .. }) if *cause.kind() == IntErrorKind::PosOverflow
    ));
    assert!(parse_duration_secs("X", within_u64).is_ok());
}

#[test]
fn switches_have_fourteen_spellings() {
    for value in ["1", "true", "TRUE", "yes", "YES", "on", "ON"] {
        assert!(parse_bool("X", value).unwrap());
    }
    for value in ["0", "false", "FALSE", "no", "NO", "off", "OFF"] {
        assert!(!parse_bool("X", value).unwrap());
    }
    for value in ["", "True", "oN", "2", "y", " true"] {
        let error = parse_bool("X", value).unwrap_err();
        assert_eq!(error.message(), format!("invalid X: {value}"));
    }
}
