use std::time::Duration;

use arti_client::config::TorClientConfigBuilder;
use arti_client::TorClientConfig;
use arti_proxy::client::{client_config_outcome, stream_prefs};
use arti_proxy::connector::{Bootstrapping, DialError, PoolSize, StartupError};
use arti_proxy::server::{RotatingProxy, ServerError};
use arti_proxy::{ArtiConnector, ProxyConfig, SocketAddr, Target};

fn expected(mut builder: TorClientConfigBuilder) -> TorClientConfig {
    builder
        .circuit_timing()
        .max_dirtiness(Duration::from_secs(600))
        .request_timeout(Duration::from_secs(60))
        .request_loyalty(Duration::from_secs(120));
    builder
        .preemptive_circuits()
        .prediction_lifetime(Duration::from_secs(120))
        .set_initial_predicted_ports(vec![80, 443]);
    builder.build().unwrap()
}

fn connector() -> ArtiConnector<&'static str> {
    ArtiConnector { pool: "pool", optimistic_streams: false }
}

#[test]
fn the_client_gets_the_settings() {
    let config = ProxyConfig::default();
    assert_eq!(config.arti_config().unwrap(), expected(TorClientConfig::builder()));
    assert_ne!(config.arti_config().unwrap(), TorClientConfig::default());
}

#[test]
fn the_client_gets_the_directories() {
    let mut config = ProxyConfig::default();
    config.state_dir = Some("/tmp/arti-state".to_owned());
    config.cache_dir = Some("/tmp/arti-cache".to_owned());
    let builder = TorClientConfigBuilder::from_directories("/tmp/arti-state", "/tmp/arti-cache");
    assert_eq!(config.arti_config().unwrap(), expected(builder));
    assert_ne!(config.arti_config().unwrap(), expected(TorClientConfig::builder()));
}

#[test]
fn the_client_rests_on_durations_and_directories() {
    let config = ProxyConfig::default();
    let mut other = ProxyConfig::default();
    other.listen_addr = SocketAddr::parse("[::1]:1080").unwrap();
    other.pool_size = 3;
    other.request_timeout = Duration::from_secs(1);
    other.optimistic_streams = false;
    assert_eq!(config.arti_config().unwrap(), other.arti_config().unwrap());

    let mut changed = ProxyConfig::default();
    changed.new_circuit_period = Duration::from_secs(1);
    assert_ne!(config.arti_config().unwrap(), changed.arti_config().unwrap());
    let mut changed = ProxyConfig::default();
    changed.max_circuit_dirtiness = Duration::from_secs(1);
    assert_ne!(config.arti_config().unwrap(), changed.arti_config().unwrap());
    let mut changed = ProxyConfig::default();
    changed.circuit_build_timeout = Duration::from_secs(1);
    assert_ne!(config.arti_config().unwrap(), changed.arti_config().unwrap());
}

#[test]
fn any_settings_give_a_client_configuration() {
    for duration in [Duration::ZERO, Duration::from_nanos(1), Duration::MAX] {
        for directory in [None, Some(""), Some("relative/${HOME}/~"), Some("/no/such\0directory")] {
            let mut config = ProxyConfig::default();
            config.max_circuit_dirtiness = duration;
            config.circuit_build_timeout = duration;
            config.new_circuit_period = duration;
            config.state_dir = directory.map(str::to_owned);
            config.cache_dir = directory.map(str::to_owned);
            assert!(config.arti_config().is_ok());
            assert!(ArtiConnector::<&str>::new(&config).is_ok());
        }
    }
}

#[test]
fn a_failed_build_is_reported() {
    let error = arti_client::config::ConfigBuildError::MissingField { field: "f".to_owned() };
    let text = error.to_string();
    let error = client_config_outcome(Err(error)).unwrap_err();
    assert_eq!(error.message(), format!("failed to build arti client config: {text}"));
    assert_eq!(StartupError::Config(error).message(), format!("failed to build arti client config: {text}"));
}

#[test]
fn streams_are_isolated_and_optimistic_where_asked() {
    let plain = format!("{:?}", stream_prefs(false));
    let optimistic = format!("{:?}", stream_prefs(true));
    assert!(plain.contains("optimistic_stream: false"), "{plain}");
    assert!(optimistic.contains("optimistic_stream: true"), "{optimistic}");
    assert!(plain.contains("Explicit("), "{plain}");
    assert!(optimistic.contains("Explicit("), "{optimistic}");
    assert_ne!(plain, format!("{:?}", stream_prefs(false)));
}

#[test]
fn a_connector_is_set_up_in_steps() {
    let mut config = ProxyConfig::default();
    config.pool_size = 3;
    config.optimistic_streams = false;
    let (stage, client_config) = ArtiConnector::<&str>::new(&config).unwrap();
    assert_eq!(client_config, config.arti_config().unwrap());
    let (stage, size) = stage.bootstrapped(Ok(())).unwrap();
    assert_eq!(size, PoolSize { max_size: 3, min_idle: 3 });
    let connector = stage.pooled(Ok("pool")).unwrap();
    assert_eq!(connector.pool, "pool");
    assert!(!connector.optimistic_streams);
}

#[test]
fn a_connector_may_fail_to_be_set_up() {
    let stage = Bootstrapping { pool_size: 1, optimistic_streams: true };
    let error = stage.bootstrapped(Err(anyhow::Error::msg("offline"))).unwrap_err();
    assert_eq!(error.message(), "failed to bootstrap arti client");
    assert!(matches!(error, StartupError::Bootstrap(_)));

    let (stage, _) = stage.bootstrapped(Ok(())).unwrap();
    let error = stage.pooled::<&str>(Err(anyhow::Error::msg("empty"))).err().unwrap();
    assert_eq!(error.message(), "failed to build arti client pool");
    assert!(matches!(error, StartupError::Pool(_)));
}

#[test]
fn a_target_is_dialed_by_host_and_port() {
    let target = Target::Domain { name: "example.com".to_owned(), port: 443 };
    let stage = connector().connect(target).acquired(Ok(())).ok().unwrap();
    assert_eq!((stage.host.as_str(), stage.port), ("example.com", 443));
    assert_eq!(stage.connected(Ok("stream")).unwrap(), "stream");
}

#[test]
fn a_target_may_fail_to_be_dialed() {
    let target = || Target::Domain { name: "example.com".to_owned(), port: 443 };
    let error = connector().connect(target()).acquired(Err("TimedOut".to_owned())).err().unwrap();
    assert_eq!(error.message(), "failed to acquire arti client: TimedOut");

    let stage = connector().connect(target()).acquired(Ok(())).ok().unwrap();
    let error = stage.connected::<()>(Err(anyhow::Error::msg("refused"))).unwrap_err();
    assert_eq!(error.message(), "failed to connect to example.com:443 over arti");
    assert!(matches!(error, DialError::Connect { port: 443, .. }));
}

#[test]
fn a_proxy_serves_in_steps() {
    let mut config = ProxyConfig::default();
    config.listen_addr = SocketAddr::parse("[::1]:1080").unwrap();
    config.request_timeout = Duration::from_secs(5);
    let proxy = RotatingProxy::from_config(config, connector());
    assert_eq!(proxy.connector.pool, "pool");

    let stage = proxy.run();
    assert_eq!(stage.listen_addr, proxy.listen_addr);
    let error = stage.bound(Err(anyhow::Error::msg("in use"))).unwrap_err();
    assert_eq!(error.message().as_deref(), Some("failed to bind [::1]:1080"));

    let stage = stage.bound(Ok(())).unwrap();
    assert_eq!(stage.announced(Err(anyhow::Error::msg("gone"))).unwrap_err().message(), None);

    let stage = stage.announced(Ok(())).unwrap();
    assert_eq!(stage.accepted(Ok("socket")).unwrap(), ("socket", Duration::from_secs(5)));
    let error = stage.accepted::<&str>(Err(anyhow::Error::msg("closed"))).unwrap_err();
    assert_eq!(error.message().as_deref(), Some("accept failed"));
    assert!(matches!(error, ServerError::Accept(_)));
}

#[test]
fn a_proxy_keeps_what_it_is_given() {
    let address = SocketAddr::parse("10.0.0.1:1080").unwrap();
    let proxy = RotatingProxy::new(address, Duration::from_millis(1500), "connector");
    assert_eq!(proxy.listen_addr, address);
    assert_eq!(proxy.request_timeout, Duration::from_millis(1500));
    assert_eq!(*proxy.connector, "connector");
}
