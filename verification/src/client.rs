//! The settings that the Arti client is given.

use arti_client::config::{ConfigBuildError, TorClientConfigBuilder};
use arti_client::{StreamPrefs, TorClientConfig};
use std::time::Duration;
use vstd::prelude::*;

use crate::config;
use crate::config::ProxyConfig;

verus! {

/// `TorClientConfigBuilder`: client settings on their way to a configuration.
#[verifier::external_type_specification]
#[verifier::external_body]
pub struct ExTorClientConfigBuilder(TorClientConfigBuilder);

/// `TorClientConfig`: the configuration of a client.
#[verifier::external_type_specification]
#[verifier::external_body]
pub struct ExTorClientConfig(TorClientConfig);

/// `ConfigBuildError`: why a configuration could not be built.
#[verifier::external_type_specification]
#[verifier::external_body]
pub struct ExConfigBuildError(ConfigBuildError);

/// `StreamPrefs`: how one stream is to be routed.
#[verifier::external_type_specification]
#[verifier::external_body]
pub struct ExStreamPrefs(StreamPrefs);

/// The client settings that this library makes; `None` leaves the client's own
/// standard in force. Durations are in nanoseconds.
#[verifier::ext_equal]
pub ghost struct ClientSettings {
    /// The state directory and the cache directory, where both are set to literal
    /// paths.
    pub directories: Option<(Seq<char>, Seq<char>)>,
    pub max_dirtiness: Option<nat>,
    pub request_timeout: Option<nat>,
    pub request_loyalty: Option<nat>,
    pub prediction_lifetime: Option<nat>,
    pub initial_predicted_ports: Option<Seq<u16>>,
}

impl ClientSettings {
    /// No setting is made.
    pub open spec fn untouched() -> ClientSettings {
        ClientSettings {
            directories: None,
            max_dirtiness: None,
            request_timeout: None,
            request_loyalty: None,
            prediction_lifetime: None,
            initial_predicted_ports: None,
        }
    }
}

/// The settings of a built configuration. Each has a value there: what was not set
/// has the client's own standard. Durations are in nanoseconds.
#[verifier::ext_equal]
pub ghost struct BuiltSettings {
    /// The state directory and the cache directory, where both are literal paths.
    pub directories: Option<(Seq<char>, Seq<char>)>,
    pub max_dirtiness: nat,
    pub request_timeout: nat,
    pub request_loyalty: nat,
    pub prediction_lifetime: nat,
    pub initial_predicted_ports: Seq<u16>,
}

impl BuiltSettings {
    /// Whether the directories are those that were set, if any, and each other setting
    /// that was made is kept.
    pub open spec fn follows(self, made: ClientSettings) -> bool {
        &&& self.directories == made.directories
        &&& made.max_dirtiness matches Some(duration) ==> self.max_dirtiness == duration
        &&& made.request_timeout matches Some(duration) ==> self.request_timeout == duration
        &&& made.request_loyalty matches Some(duration) ==> self.request_loyalty == duration
        &&& made.prediction_lifetime matches Some(duration) ==> self.prediction_lifetime == duration
        &&& made.initial_predicted_ports matches Some(ports) ==> self.initial_predicted_ports
            == ports
    }
}

/// The settings that a builder holds.
pub uninterp spec fn builder_settings(builder: TorClientConfigBuilder) -> ClientSettings;

/// Whether a builder holds these settings only: whatever else the client can be
/// told, a directory by itself among it, is left at the client's own standard.
pub uninterp spec fn sets_nothing_else(builder: TorClientConfigBuilder) -> bool;

/// The settings that a built configuration holds.
pub uninterp spec fn config_settings(config: TorClientConfig) -> BuiltSettings;

/// Whether all else in a built configuration is the client's own standard, but for
/// the file permissions, which the environment decides. The directories count as all
/// else where they are not both literal paths.
pub uninterp spec fn rest_is_standard(config: TorClientConfig) -> bool;

/// The message of a build error.
pub uninterp spec fn build_error_text(error: ConfigBuildError) -> Seq<char>;

/// Calls `TorClientConfigBuilder::from_directories`: a builder with these two
/// directories, taken literally, and no other setting.
#[verifier::external_body]
fn builder_from_directories(state_dir: &str, cache_dir: &str) -> (builder: TorClientConfigBuilder)
    ensures
        builder_settings(builder) == (ClientSettings {
            directories: Some((state_dir@, cache_dir@)),
            ..ClientSettings::untouched()
        }),
        sets_nothing_else(builder),
{
    TorClientConfigBuilder::from_directories(state_dir, cache_dir)
}

/// Calls `TorClientConfig::builder`: a builder without any setting.
#[verifier::external_body]
fn standard_builder() -> (builder: TorClientConfigBuilder)
    ensures
        builder_settings(builder) == ClientSettings::untouched(),
        sets_nothing_else(builder),
{
    TorClientConfig::builder()
}

/// Calls `CircuitTimingBuilder::max_dirtiness`, which sets that duration alone.
#[verifier::external_body]
fn set_max_dirtiness(builder: &mut TorClientConfigBuilder, duration: Duration)
    ensures
        builder_settings(*final(builder)) == (ClientSettings {
            max_dirtiness: Some(config::duration_nanos(duration)),
            ..builder_settings(*old(builder))
        }),
        sets_nothing_else(*final(builder)) == sets_nothing_else(*old(builder)),
{
    builder.circuit_timing().max_dirtiness(duration);
}

/// Calls `CircuitTimingBuilder::request_timeout`, which sets that duration alone.
#[verifier::external_body]
fn set_request_timeout(builder: &mut TorClientConfigBuilder, duration: Duration)
    ensures
        builder_settings(*final(builder)) == (ClientSettings {
            request_timeout: Some(config::duration_nanos(duration)),
            ..builder_settings(*old(builder))
        }),
        sets_nothing_else(*final(builder)) == sets_nothing_else(*old(builder)),
{
    builder.circuit_timing().request_timeout(duration);
}

/// Calls `CircuitTimingBuilder::request_loyalty`, which sets that duration alone.
#[verifier::external_body]
fn set_request_loyalty(builder: &mut TorClientConfigBuilder, duration: Duration)
    ensures
        builder_settings(*final(builder)) == (ClientSettings {
            request_loyalty: Some(config::duration_nanos(duration)),
            ..builder_settings(*old(builder))
        }),
        sets_nothing_else(*final(builder)) == sets_nothing_else(*old(builder)),
{
    builder.circuit_timing().request_loyalty(duration);
}

/// Calls `PreemptiveCircuitConfigBuilder::prediction_lifetime`, which sets that
/// duration alone.
#[verifier::external_body]
fn set_prediction_lifetime(builder: &mut TorClientConfigBuilder, duration: Duration)
    ensures
        builder_settings(*final(builder)) == (ClientSettings {
            prediction_lifetime: Some(config::duration_nanos(duration)),
            ..builder_settings(*old(builder))
        }),
        sets_nothing_else(*final(builder)) == sets_nothing_else(*old(builder)),
{
    builder.preemptive_circuits().prediction_lifetime(duration);
}

/// Calls `PreemptiveCircuitConfigBuilder::set_initial_predicted_ports`, which
/// replaces the list of ports and nothing else.
#[verifier::external_body]
fn set_initial_predicted_ports(builder: &mut TorClientConfigBuilder, ports: Vec<u16>)
    ensures
        builder_settings(*final(builder)) == (ClientSettings {
            initial_predicted_ports: Some(ports@),
            ..builder_settings(*old(builder))
        }),
        sets_nothing_else(*final(builder)) == sets_nothing_else(*old(builder)),
{
    builder.preemptive_circuits().set_initial_predicted_ports(ports);
}

/// Calls `TorClientConfigBuilder::build`. A configuration that is built keeps each
/// setting of the builder; the standard directories, which it has otherwise, are no
/// literal paths. Where the builder holds nothing else, it is built: the client takes
/// any directories, durations and ports, and the rest has its standard, which is a
/// valid one. The environment decides which file permissions the configuration then
/// demands, and not whether it is built. Not stated are these permissions, the
/// standard durations and ports, and when a builder with other settings fails, and
/// with which error.
#[verifier::external_body]
fn build_config(builder: &TorClientConfigBuilder) -> (built: Result<
    TorClientConfig,
    ConfigBuildError,
>)
    ensures
        built matches Ok(config) ==> config_settings(config).follows(builder_settings(*builder)),
        built matches Ok(config) ==> (sets_nothing_else(*builder) ==> rest_is_standard(config)),
        sets_nothing_else(*builder) ==> built is Ok,
{
    builder.build()
}

/// Displays a `ConfigBuildError`.
#[verifier::external_body]
fn display_build_error(error: &ConfigBuildError) -> (text: String)
    ensures
        text@ == build_error_text(*error),
{
    error.to_string()
}

/// The client configuration could not be built.
#[derive(Debug)]
pub struct ClientConfigError {
    pub cause: ConfigBuildError,
}

impl ClientConfigError {
    /// The message for the user.
    pub fn message(&self) -> (message: String)
        ensures
            message@ == "failed to build arti client config: "@ + build_error_text(self.cause),
    {
        let mut message = "failed to build arti client config: ".to_owned();
        message.append(display_build_error(&self.cause).as_str());
        message
    }
}

impl config::ConfigView {
    /// The settings that the client is given: the closest equivalents of a shorter
    /// preemptive prediction, a bounded circuit dirtiness and a more aggressive
    /// circuit build timeout.
    pub open spec fn client_settings(self) -> ClientSettings {
        ClientSettings {
            directories: match (self.state_dir, self.cache_dir) {
                (Some(state_dir), Some(cache_dir)) => Some((state_dir, cache_dir)),
                _ => None,
            },
            max_dirtiness: Some(self.max_circuit_dirtiness),
            request_timeout: Some(self.circuit_build_timeout),
            request_loyalty: Some(self.new_circuit_period),
            prediction_lifetime: Some(self.new_circuit_period),
            initial_predicted_ports: Some(seq![80u16, 443u16]),
        }
    }

    /// Whether a client configuration has these settings and no others.
    pub open spec fn configures(self, config: TorClientConfig) -> bool {
        &&& config_settings(config).follows(self.client_settings())
        &&& rest_is_standard(config)
    }
}

/// Hands on a configuration, or the error of a build that failed.
pub fn client_config_outcome(built: Result<TorClientConfig, ConfigBuildError>) -> (result: Result<
    TorClientConfig,
    ClientConfigError,
>)
    ensures
        match built {
            Ok(config) => result == Ok::<TorClientConfig, ClientConfigError>(config),
            Err(cause) => result == Err::<TorClientConfig, ClientConfigError>(
                ClientConfigError { cause },
            ),
        },
{
    match built {
        Ok(config) => Ok(config),
        Err(cause) => Err(ClientConfigError { cause }),
    }
}

impl ProxyConfig {
    /// A builder that holds the client settings of this configuration and no others.
    fn client_builder(&self) -> (builder: TorClientConfigBuilder)
        requires
            self@.state_dir is Some <==> self@.cache_dir is Some,
        ensures
            builder_settings(builder) == self@.client_settings(),
            sets_nothing_else(builder),
    {
        let mut builder = match (&self.state_dir, &self.cache_dir) {
            (Some(state_dir), Some(cache_dir)) => builder_from_directories(
                state_dir.as_str(),
                cache_dir.as_str(),
            ),
            _ => standard_builder(),
        };
        set_max_dirtiness(&mut builder, self.max_circuit_dirtiness);
        set_request_timeout(&mut builder, self.circuit_build_timeout);
        set_request_loyalty(&mut builder, self.new_circuit_period);
        set_prediction_lifetime(&mut builder, self.new_circuit_period);
        let ports: Vec<u16> = vec![80, 443];
        assert(ports@ =~= seq![80u16, 443u16]);
        set_initial_predicted_ports(&mut builder, ports);
        builder
    }

    /// The configuration of the client, with the settings of this one and no others.
    /// All of them are acceptable to the client, so that it is always built.
    pub fn arti_config(&self) -> (result: Result<TorClientConfig, ClientConfigError>)
        requires
            self@.state_dir is Some <==> self@.cache_dir is Some,
        ensures
            result matches Ok(config) && self@.configures(config),
    {
        client_config_outcome(build_config(&self.client_builder()))
    }
}

/// The client configuration rests on the circuit durations and the directories alone:
/// whatever the other settings of two proxies are, their clients are configured alike,
/// each as the other is, but for the file permissions that the environment decides.
pub proof fn equal_circuit_settings_configure_alike(
    a: config::ConfigView,
    b: config::ConfigView,
    for_a: TorClientConfig,
    for_b: TorClientConfig,
)
    requires
        a.new_circuit_period == b.new_circuit_period,
        a.max_circuit_dirtiness == b.max_circuit_dirtiness,
        a.circuit_build_timeout == b.circuit_build_timeout,
        a.state_dir == b.state_dir,
        a.cache_dir == b.cache_dir,
        a.configures(for_a),
        b.configures(for_b),
    ensures
        config_settings(for_a) == config_settings(for_b),
        rest_is_standard(for_a) && rest_is_standard(for_b),
        a.configures(for_b),
        b.configures(for_a),
{
}

/// What stream preferences ask for.
#[verifier::ext_equal]
pub ghost struct PrefsView {
    /// Whether the stream may be used before the exit has confirmed it.
    pub optimistic: bool,
    /// Whether the stream is kept apart by an isolation group of its own.
    pub isolated: bool,
}

/// What stream preferences hold.
pub uninterp spec fn prefs_view(prefs: StreamPrefs) -> PrefsView;

/// Calls `StreamPrefs::new`: neither optimistic nor isolated.
#[verifier::external_body]
fn new_prefs() -> (prefs: StreamPrefs)
    ensures
        prefs_view(prefs) == (PrefsView { optimistic: false, isolated: false }),
{
    StreamPrefs::new()
}

/// Calls `StreamPrefs::optimistic`, which makes the stream optimistic and changes
/// nothing else.
#[verifier::external_body]
fn make_optimistic(prefs: &mut StreamPrefs)
    ensures
        prefs_view(*final(prefs)) == (PrefsView { optimistic: true, ..prefs_view(*old(prefs)) }),
{
    prefs.optimistic();
}

/// Calls `StreamPrefs::new_isolation_group`, which puts the stream into a fresh
/// isolation group and changes nothing else. Which group it is depends on what the
/// process made before; that it differs from all others is not stated.
#[verifier::external_body]
fn isolate(prefs: &mut StreamPrefs)
    ensures
        prefs_view(*final(prefs)) == (PrefsView { isolated: true, ..prefs_view(*old(prefs)) }),
{
    prefs.new_isolation_group();
}

/// The preferences of one stream: optimistic where asked for, always isolated.
pub fn stream_prefs(optimistic: bool) -> (prefs: StreamPrefs)
    ensures
        prefs_view(prefs) == (PrefsView { optimistic, isolated: true }),
{
    let mut prefs = new_prefs();
    if optimistic {
        make_optimistic(&mut prefs);
    }
    isolate(&mut prefs);
    prefs
}

/// Every setting arrives in the client configuration: the new circuit period both as
/// request loyalty and as prediction lifetime, the circuit build timeout as request
/// timeout, the dirtiness and the directories as they are, and the two web ports as the
/// first that are predicted. The rest is the client's own standard.
pub proof fn settings_arrive_at_the_client(
    config: &ProxyConfig,
    result: Result<TorClientConfig, ClientConfigError>,
)
    requires
        config.state_dir is Some <==> config.cache_dir is Some,
        call_ensures(ProxyConfig::arti_config, (config,), result),
    ensures
        call_requires(ProxyConfig::arti_config, (config,)),
        result is Ok,
        ({
            let built = config_settings(result->Ok_0);
            &&& built.prediction_lifetime == config::duration_nanos(config.new_circuit_period)
            &&& built.request_loyalty == config::duration_nanos(config.new_circuit_period)
            &&& built.request_timeout == config::duration_nanos(config.circuit_build_timeout)
            &&& built.max_dirtiness == config::duration_nanos(config.max_circuit_dirtiness)
            &&& built.initial_predicted_ports.len() == 2
            &&& built.initial_predicted_ports[0] == 80
            &&& built.initial_predicted_ports[1] == 443
            &&& match (config.state_dir, config.cache_dir) {
                (Some(state_dir), Some(cache_dir)) => built.directories == Some(
                    (state_dir@, cache_dir@),
                ),
                _ => built.directories is None,
            }
        }),
        rest_is_standard(result->Ok_0),
{
}

/// Every stream is isolated, and optimistic exactly where it was asked for.
pub proof fn streams_are_isolated(optimistic: bool, prefs: StreamPrefs)
    requires
        call_ensures(stream_prefs, (optimistic,), prefs),
    ensures
        prefs_view(prefs).isolated,
        prefs_view(prefs).optimistic <==> optimistic,
{
}

/// A configuration that was built is handed on as it is, and a failure with its text
/// behind a fixed beginning.
pub proof fn build_outcome_is_handed_on(
    built: Result<TorClientConfig, ConfigBuildError>,
    result: Result<TorClientConfig, ClientConfigError>,
    message: String,
)
    requires
        call_ensures(client_config_outcome, (built,), result),
        result matches Err(error) ==> call_ensures(ClientConfigError::message, (&error,), message),
    ensures
        built is Ok <==> result is Ok,
        built matches Ok(config) ==> result->Ok_0 == config,
        built matches Err(cause) ==> result->Err_0.cause == cause && message@
            == "failed to build arti client config: "@ + build_error_text(cause),
{
}

} // verus!
