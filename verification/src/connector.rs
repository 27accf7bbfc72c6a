//! Connecting through a pool of clients.
//!
//! The network does its work outside: each step here takes what came of the last
//! piece of that work, and says what is to be done next.

use arti_client::{StreamPrefs, TorClientConfig};
use vstd::prelude::*;

use crate::client;
use crate::client::{stream_prefs, ClientConfigError};
use crate::config;
use crate::config::ProxyConfig;
use crate::target;
use crate::target::Target;
use crate::text;

verus! {

/// A pool of clients, each isolated from the others, and how their streams open.
#[derive(Clone)]
pub struct ArtiConnector<P> {
    pub pool: P,
    pub optimistic_streams: bool,
}

/// Why a connector could not be set up.
#[derive(Debug)]
pub enum StartupError {
    Config(ClientConfigError),
    Bootstrap(anyhow::Error),
    Pool(anyhow::Error),
}

impl StartupError {
    /// The message for the user.
    pub open spec fn spec_message(self) -> Seq<char> {
        match self {
            StartupError::Config(error) => "failed to build arti client config: "@
                + client::build_error_text(error.cause),
            StartupError::Bootstrap(_) => "failed to bootstrap arti client"@,
            StartupError::Pool(_) => "failed to build arti client pool"@,
        }
    }

    /// The message for the user.
    pub fn message(&self) -> (message: String)
        ensures
            message@ == self.spec_message(),
    {
        match self {
            StartupError::Config(error) => error.message(),
            StartupError::Bootstrap(_) => "failed to bootstrap arti client".to_owned(),
            StartupError::Pool(_) => "failed to build arti client pool".to_owned(),
        }
    }
}

/// How many clients a pool keeps.
#[derive(Clone, Copy, Debug, PartialEq, Eq)]
pub struct PoolSize {
    /// The most clients that are handed out at once.
    pub max_size: u32,
    /// The clients that are held ready.
    pub min_idle: u32,
}

/// A connector whose base client is being bootstrapped.
#[derive(Clone, Copy, Debug)]
pub struct Bootstrapping {
    pub pool_size: u32,
    pub optimistic_streams: bool,
}

/// A connector whose pool is being filled.
#[derive(Clone, Copy, Debug)]
pub struct Pooling {
    pub optimistic_streams: bool,
}

impl<P> ArtiConnector<P> {
    /// Starts to set a connector up: a base client with the configuration in the
    /// result is to be bootstrapped.
    pub fn new(config: &ProxyConfig) -> (result: Result<
        (Bootstrapping, TorClientConfig),
        StartupError,
    >)
        requires
            config@.state_dir is Some <==> config@.cache_dir is Some,
        ensures
            result matches Ok((stage, client_config)) && stage == (Bootstrapping {
                pool_size: config.pool_size,
                optimistic_streams: config.optimistic_streams,
            }) && config@.configures(client_config),
    {
        match config.arti_config() {
            Ok(client_config) => Ok(
                (
                    Bootstrapping {
                        pool_size: config.pool_size,
                        optimistic_streams: config.optimistic_streams,
                    },
                    client_config,
                ),
            ),
            Err(error) => Err(StartupError::Config(error)),
        }
    }

    /// The preferences of one stream through this connector.
    pub fn stream_prefs(&self) -> (prefs: StreamPrefs)
        ensures
            client::prefs_view(prefs) == (client::PrefsView {
                optimistic: self.optimistic_streams,
                isolated: true,
            }),
    {
        stream_prefs(self.optimistic_streams)
    }
}

impl Bootstrapping {
    /// The base client is bootstrapped, or it failed. A pool of the size in the
    /// result is to be filled with isolated clients, all of them held ready.
    pub fn bootstrapped(self, outcome: Result<(), anyhow::Error>) -> (result: Result<
        (Pooling, PoolSize),
        StartupError,
    >)
        ensures
            match outcome {
                Ok(()) => result == Ok::<(Pooling, PoolSize), StartupError>(
                    (
                        Pooling { optimistic_streams: self.optimistic_streams },
                        PoolSize { max_size: self.pool_size, min_idle: self.pool_size },
                    ),
                ),
                Err(cause) => result == Err::<(Pooling, PoolSize), StartupError>(
                    StartupError::Bootstrap(cause),
                ),
            },
    {
        match outcome {
            Ok(()) => Ok(
                (
                    Pooling { optimistic_streams: self.optimistic_streams },
                    PoolSize { max_size: self.pool_size, min_idle: self.pool_size },
                ),
            ),
            Err(cause) => Err(StartupError::Bootstrap(cause)),
        }
    }
}

impl Pooling {
    /// The pool is filled, or it failed.
    pub fn pooled<P>(self, outcome: Result<P, anyhow::Error>) -> (result: Result<
        ArtiConnector<P>,
        StartupError,
    >)
        ensures
            match outcome {
                Ok(pool) => result == Ok::<ArtiConnector<P>, StartupError>(
                    ArtiConnector { pool, optimistic_streams: self.optimistic_streams },
                ),
                Err(cause) => result == Err::<ArtiConnector<P>, StartupError>(
                    StartupError::Pool(cause),
                ),
            },
    {
        match outcome {
            Ok(pool) => Ok(ArtiConnector { pool, optimistic_streams: self.optimistic_streams }),
            Err(cause) => Err(StartupError::Pool(cause)),
        }
    }
}

/// Why a target could not be connected to.
#[derive(Debug)]
pub enum DialError {
    /// No client could be had from the pool, for the reason given.
    Acquire { reason: String },
    /// The client could not connect.
    Connect { host: String, port: u16, cause: anyhow::Error },
}

impl DialError {
    /// The message for the user.
    pub open spec fn spec_message(self) -> Seq<char> {
        match self {
            DialError::Acquire { reason } => "failed to acquire arti client: "@ + reason@,
            DialError::Connect { host, port, .. } => "failed to connect to "@ + host@ + ":"@
                + text::decimal(port as nat) + " over arti"@,
        }
    }

    /// The message for the user.
    pub fn message(&self) -> (message: String)
        ensures
            message@ == self.spec_message(),
    {
        match self {
            DialError::Acquire { reason } => {
                let mut message = "failed to acquire arti client: ".to_owned();
                message.append(reason.as_str());
                message
            },
            DialError::Connect { host, port, .. } => {
                let mut message = "failed to connect to ".to_owned();
                message.append(host.as_str());
                message.append(":");
                message.append(text::decimal_text(*port as u64).as_str());
                message.append(" over arti");
                message
            },
        }
    }
}

/// A connection that waits for a client from the pool.
pub struct Acquiring {
    pub target: Target,
    pub prefs: StreamPrefs,
}

/// A connection that a client is making, to this host and port and with these
/// preferences.
pub struct Dialing {
    pub host: String,
    pub port: u16,
    pub prefs: StreamPrefs,
}

impl<P> ArtiConnector<P> {
    /// Starts to connect to a target: a client is to be had from the pool.
    pub fn connect(&self, target: Target) -> (stage: Acquiring)
        ensures
            stage.target == target,
            client::prefs_view(stage.prefs) == (client::PrefsView {
                optimistic: self.optimistic_streams,
                isolated: true,
            }),
    {
        Acquiring { target, prefs: self.stream_prefs() }
    }
}

impl Acquiring {
    /// A client was had from the pool, or not for the reason given. The client is
    /// to connect as the result says.
    pub fn acquired(self, outcome: Result<(), String>) -> (result: Result<Dialing, DialError>)
        ensures
            match (outcome, result) {
                (Ok(()), Ok(stage)) => stage.host@ == self.target@.host() && stage.port
                    == self.target@.port() && stage.prefs == self.prefs,
                (Err(reason), Err(error)) => error == (DialError::Acquire { reason }),
                _ => false,
            },
    {
        match outcome {
            Ok(()) => {
                let (host, port) = self.target.into_string_and_port();
                Ok(Dialing { host, port, prefs: self.prefs })
            },
            Err(reason) => Err(DialError::Acquire { reason }),
        }
    }
}

impl Dialing {
    /// The client connected, or it failed.
    pub fn connected<S>(self, outcome: Result<S, anyhow::Error>) -> (result: Result<S, DialError>)
        ensures
            match outcome {
                Ok(stream) => result == Ok::<S, DialError>(stream),
                Err(cause) => result == Err::<S, DialError>(
                    DialError::Connect { host: self.host, port: self.port, cause },
                ),
            },
    {
        match outcome {
            Ok(stream) => Ok(stream),
            Err(cause) => Err(DialError::Connect { host: self.host, port: self.port, cause }),
        }
    }
}

/// A connector that is set up without a failure is the one that its configuration asks
/// for: its client has the configured settings, its pool holds as many clients as
/// configured, all of them ready, and its streams open as configured.
pub proof fn connector_follows_the_configuration<P>(
    config: &ProxyConfig,
    pool: P,
    begun: Result<(Bootstrapping, TorClientConfig), StartupError>,
    client_config: Result<TorClientConfig, ClientConfigError>,
    filling: Result<(Pooling, PoolSize), StartupError>,
    ready: Result<ArtiConnector<P>, StartupError>,
    prefs: StreamPrefs,
)
    requires
        config.state_dir is Some <==> config.cache_dir is Some,
        call_ensures(ArtiConnector::<P>::new, (config,), begun),
        call_ensures(Bootstrapping::bootstrapped, (begun->Ok_0.0, Ok(())), filling),
        call_ensures(Pooling::pooled::<P>, (filling->Ok_0.0, Ok(pool)), ready),
        call_ensures(ArtiConnector::<P>::stream_prefs, (&ready->Ok_0,), prefs),
    ensures
        begun is Ok,
        ({
            let built = client::config_settings(begun->Ok_0.1);
            &&& built.prediction_lifetime == config::duration_nanos(config.new_circuit_period)
            &&& built.request_loyalty == config::duration_nanos(config.new_circuit_period)
            &&& built.request_timeout == config::duration_nanos(config.circuit_build_timeout)
            &&& built.max_dirtiness == config::duration_nanos(config.max_circuit_dirtiness)
            &&& built.initial_predicted_ports =~= seq![80u16, 443]
            &&& match (config.state_dir, config.cache_dir) {
                (Some(state_dir), Some(cache_dir)) => built.directories == Some(
                    (state_dir@, cache_dir@),
                ),
                _ => built.directories is None,
            }
        }),
        client::rest_is_standard(begun->Ok_0.1),
        filling is Ok,
        filling->Ok_0.1.max_size == config.pool_size,
        filling->Ok_0.1.min_idle == config.pool_size,
        ready is Ok,
        ready->Ok_0.pool == pool,
        ready->Ok_0.optimistic_streams == config.optimistic_streams,
        client::prefs_view(prefs).optimistic == config.optimistic_streams,
        client::prefs_view(prefs).isolated,
{
}

/// A connector that cannot be set up fails with the cause of the step that failed, and
/// says which step it was.
pub proof fn startup_failures_are_told<P>(
    booting: Bootstrapping,
    filling: Pooling,
    cause: anyhow::Error,
    unbooted: Result<(Pooling, PoolSize), StartupError>,
    unfilled: Result<ArtiConnector<P>, StartupError>,
    boot_message: String,
    fill_message: String,
)
    requires
        call_ensures(Bootstrapping::bootstrapped, (booting, Err(cause)), unbooted),
        call_ensures(Pooling::pooled::<P>, (filling, Err(cause)), unfilled),
        call_ensures(StartupError::message, (&unbooted->Err_0,), boot_message),
        call_ensures(StartupError::message, (&unfilled->Err_0,), fill_message),
    ensures
        unbooted matches Err(StartupError::Bootstrap(why)) && why == cause,
        boot_message@ == "failed to bootstrap arti client"@,
        unfilled matches Err(StartupError::Pool(why)) && why == cause,
        fill_message@ == "failed to build arti client pool"@,
{
}

/// The client is asked to connect to the host and the port of the target, which are
/// those that [`Target::into_string_and_port`] gives, on a stream that is isolated and
/// optimistic where the connector is; what it connects to is handed on.
pub proof fn target_is_dialed<P, S>(
    connector: &ArtiConnector<P>,
    target: Target,
    stream: S,
    waiting: Acquiring,
    dialing: Result<Dialing, DialError>,
    reached: Result<S, DialError>,
)
    requires
        call_ensures(ArtiConnector::<P>::connect, (connector, target), waiting),
        call_ensures(Acquiring::acquired, (waiting, Ok(())), dialing),
        call_ensures(Dialing::connected::<S>, (dialing->Ok_0, Ok(stream)), reached),
    ensures
        dialing is Ok,
        match target {
            Target::V4 { octets, port } => dialing->Ok_0.port == port && dialing->Ok_0.host@
                == text::decimal(octets[0] as nat) + "."@ + text::decimal(octets[1] as nat) + "."@
                + text::decimal(octets[2] as nat) + "."@ + text::decimal(octets[3] as nat),
            Target::V6 { segments, port } => dialing->Ok_0.port == port && dialing->Ok_0.host@
                == target::ipv6_host(segments@),
            Target::Domain { name, port } => dialing->Ok_0.port == port && dialing->Ok_0.host@
                == name@,
        },
        client::prefs_view(dialing->Ok_0.prefs).isolated,
        client::prefs_view(dialing->Ok_0.prefs).optimistic == connector.optimistic_streams,
        reached == Ok::<S, DialError>(stream),
{
}

/// A target that cannot be connected to fails with the reason of the pool or with the
/// cause of the client, and the message names the host and the port that were dialed.
pub proof fn dial_failures_are_told<S>(
    waiting: Acquiring,
    reason: String,
    unmet: Result<Dialing, DialError>,
    unmet_message: String,
    dialing: Dialing,
    cause: anyhow::Error,
    unreached: Result<S, DialError>,
    unreached_message: String,
)
    requires
        call_ensures(Acquiring::acquired, (waiting, Err(reason)), unmet),
        call_ensures(DialError::message, (&unmet->Err_0,), unmet_message),
        call_ensures(Dialing::connected::<S>, (dialing, Err(cause)), unreached),
        call_ensures(DialError::message, (&unreached->Err_0,), unreached_message),
    ensures
        unmet is Err,
        unmet_message@ == "failed to acquire arti client: "@ + reason@,
        unreached matches Err(DialError::Connect { cause: why, .. }) && why == cause,
        unreached_message@ == "failed to connect to "@ + dialing.host@ + ":"@ + text::decimal(
            dialing.port as nat,
        ) + " over arti"@,
{
}

/// A client configuration that could not be built is told as the client tells it.
pub proof fn configuration_failure_is_told(error: ClientConfigError, message: String)
    requires
        call_ensures(StartupError::message, (&StartupError::Config(error),), message),
    ensures
        message@ == "failed to build arti client config: "@ + client::build_error_text(error.cause),
{
}

} // verus!
