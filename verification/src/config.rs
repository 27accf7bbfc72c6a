//! The settings of the proxy and how environment variables change them.

use std::num::ParseIntError;
use std::time::Duration;
use vstd::prelude::*;

use crate::address;
use crate::address::SocketAddr;
use crate::text;
use crate::text::same_text;

verus! {

/// `ParseIntError`: why a text is no number, kept as the cause of an error.
#[verifier::external_type_specification]
#[verifier::external_body]
pub struct ExParseIntError(ParseIntError);

/// The length of a duration in nanoseconds.
pub uninterp spec fn duration_nanos(duration: Duration) -> nat;

/// The length in nanoseconds of a number of whole seconds.
pub open spec fn seconds(count: nat) -> nat {
    count * 1_000_000_000
}

/// [`Duration::from_secs`] makes a duration of that many whole seconds.
pub assume_specification[ Duration::from_secs ](secs: u64) -> (duration: Duration)
    ensures
        duration_nanos(duration) == seconds(secs as nat),
;

/// Decimal digits with an optional plus sign in front.
pub open spec fn unsigned(s: Seq<char>) -> Option<nat> {
    let digits = if s.len() > 0 && s[0] == '+' {
        s.skip(1)
    } else {
        s
    };
    if text::is_number(digits, 10) {
        Some(text::number_value(digits, 10))
    } else {
        None
    }
}

/// The number that a text writes, where it is no greater than `max`.
pub open spec fn unsigned_up_to(s: Seq<char>, max: nat) -> Option<nat> {
    match unsigned(s) {
        Some(n) => if n <= max {
            Some(n)
        } else {
            None
        },
        None => None,
    }
}

/// The error of `str::parse::<u32>` on a text that it refuses.
pub uninterp spec fn u32_refusal(s: Seq<char>) -> ParseIntError;

/// The error of `str::parse::<u64>` on a text that it refuses.
pub uninterp spec fn u64_refusal(s: Seq<char>) -> ParseIntError;

/// Calls `str::parse::<u32>`, which accepts decimal digits with an optional plus
/// sign in front, and nothing else, where the number fits. The error depends on the
/// text alone.
#[verifier::external_body]
fn parse_u32(value: &str) -> (number: Result<u32, ParseIntError>)
    ensures
        match number {
            Ok(n) => unsigned_up_to(value@, u32::MAX as nat) == Some(n as nat),
            Err(cause) => unsigned_up_to(value@, u32::MAX as nat) is None && cause == u32_refusal(
                value@,
            ),
        },
{
    value.parse()
}

/// Calls `str::parse::<u64>`, which accepts decimal digits with an optional plus
/// sign in front, and nothing else, where the number fits. The error depends on the
/// text alone.
#[verifier::external_body]
fn parse_u64(value: &str) -> (number: Result<u64, ParseIntError>)
    ensures
        match number {
            Ok(n) => unsigned_up_to(value@, u64::MAX as nat) == Some(n as nat),
            Err(cause) => unsigned_up_to(value@, u64::MAX as nat) is None && cause == u64_refusal(
                value@,
            ),
        },
{
    value.parse()
}

/// Why a configuration was refused.
#[derive(Debug)]
pub enum ConfigError {
    /// The listening address does not parse.
    InvalidListenAddr { value: String },
    /// A number does not parse or does not fit.
    InvalidNumber { name: String, value: String, cause: ParseIntError },
    /// A switch is neither on nor off.
    InvalidSwitch { name: String, value: String },
    /// Only one of the two directories is set.
    UnpairedDirectories,
    /// The pool would hold no client.
    ZeroPoolSize,
}

/// What a [`ConfigError`] says.
#[verifier::ext_equal]
pub ghost enum Fault {
    InvalidListenAddr { value: Seq<char> },
    InvalidNumber { name: Seq<char>, value: Seq<char>, cause: ParseIntError },
    InvalidSwitch { name: Seq<char>, value: Seq<char> },
    UnpairedDirectories,
    ZeroPoolSize,
}

impl Fault {
    /// The message for the user.
    pub open spec fn message(self) -> Seq<char> {
        match self {
            Fault::InvalidListenAddr { value } => "invalid "@ + "ARTI_PROXY_LISTEN_ADDR"@ + ": "@
                + value,
            Fault::InvalidNumber { name, value, .. } => "invalid "@ + name + ": "@ + value,
            Fault::InvalidSwitch { name, value } => "invalid "@ + name + ": "@ + value,
            Fault::UnpairedDirectories =>
                "ARTI_PROXY_STATE_DIR and ARTI_PROXY_CACHE_DIR must either both be set or both be unset"@,
            Fault::ZeroPoolSize => "ARTI_PROXY_POOL_SIZE must be greater than zero"@,
        }
    }
}

impl View for ConfigError {
    type V = Fault;

    open spec fn view(&self) -> Fault {
        match *self {
            ConfigError::InvalidListenAddr { value } => Fault::InvalidListenAddr { value: value@ },
            ConfigError::InvalidNumber { name, value, cause } => Fault::InvalidNumber {
                name: name@,
                value: value@,
                cause,
            },
            ConfigError::InvalidSwitch { name, value } => Fault::InvalidSwitch {
                name: name@,
                value: value@,
            },
            ConfigError::UnpairedDirectories => Fault::UnpairedDirectories,
            ConfigError::ZeroPoolSize => Fault::ZeroPoolSize,
        }
    }
}

/// `invalid {name}: {value}`
fn invalid_message(name: &str, value: &str) -> (message: String)
    ensures
        message@ == "invalid "@ + name@ + ": "@ + value@,
{
    let mut message = "invalid ".to_owned();
    message.append(name);
    message.append(": ");
    message.append(value);
    message
}

impl ConfigError {
    /// The message for the user.
    pub fn message(&self) -> (message: String)
        ensures
            message@ == self@.message(),
    {
        match self {
            ConfigError::InvalidListenAddr { value } => invalid_message(
                "ARTI_PROXY_LISTEN_ADDR",
                value.as_str(),
            ),
            ConfigError::InvalidNumber { name, value, .. } => invalid_message(
                name.as_str(),
                value.as_str(),
            ),
            ConfigError::InvalidSwitch { name, value } => invalid_message(
                name.as_str(),
                value.as_str(),
            ),
            ConfigError::UnpairedDirectories =>
                "ARTI_PROXY_STATE_DIR and ARTI_PROXY_CACHE_DIR must either both be set or both be unset".to_owned(),
            ConfigError::ZeroPoolSize => "ARTI_PROXY_POOL_SIZE must be greater than zero".to_owned(),
        }
    }
}

/// Reads a number of seconds; `name` says in the error which setting it was for.
pub fn parse_duration_secs(name: &str, value: &str) -> (duration: Result<Duration, ConfigError>)
    ensures
        match duration {
            Ok(duration) => unsigned_up_to(value@, u64::MAX as nat) is Some && duration_nanos(duration)
                == seconds(unsigned_up_to(value@, u64::MAX as nat)->0),
            Err(error) => unsigned_up_to(value@, u64::MAX as nat) is None && error@ == (
            Fault::InvalidNumber { name: name@, value: value@, cause: u64_refusal(value@) }),
        },
{
    match parse_u64(value) {
        Ok(secs) => Ok(Duration::from_secs(secs)),
        Err(cause) => Err(
            ConfigError::InvalidNumber { name: name.to_owned(), value: value.to_owned(), cause },
        ),
    }
}

/// What a switch is set to, in one of the spellings of on and off.
pub open spec fn switch(s: Seq<char>) -> Option<bool> {
    if s == "1"@ || s == "true"@ || s == "TRUE"@ || s == "yes"@ || s == "YES"@ || s == "on"@ || s
        == "ON"@ {
        Some(true)
    } else if s == "0"@ || s == "false"@ || s == "FALSE"@ || s == "no"@ || s == "NO"@ || s == "off"@
        || s == "OFF"@ {
        Some(false)
    } else {
        None
    }
}

/// Reads a switch; `name` says in the error which setting it was for.
pub fn parse_bool(name: &str, value: &str) -> (on: Result<bool, ConfigError>)
    ensures
        match on {
            Ok(on) => switch(value@) == Some(on),
            Err(error) => switch(value@) is None && error@ == (Fault::InvalidSwitch {
                name: name@,
                value: value@,
            }),
        },
{
    if same_text(value, "1") || same_text(value, "true") || same_text(value, "TRUE") || same_text(
        value,
        "yes",
    ) || same_text(value, "YES") || same_text(value, "on") || same_text(value, "ON") {
        Ok(true)
    } else if same_text(value, "0") || same_text(value, "false") || same_text(value, "FALSE")
        || same_text(value, "no") || same_text(value, "NO") || same_text(value, "off") || same_text(
        value,
        "OFF",
    ) {
        Ok(false)
    } else {
        Err(ConfigError::InvalidSwitch { name: name.to_owned(), value: value.to_owned() })
    }
}

/// The settings of the proxy.
#[derive(Debug)]
pub struct ProxyConfig {
    /// The address to listen on.
    pub listen_addr: SocketAddr,
    /// The number of pooled clients.
    pub pool_size: u32,
    /// How long one request may take from end to end.
    pub request_timeout: Duration,
    /// How long a circuit request stays loyal to its own circuits, and how long
    /// a port stays predicted.
    pub new_circuit_period: Duration,
    /// How long a circuit is given out for new requests after its first use.
    pub max_circuit_dirtiness: Duration,
    /// How long a circuit request may take.
    pub circuit_build_timeout: Duration,
    /// Whether streams are used before the exit has confirmed them.
    pub optimistic_streams: bool,
    /// Where the client keeps its state, set together with `cache_dir`.
    pub state_dir: Option<String>,
    /// Where the client keeps its cache, set together with `state_dir`.
    pub cache_dir: Option<String>,
}

/// The mathematical value of a [`ProxyConfig`], durations in nanoseconds.
#[verifier::ext_equal]
pub ghost struct ConfigView {
    pub listen_addr: address::SocketAddrView,
    pub pool_size: u32,
    pub request_timeout: nat,
    pub new_circuit_period: nat,
    pub max_circuit_dirtiness: nat,
    pub circuit_build_timeout: nat,
    pub optimistic_streams: bool,
    pub state_dir: Option<Seq<char>>,
    pub cache_dir: Option<Seq<char>>,
}

/// The characters of a string that may be absent.
pub open spec fn optional_text(s: Option<String>) -> Option<Seq<char>> {
    match s {
        Some(s) => Some(s@),
        None => None,
    }
}

fn clone_optional(s: &Option<String>) -> (copy: Option<String>)
    ensures
        optional_text(copy) == optional_text(*s),
{
    match s {
        Some(s) => Some(s.clone()),
        None => None,
    }
}

impl View for ProxyConfig {
    type V = ConfigView;

    open spec fn view(&self) -> ConfigView {
        ConfigView {
            listen_addr: self.listen_addr@,
            pool_size: self.pool_size,
            request_timeout: duration_nanos(self.request_timeout),
            new_circuit_period: duration_nanos(self.new_circuit_period),
            max_circuit_dirtiness: duration_nanos(self.max_circuit_dirtiness),
            circuit_build_timeout: duration_nanos(self.circuit_build_timeout),
            optimistic_streams: self.optimistic_streams,
            state_dir: optional_text(self.state_dir),
            cache_dir: optional_text(self.cache_dir),
        }
    }
}

impl ConfigView {
    /// The settings where no variable changes them.
    pub open spec fn standard() -> ConfigView {
        ConfigView {
            listen_addr: address::SocketAddrView::V4 { octets: seq![127, 0, 0, 1], port: 9050 },
            pool_size: 8,
            request_timeout: seconds(30),
            new_circuit_period: seconds(120),
            max_circuit_dirtiness: seconds(600),
            circuit_build_timeout: seconds(60),
            optimistic_streams: true,
            state_dir: None,
            cache_dir: None,
        }
    }

    /// The pool holds at least one client, and the directories are set together
    /// or not at all.
    pub open spec fn valid(self) -> bool {
        &&& self.pool_size > 0
        &&& self.state_dir is Some <==> self.cache_dir is Some
    }
}

impl Clone for ProxyConfig {
    fn clone(&self) -> (config: ProxyConfig)
        ensures
            config@ == self@,
    {
        ProxyConfig {
            listen_addr: self.listen_addr,
            pool_size: self.pool_size,
            request_timeout: self.request_timeout,
            new_circuit_period: self.new_circuit_period,
            max_circuit_dirtiness: self.max_circuit_dirtiness,
            circuit_build_timeout: self.circuit_build_timeout,
            optimistic_streams: self.optimistic_streams,
            state_dir: clone_optional(&self.state_dir),
            cache_dir: clone_optional(&self.cache_dir),
        }
    }
}

impl Default for ProxyConfig {
    fn default() -> (config: ProxyConfig)
        ensures
            config@ == ConfigView::standard(),
    {
        let octets: [u8; 4] = [127, 0, 0, 1];
        assert(octets@ =~= seq![127, 0, 0, 1]);
        ProxyConfig {
            listen_addr: SocketAddr::V4 { octets, port: 9050 },
            pool_size: 8,
            request_timeout: Duration::from_secs(30),
            new_circuit_period: Duration::from_secs(120),
            max_circuit_dirtiness: Duration::from_secs(600),
            circuit_build_timeout: Duration::from_secs(60),
            optimistic_streams: true,
            state_dir: None,
            cache_dir: None,
        }
    }
}

/// What the environment says of each setting; a variable may be unset.
#[verifier::ext_equal]
pub ghost struct Variables {
    pub listen_addr: Option<Seq<char>>,
    pub pool_size: Option<Seq<char>>,
    pub request_timeout: Option<Seq<char>>,
    pub new_circuit_period: Option<Seq<char>>,
    pub max_circuit_dirtiness: Option<Seq<char>>,
    pub circuit_build_timeout: Option<Seq<char>>,
    pub optimistic_streams: Option<Seq<char>>,
    pub state_dir: Option<Seq<char>>,
    pub cache_dir: Option<Seq<char>>,
}

/// The names of the variables, in the order in which they are consulted.
pub open spec fn variable_name(i: int) -> &'static str {
    if i == 0 {
        "ARTI_PROXY_LISTEN_ADDR"
    } else if i == 1 {
        "ARTI_PROXY_POOL_SIZE"
    } else if i == 2 {
        "ARTI_PROXY_REQUEST_TIMEOUT_SECS"
    } else if i == 3 {
        "ARTI_PROXY_NEW_CIRCUIT_PERIOD_SECS"
    } else if i == 4 {
        "ARTI_PROXY_MAX_CIRCUIT_DIRTINESS_SECS"
    } else if i == 5 {
        "ARTI_PROXY_CIRCUIT_BUILD_TIMEOUT_SECS"
    } else if i == 6 {
        "ARTI_PROXY_OPTIMISTIC_STREAMS"
    } else if i == 7 {
        "ARTI_PROXY_STATE_DIR"
    } else {
        "ARTI_PROXY_CACHE_DIR"
    }
}

/// Whether a variable is unset or has a value that its setting accepts.
pub open spec fn accepted(i: int, value: Option<Seq<char>>) -> bool {
    match value {
        None => true,
        Some(s) => if i == 0 {
            address::socket_addr(s) is Some
        } else if i == 1 {
            unsigned_up_to(s, u32::MAX as nat) is Some
        } else if i < 6 {
            unsigned_up_to(s, u64::MAX as nat) is Some
        } else if i == 6 {
            switch(s) is Some
        } else {
            true
        },
    }
}

/// The fault of a variable whose value is not accepted.
pub open spec fn refusal(i: int, value: Seq<char>) -> Fault {
    let name = variable_name(i)@;
    if i == 0 {
        Fault::InvalidListenAddr { value }
    } else if i == 1 {
        Fault::InvalidNumber { name, value, cause: u32_refusal(value) }
    } else if i < 6 {
        Fault::InvalidNumber { name, value, cause: u64_refusal(value) }
    } else {
        Fault::InvalidSwitch { name, value }
    }
}

/// The duration that a number of seconds sets, or the given one where it is unset.
pub open spec fn duration_or(value: Option<Seq<char>>, standard: nat) -> nat {
    match value {
        Some(s) => seconds(unsigned_up_to(s, u64::MAX as nat)->0),
        None => standard,
    }
}

impl Variables {
    /// The variables in the order in which they are consulted.
    pub open spec fn value(self, i: int) -> Option<Seq<char>> {
        if i == 0 {
            self.listen_addr
        } else if i == 1 {
            self.pool_size
        } else if i == 2 {
            self.request_timeout
        } else if i == 3 {
            self.new_circuit_period
        } else if i == 4 {
            self.max_circuit_dirtiness
        } else if i == 5 {
            self.circuit_build_timeout
        } else if i == 6 {
            self.optimistic_streams
        } else if i == 7 {
            self.state_dir
        } else {
            self.cache_dir
        }
    }

    /// The first variable from the `i`th on that is not accepted, or the number of
    /// variables where all of them are.
    pub open spec fn first_refused(self, i: int) -> int
        decreases 9 - i,
    {
        if i >= 9 || !accepted(i, self.value(i)) {
            i
        } else {
            self.first_refused(i + 1)
        }
    }

    /// The settings that the variables make, each from its own variable or else
    /// the standard one.
    pub open spec fn settings(self) -> ConfigView {
        let standard = ConfigView::standard();
        ConfigView {
            listen_addr: match self.listen_addr {
                Some(s) => address::socket_addr(s)->0,
                None => standard.listen_addr,
            },
            pool_size: match self.pool_size {
                Some(s) => unsigned_up_to(s, u32::MAX as nat)->0 as u32,
                None => standard.pool_size,
            },
            request_timeout: duration_or(self.request_timeout, standard.request_timeout),
            new_circuit_period: duration_or(self.new_circuit_period, standard.new_circuit_period),
            max_circuit_dirtiness: duration_or(
                self.max_circuit_dirtiness,
                standard.max_circuit_dirtiness,
            ),
            circuit_build_timeout: duration_or(
                self.circuit_build_timeout,
                standard.circuit_build_timeout,
            ),
            optimistic_streams: match self.optimistic_streams {
                Some(s) => switch(s)->0,
                None => standard.optimistic_streams,
            },
            state_dir: self.state_dir,
            cache_dir: self.cache_dir,
        }
    }

    /// The configuration that the variables make, or the fault that is reported:
    /// the first variable that is not accepted, then directories that are not set
    /// together, then an empty pool.
    pub open spec fn outcome(self) -> Result<ConfigView, Fault> {
        let refused = self.first_refused(0);
        if refused < 9 {
            Err(refusal(refused, self.value(refused)->0))
        } else if self.state_dir is Some != self.cache_dir is Some {
            Err(Fault::UnpairedDirectories)
        } else if self.settings().pool_size == 0 {
            Err(Fault::ZeroPoolSize)
        } else {
            Ok(self.settings())
        }
    }
}

/// Whether looking `name` up may answer `answer`.
pub open spec fn may_answer<F: Fn(&str) -> Option<String>>(
    lookup: F,
    name: &str,
    answer: Option<Seq<char>>,
) -> bool {
    exists|found: Option<String>| #[trigger]
        call_ensures(lookup, (name,), found) && optional_text(found) == answer
}

/// Whether the variables are what the lookup answered to each name that was
/// consulted: all names up to the first value that is not accepted.
pub open spec fn heard<F: Fn(&str) -> Option<String>>(lookup: F, variables: Variables) -> bool {
    forall|i: int|
        0 <= i < 9 && i <= variables.first_refused(0) ==> may_answer(
            lookup,
            #[trigger] variable_name(i),
            variables.value(i),
        )
}

/// Whether the lookup answers every name with the value of its variable.
pub open spec fn tells<F: Fn(&str) -> Option<String>>(lookup: F, variables: Variables) -> bool {
    forall|i: int, answer: Option<Seq<char>>|
        0 <= i < 9 && #[trigger] may_answer(lookup, variable_name(i), answer) ==> answer
            == variables.value(i)
}

/// Whether a result reports an outcome.
pub open spec fn reports(
    result: Result<ProxyConfig, ConfigError>,
    outcome: Result<ConfigView, Fault>,
) -> bool {
    match (result, outcome) {
        (Ok(config), Ok(view)) => config@ == view,
        (Err(error), Err(fault)) => error@ == fault,
        _ => false,
    }
}

/// Where the lookup has one answer to each name, what was heard of it has the
/// outcome of those answers, whether or not all names were consulted.
proof fn heard_outcome<F: Fn(&str) -> Option<String>>(
    lookup: F,
    heard_of: Variables,
    variables: Variables,
)
    requires
        heard(lookup, heard_of),
        tells(lookup, variables),
    ensures
        heard_of.outcome() == variables.outcome(),
{
    reveal_with_fuel(Variables::first_refused, 10);
    let last = heard_of.first_refused(0);
    assert forall|i: int| 0 <= i < 9 && i <= last implies #[trigger] heard_of.value(i)
        == variables.value(i) by {
        assert(may_answer(lookup, variable_name(i), heard_of.value(i)));
    }
    assert(0 <= last ==> heard_of.value(0) == variables.value(0));
    assert(1 <= last ==> heard_of.value(1) == variables.value(1));
    assert(2 <= last ==> heard_of.value(2) == variables.value(2));
    assert(3 <= last ==> heard_of.value(3) == variables.value(3));
    assert(4 <= last ==> heard_of.value(4) == variables.value(4));
    assert(5 <= last ==> heard_of.value(5) == variables.value(5));
    assert(6 <= last ==> heard_of.value(6) == variables.value(6));
    assert(7 <= last ==> heard_of.value(7) == variables.value(7));
    assert(8 <= last ==> heard_of.value(8) == variables.value(8));
}

impl ProxyConfig {
    /// Reads the configuration from variables, each looked up by its name.
    ///
    /// The names are looked up one after the other, and a value that is not
    /// accepted ends the reading. Where the lookup has one answer to each name, the
    /// answers settle the result.
    pub fn from_lookup<F>(lookup: F) -> (result: Result<ProxyConfig, ConfigError>) where
        F: Fn(&str) -> Option<String>,

        requires
            forall|i: int| 0 <= i < 9 ==> lookup.requires((#[trigger] variable_name(i),)),
        ensures
            exists|variables: Variables| #[trigger]
                heard(lookup, variables) && reports(result, variables.outcome()),
            forall|variables: Variables| #[trigger]
                tells(lookup, variables) ==> reports(result, variables.outcome()),
    {
        let result = ProxyConfig::read_variables(lookup);
        proof {
            let heard_of = choose|heard_of: Variables| #[trigger]
                heard(lookup, heard_of) && reports(result, heard_of.outcome());
            assert forall|variables: Variables| #[trigger] tells(lookup, variables) implies reports(
                result,
                variables.outcome(),
            ) by {
                heard_outcome(lookup, heard_of, variables);
            }
        }
        result
    }

    fn read_variables<F>(lookup: F) -> (result: Result<ProxyConfig, ConfigError>) where
        F: Fn(&str) -> Option<String>,

        requires
            forall|i: int| 0 <= i < 9 ==> lookup.requires((#[trigger] variable_name(i),)),
        ensures
            exists|variables: Variables| #[trigger]
                heard(lookup, variables) && reports(result, variables.outcome()),
    {
        let ghost mut variables = Variables {
            listen_addr: None,
            pool_size: None,
            request_timeout: None,
            new_circuit_period: None,
            max_circuit_dirtiness: None,
            circuit_build_timeout: None,
            optimistic_streams: None,
            state_dir: None,
            cache_dir: None,
        };
        proof {
            reveal_with_fuel(Variables::first_refused, 10);
            assert(lookup.requires((variable_name(0),)) && lookup.requires((variable_name(1),))
                && lookup.requires((variable_name(2),)) && lookup.requires((variable_name(3),))
                && lookup.requires((variable_name(4),)) && lookup.requires((variable_name(5),))
                && lookup.requires((variable_name(6),)) && lookup.requires((variable_name(7),))
                && lookup.requires((variable_name(8),)));
        }
        let mut config = ProxyConfig::default();

        let found = lookup("ARTI_PROXY_LISTEN_ADDR");
        proof {
            variables.listen_addr = optional_text(found);
            assert(may_answer(lookup, variable_name(0), variables.value(0)));
        }
        if let Some(value) = found {
            match SocketAddr::parse(value.as_str()) {
                Some(address) => {
                    config.listen_addr = address;
                },
                None => {
                    assert(heard(lookup, variables));
                    return Err(ConfigError::InvalidListenAddr { value });
                },
            }
        }

        let found = lookup("ARTI_PROXY_POOL_SIZE");
        proof {
            variables.pool_size = optional_text(found);
            assert(may_answer(lookup, variable_name(1), variables.value(1)));
        }
        if let Some(value) = found {
            match parse_u32(value.as_str()) {
                Ok(size) => {
                    config.pool_size = size;
                },
                Err(cause) => {
                    assert(heard(lookup, variables));
                    return Err(
                        ConfigError::InvalidNumber {
                            name: "ARTI_PROXY_POOL_SIZE".to_owned(),
                            value,
                            cause,
                        },
                    );
                },
            }
        }

        let found = lookup("ARTI_PROXY_REQUEST_TIMEOUT_SECS");
        proof {
            variables.request_timeout = optional_text(found);
            assert(may_answer(lookup, variable_name(2), variables.value(2)));
        }
        if let Some(value) = found {
            match parse_duration_secs("ARTI_PROXY_REQUEST_TIMEOUT_SECS", value.as_str()) {
                Ok(duration) => {
                    config.request_timeout = duration;
                },
                Err(error) => {
                    assert(heard(lookup, variables));
                    return Err(error);
                },
            }
        }

        let found = lookup("ARTI_PROXY_NEW_CIRCUIT_PERIOD_SECS");
        proof {
            variables.new_circuit_period = optional_text(found);
            assert(may_answer(lookup, variable_name(3), variables.value(3)));
        }
        if let Some(value) = found {
            match parse_duration_secs("ARTI_PROXY_NEW_CIRCUIT_PERIOD_SECS", value.as_str()) {
                Ok(duration) => {
                    config.new_circuit_period = duration;
                },
                Err(error) => {
                    assert(heard(lookup, variables));
                    return Err(error);
                },
            }
        }

        let found = lookup("ARTI_PROXY_MAX_CIRCUIT_DIRTINESS_SECS");
        proof {
            variables.max_circuit_dirtiness = optional_text(found);
            assert(may_answer(lookup, variable_name(4), variables.value(4)));
        }
        if let Some(value) = found {
            match parse_duration_secs("ARTI_PROXY_MAX_CIRCUIT_DIRTINESS_SECS", value.as_str()) {
                Ok(duration) => {
                    config.max_circuit_dirtiness = duration;
                },
                Err(error) => {
                    assert(heard(lookup, variables));
                    return Err(error);
                },
            }
        }

        let found = lookup("ARTI_PROXY_CIRCUIT_BUILD_TIMEOUT_SECS");
        proof {
            variables.circuit_build_timeout = optional_text(found);
            assert(may_answer(lookup, variable_name(5), variables.value(5)));
        }
        if let Some(value) = found {
            match parse_duration_secs("ARTI_PROXY_CIRCUIT_BUILD_TIMEOUT_SECS", value.as_str()) {
                Ok(duration) => {
                    config.circuit_build_timeout = duration;
                },
                Err(error) => {
                    assert(heard(lookup, variables));
                    return Err(error);
                },
            }
        }

        let found = lookup("ARTI_PROXY_OPTIMISTIC_STREAMS");
        proof {
            variables.optimistic_streams = optional_text(found);
            assert(may_answer(lookup, variable_name(6), variables.value(6)));
        }
        if let Some(value) = found {
            match parse_bool("ARTI_PROXY_OPTIMISTIC_STREAMS", value.as_str()) {
                Ok(on) => {
                    config.optimistic_streams = on;
                },
                Err(error) => {
                    assert(heard(lookup, variables));
                    return Err(error);
                },
            }
        }

        config.state_dir = lookup("ARTI_PROXY_STATE_DIR");
        config.cache_dir = lookup("ARTI_PROXY_CACHE_DIR");
        proof {
            variables.state_dir = optional_text(config.state_dir);
            variables.cache_dir = optional_text(config.cache_dir);
            assert(may_answer(lookup, variable_name(7), variables.value(7)));
            assert(may_answer(lookup, variable_name(8), variables.value(8)));
            assert(heard(lookup, variables));
            assert(variables.first_refused(0) == 9);
        }

        if config.state_dir.is_some() != config.cache_dir.is_some() {
            return Err(ConfigError::UnpairedDirectories);
        }
        if config.pool_size == 0 {
            return Err(ConfigError::ZeroPoolSize);
        }
        assert(config@ == variables.settings());
        Ok(config)
    }
}

/// Where no variable is set, the configuration is the standard one.
pub proof fn unset_variables_give_the_standard(variables: Variables)
    requires
        forall|i: int| 0 <= i < 9 ==> (#[trigger] variables.value(i)) is None,
    ensures
        variables.outcome() == Ok::<ConfigView, Fault>(ConfigView::standard()),
{
    reveal_with_fuel(Variables::first_refused, 10);
    assert(variables.value(0) is None && variables.value(1) is None && variables.value(2) is None
        && variables.value(3) is None && variables.value(4) is None && variables.value(5) is None
        && variables.value(6) is None && variables.value(7) is None && variables.value(8) is None);
}

/// A configuration that was read is valid.
pub proof fn outcome_is_valid(variables: Variables)
    ensures
        match variables.outcome() {
            Ok(config) => config.valid(),
            Err(_) => true,
        },
{
}

/// Setting only one of the two directories is refused, whatever else is set.
pub proof fn directories_are_set_together(variables: Variables)
    requires
        variables.state_dir is Some != variables.cache_dir is Some,
    ensures
        variables.outcome() is Err,
{
}

/// A pool size of zero is refused, whatever else is set.
pub proof fn pool_is_never_empty(variables: Variables)
    requires
        variables.pool_size is Some,
        unsigned(variables.pool_size->0) == Some(0nat),
    ensures
        variables.outcome() is Err,
{
}

/// Where each variable is unset or accepted, the directories are set together
/// and the pool is not empty, the configuration is read.
pub proof fn accepted_variables_are_read(variables: Variables)
    requires
        forall|i: int| 0 <= i < 9 ==> #[trigger] accepted(i, variables.value(i)),
        variables.settings().valid(),
    ensures
        variables.outcome() == Ok::<ConfigView, Fault>(variables.settings()),
{
    reveal_with_fuel(Variables::first_refused, 10);
    assert(accepted(0, variables.value(0)) && accepted(1, variables.value(1)) && accepted(
        2,
        variables.value(2),
    ) && accepted(3, variables.value(3)) && accepted(4, variables.value(4)) && accepted(
        5,
        variables.value(5),
    ) && accepted(6, variables.value(6)) && accepted(7, variables.value(7)) && accepted(
        8,
        variables.value(8),
    ));
}

/// A value that is not accepted is reported with its name, and the first such
/// value in the order of the names is the one that is reported.
pub proof fn first_refused_variable_is_reported(variables: Variables, i: int)
    requires
        0 <= i < 9,
        !accepted(i, variables.value(i)),
        forall|j: int| 0 <= j < i ==> #[trigger] accepted(j, variables.value(j)),
    ensures
        variables.outcome() == Err::<ConfigView, Fault>(refusal(i, variables.value(i)->0)),
        refusal(i, variables.value(i)->0).message() == "invalid "@ + variable_name(i)@ + ": "@
            + variables.value(i)->0,
{
    first_refused_from(variables, i, 0);
}

proof fn first_refused_from(variables: Variables, i: int, start: int)
    requires
        0 <= start <= i < 9,
        !accepted(i, variables.value(i)),
        forall|j: int| 0 <= j < i ==> #[trigger] accepted(j, variables.value(j)),
    ensures
        variables.first_refused(start) == i,
    decreases i - start,
{
    if start < i {
        assert(accepted(start, variables.value(start)));
        first_refused_from(variables, i, start + 1);
    }
}

/// Whether a text writes a number: decimal digits, with or without a plus sign in front.
pub open spec fn writes(s: Seq<char>, n: nat) -> bool {
    exists|digits: Seq<char>|
        (s == digits || s == seq!['+'] + digits) && #[trigger] text::is_number(digits, 10)
            && text::number_value(digits, 10) == n
}

/// Whether a text says on.
pub open spec fn says_on(s: Seq<char>) -> bool {
    ||| s == "1"@
    ||| s == "true"@
    ||| s == "TRUE"@
    ||| s == "yes"@
    ||| s == "YES"@
    ||| s == "on"@
    ||| s == "ON"@
}

/// Whether a text says off.
pub open spec fn says_off(s: Seq<char>) -> bool {
    ||| s == "0"@
    ||| s == "false"@
    ||| s == "FALSE"@
    ||| s == "no"@
    ||| s == "NO"@
    ||| s == "off"@
    ||| s == "OFF"@
}

/// Whether a text is read as a socket address.
pub open spec fn reads_as_address(s: Seq<char>) -> bool {
    exists|text: &str, address: SocketAddr|
        text@ == s && #[trigger] call_ensures(SocketAddr::parse, (text,), Some(address))
}

/// Whether the lookup answers a name with this value, whenever it is asked.
pub open spec fn answers<F: Fn(&str) -> Option<String>>(
    lookup: F,
    name: &str,
    value: Option<Seq<char>>,
) -> bool {
    forall|found: Option<String>| #[trigger]
        call_ensures(lookup, (name,), found) ==> match found {
            Some(text) => value == Some(text@),
            None => value is None,
        }
}

/// A number is the digits behind an optional plus sign.
proof fn unsigned_is_what_is_written(s: Seq<char>, n: nat)
    ensures
        unsigned(s) == Some(n) <==> writes(s, n),
{
    if unsigned(s) == Some(n) {
        if s.len() > 0 && s[0] == '+' {
            assert(s =~= seq!['+'] + s.skip(1));
            assert(text::is_number(s.skip(1), 10));
        } else {
            assert(text::is_number(s, 10));
        }
    }
    if writes(s, n) {
        let digits = choose|digits: Seq<char>|
            (s == digits || s == seq!['+'] + digits) && #[trigger] text::is_number(digits, 10)
                && text::number_value(digits, 10) == n;
        assert(text::digit_value(digits[0], 10) is Some);
        if s != digits {
            assert(s.skip(1) =~= digits);
        }
    }
}

/// What is written is one number.
pub proof fn one_number_is_written(s: Seq<char>, n: nat, m: nat)
    requires
        writes(s, n),
        writes(s, m),
    ensures
        n == m,
{
    unsigned_is_what_is_written(s, n);
    unsigned_is_what_is_written(s, m);
}

/// Seconds are read exactly where a number is written that fits, and make a duration of
/// that many times a thousand million nanoseconds; all else is reported by its name.
pub proof fn seconds_are_read(name: &str, value: &str, result: Result<Duration, ConfigError>)
    requires
        call_ensures(parse_duration_secs, (name, value), result),
    ensures
        match result {
            Ok(duration) => exists|n: nat| #[trigger]
                writes(value@, n) && n <= 0xffff_ffff_ffff_ffff && duration_nanos(duration) == n
                    * 1_000_000_000,
            Err(error) => (forall|n: nat| #[trigger]
                writes(value@, n) ==> n > 0xffff_ffff_ffff_ffff) && (
            error matches ConfigError::InvalidNumber { name: named, value: refused, cause }
                && named@ == name@ && refused@ == value@ && cause == u64_refusal(value@)),
        },
{
    match result {
        Ok(duration) => {
            let n = unsigned_up_to(value@, u64::MAX as nat)->0;
            unsigned_is_what_is_written(value@, n);
            assert(writes(value@, n));
        },
        Err(error) => {
            assert forall|n: nat| #[trigger] writes(value@, n) implies n > 0xffff_ffff_ffff_ffff by {
                unsigned_is_what_is_written(value@, n);
            }
        },
    }
}

/// A switch is read exactly where one of the fourteen spellings is given; all else is
/// reported by its name.
pub proof fn switches_are_read(name: &str, value: &str, result: Result<bool, ConfigError>)
    requires
        call_ensures(parse_bool, (name, value), result),
    ensures
        says_on(value@) <==> result == Ok::<bool, ConfigError>(true),
        says_off(value@) <==> result == Ok::<bool, ConfigError>(false),
        result matches Err(error) ==> (error matches ConfigError::InvalidSwitch {
            name: named,
            value: refused,
        } && named@ == name@ && refused@ == value@),
{
    spellings_differ(value@);
}

/// No spelling is both on and off.
proof fn spellings_differ(s: Seq<char>)
    ensures
        !(says_on(s) && says_off(s)),
{
    reveal_strlit("1");
    reveal_strlit("true");
    reveal_strlit("TRUE");
    reveal_strlit("yes");
    reveal_strlit("YES");
    reveal_strlit("on");
    reveal_strlit("ON");
    reveal_strlit("0");
    reveal_strlit("false");
    reveal_strlit("FALSE");
    reveal_strlit("no");
    reveal_strlit("NO");
    reveal_strlit("off");
    reveal_strlit("OFF");
    if says_on(s) && says_off(s) {
        assert(s[0] == '1' || s[0] == 't' || s[0] == 'T' || s[0] == 'y' || s[0] == 'Y' || (s.len()
            == 2 && (s[1] == 'n' || s[1] == 'N')));
        assert(s[0] == '0' || s[0] == 'f' || s[0] == 'F' || s[0] == 'n' || s[0] == 'N' || s.len()
            == 3);
    }
}

/// The standard settings.
pub proof fn standard_settings(config: ProxyConfig)
    requires
        call_ensures(<ProxyConfig as Default>::default, (), config),
    ensures
        config.listen_addr matches SocketAddr::V4 { octets, port } && octets@ == seq![
            127u8,
            0,
            0,
            1,
        ] && port == 9050,
        config.pool_size == 8,
        duration_nanos(config.request_timeout) == 30_000_000_000,
        duration_nanos(config.new_circuit_period) == 120_000_000_000,
        duration_nanos(config.max_circuit_dirtiness) == 600_000_000_000,
        duration_nanos(config.circuit_build_timeout) == 60_000_000_000,
        config.optimistic_streams,
        config.state_dir is None,
        config.cache_dir is None,
{
}

/// A copy of a configuration has the same settings.
pub proof fn configuration_copy_is_equal(config: &ProxyConfig, copy: ProxyConfig)
    requires
        call_ensures(<ProxyConfig as Clone>::clone, (config,), copy),
    ensures
        copy.listen_addr@ == config.listen_addr@,
        copy.pool_size == config.pool_size,
        duration_nanos(copy.request_timeout) == duration_nanos(config.request_timeout),
        duration_nanos(copy.new_circuit_period) == duration_nanos(config.new_circuit_period),
        duration_nanos(copy.max_circuit_dirtiness) == duration_nanos(config.max_circuit_dirtiness),
        duration_nanos(copy.circuit_build_timeout) == duration_nanos(config.circuit_build_timeout),
        copy.optimistic_streams == config.optimistic_streams,
        match (config.state_dir, copy.state_dir) {
            (Some(one), Some(other)) => one@ == other@,
            (None, None) => true,
            _ => false,
        },
        match (config.cache_dir, copy.cache_dir) {
            (Some(one), Some(other)) => one@ == other@,
            (None, None) => true,
            _ => false,
        },
{
    let view = config@;
    assert(copy@ == view);
    assert(optional_text(copy.state_dir) == optional_text(config.state_dir));
    assert(optional_text(copy.cache_dir) == optional_text(config.cache_dir));
}

/// What the user is told of each error.
pub proof fn configuration_errors_are_told(error: &ConfigError, message: String)
    requires
        call_ensures(ConfigError::message, (error,), message),
    ensures
        match *error {
            ConfigError::InvalidListenAddr { value } => message@ == "invalid "@
                + "ARTI_PROXY_LISTEN_ADDR"@ + ": "@ + value@,
            ConfigError::InvalidNumber { name, value, .. } => message@ == "invalid "@ + name@ + ": "@
                + value@,
            ConfigError::InvalidSwitch { name, value } => message@ == "invalid "@ + name@ + ": "@
                + value@,
            ConfigError::UnpairedDirectories => message@
                == "ARTI_PROXY_STATE_DIR and ARTI_PROXY_CACHE_DIR must either both be set or both be unset"@,
            ConfigError::ZeroPoolSize => message@
                == "ARTI_PROXY_POOL_SIZE must be greater than zero"@,
        },
{
}

/// Where the lookup answers each name with the value of its variable, the result is the
/// outcome of these values.
proof fn answers_settle_the_result<F: Fn(&str) -> Option<String>>(
    lookup: F,
    set: Variables,
    result: Result<ProxyConfig, ConfigError>,
)
    requires
        call_ensures(ProxyConfig::from_lookup::<F>, (lookup,), result),
        answers(lookup, "ARTI_PROXY_LISTEN_ADDR", set.listen_addr),
        answers(lookup, "ARTI_PROXY_POOL_SIZE", set.pool_size),
        answers(lookup, "ARTI_PROXY_REQUEST_TIMEOUT_SECS", set.request_timeout),
        answers(lookup, "ARTI_PROXY_NEW_CIRCUIT_PERIOD_SECS", set.new_circuit_period),
        answers(lookup, "ARTI_PROXY_MAX_CIRCUIT_DIRTINESS_SECS", set.max_circuit_dirtiness),
        answers(lookup, "ARTI_PROXY_CIRCUIT_BUILD_TIMEOUT_SECS", set.circuit_build_timeout),
        answers(lookup, "ARTI_PROXY_OPTIMISTIC_STREAMS", set.optimistic_streams),
        answers(lookup, "ARTI_PROXY_STATE_DIR", set.state_dir),
        answers(lookup, "ARTI_PROXY_CACHE_DIR", set.cache_dir),
    ensures
        reports(result, set.outcome()),
{
    assert forall|i: int, answer: Option<Seq<char>>|
        0 <= i < 9 && #[trigger] may_answer(lookup, variable_name(i), answer) implies answer
        == set.value(i) by {
        let found = choose|found: Option<String>| #[trigger]
            call_ensures(lookup, (variable_name(i),), found) && optional_text(found) == answer;
        assert(i == 0 || i == 1 || i == 2 || i == 3 || i == 4 || i == 5 || i == 6 || i == 7 || i
            == 8);
    }
    assert(tells(lookup, set));
}

/// Each setting of a configuration that was read is what its own variable writes, or the
/// standard one where the variable is unset.
#[verifier::rlimit(40)]
pub proof fn variables_set_their_own_settings<F: Fn(&str) -> Option<String>>(
    lookup: F,
    set: Variables,
    config: ProxyConfig,
)
    requires
        call_ensures(ProxyConfig::from_lookup::<F>, (lookup,), Ok(config)),
        answers(lookup, "ARTI_PROXY_LISTEN_ADDR", set.listen_addr),
        answers(lookup, "ARTI_PROXY_POOL_SIZE", set.pool_size),
        answers(lookup, "ARTI_PROXY_REQUEST_TIMEOUT_SECS", set.request_timeout),
        answers(lookup, "ARTI_PROXY_NEW_CIRCUIT_PERIOD_SECS", set.new_circuit_period),
        answers(lookup, "ARTI_PROXY_MAX_CIRCUIT_DIRTINESS_SECS", set.max_circuit_dirtiness),
        answers(lookup, "ARTI_PROXY_CIRCUIT_BUILD_TIMEOUT_SECS", set.circuit_build_timeout),
        answers(lookup, "ARTI_PROXY_OPTIMISTIC_STREAMS", set.optimistic_streams),
        answers(lookup, "ARTI_PROXY_STATE_DIR", set.state_dir),
        answers(lookup, "ARTI_PROXY_CACHE_DIR", set.cache_dir),
    ensures
        match set.listen_addr {
            Some(s) => forall|text: &str, address: Option<SocketAddr>|
                text@ == s && #[trigger] call_ensures(SocketAddr::parse, (text,), address) ==> (
                address matches Some(address) && address@ == config.listen_addr@),
            None => config.listen_addr matches SocketAddr::V4 { octets, port } && octets@ == seq![
                127u8,
                0,
                0,
                1,
            ] && port == 9050,
        },
        match set.pool_size {
            Some(s) => writes(s, config.pool_size as nat),
            None => config.pool_size == 8,
        },
        config.pool_size > 0,
        match set.request_timeout {
            Some(s) => exists|n: nat| #[trigger]
                writes(s, n) && duration_nanos(config.request_timeout) == n * 1_000_000_000,
            None => duration_nanos(config.request_timeout) == 30_000_000_000,
        },
        match set.new_circuit_period {
            Some(s) => exists|n: nat| #[trigger]
                writes(s, n) && duration_nanos(config.new_circuit_period) == n * 1_000_000_000,
            None => duration_nanos(config.new_circuit_period) == 120_000_000_000,
        },
        match set.max_circuit_dirtiness {
            Some(s) => exists|n: nat| #[trigger]
                writes(s, n) && duration_nanos(config.max_circuit_dirtiness) == n * 1_000_000_000,
            None => duration_nanos(config.max_circuit_dirtiness) == 600_000_000_000,
        },
        match set.circuit_build_timeout {
            Some(s) => exists|n: nat| #[trigger]
                writes(s, n) && duration_nanos(config.circuit_build_timeout) == n * 1_000_000_000,
            None => duration_nanos(config.circuit_build_timeout) == 60_000_000_000,
        },
        match set.optimistic_streams {
            Some(s) => if config.optimistic_streams {
                says_on(s)
            } else {
                says_off(s)
            },
            None => config.optimistic_streams,
        },
        match config.state_dir {
            Some(directory) => set.state_dir == Some(directory@),
            None => set.state_dir is None,
        },
        match config.cache_dir {
            Some(directory) => set.cache_dir == Some(directory@),
            None => set.cache_dir is None,
        },
        config.state_dir is Some <==> config.cache_dir is Some,
{
    answers_settle_the_result(lookup, set, Ok(config));
    reveal_with_fuel(Variables::first_refused, 10);
    assert(set.first_refused(0) == 9);
    assert(config@ == set.settings());
    if let Some(s) = set.pool_size {
        unsigned_is_what_is_written(s, unsigned(s)->0);
    }
    if let Some(s) = set.request_timeout {
        unsigned_is_what_is_written(s, unsigned(s)->0);
        assert(writes(s, unsigned(s)->0));
    }
    if let Some(s) = set.new_circuit_period {
        unsigned_is_what_is_written(s, unsigned(s)->0);
        assert(writes(s, unsigned(s)->0));
    }
    if let Some(s) = set.max_circuit_dirtiness {
        unsigned_is_what_is_written(s, unsigned(s)->0);
        assert(writes(s, unsigned(s)->0));
    }
    if let Some(s) = set.circuit_build_timeout {
        unsigned_is_what_is_written(s, unsigned(s)->0);
        assert(writes(s, unsigned(s)->0));
    }
}

/// Whether a number that fits is written, or the variable is unset.
pub open spec fn unset_or_number(value: Option<Seq<char>>, max: nat) -> bool {
    match value {
        Some(s) => exists|n: nat| #[trigger] writes(s, n) && n <= max,
        None => true,
    }
}

/// Whether a switch is written, or the variable is unset.
pub open spec fn unset_or_switch(value: Option<Seq<char>>) -> bool {
    match value {
        Some(s) => says_on(s) || says_off(s),
        None => true,
    }
}

/// Whether an address is written, or the variable is unset.
pub open spec fn unset_or_address(value: Option<Seq<char>>) -> bool {
    match value {
        Some(s) => reads_as_address(s),
        None => true,
    }
}

proof fn numbers_are_accepted(value: Option<Seq<char>>, max: nat)
    requires
        value is Some,
    ensures
        unsigned_up_to(value->0, max) is Some <==> unset_or_number(value, max),
{
    let s = value->0;
    if unsigned_up_to(s, max) is Some {
        let n = unsigned(s)->0;
        unsigned_is_what_is_written(s, n);
        assert(writes(s, n) && n <= max);
    }
    if unset_or_number(value, max) {
        let n = choose|n: nat| #[trigger] writes(s, n) && n <= max;
        unsigned_is_what_is_written(s, n);
    }
}

/// A configuration is read where every variable is unset or written well, the pool has
/// a client, and the directories are set together.
pub proof fn good_variables_are_read<F: Fn(&str) -> Option<String>>(
    lookup: F,
    set: Variables,
    result: Result<ProxyConfig, ConfigError>,
)
    requires
        call_ensures(ProxyConfig::from_lookup::<F>, (lookup,), result),
        answers(lookup, "ARTI_PROXY_LISTEN_ADDR", set.listen_addr),
        answers(lookup, "ARTI_PROXY_POOL_SIZE", set.pool_size),
        answers(lookup, "ARTI_PROXY_REQUEST_TIMEOUT_SECS", set.request_timeout),
        answers(lookup, "ARTI_PROXY_NEW_CIRCUIT_PERIOD_SECS", set.new_circuit_period),
        answers(lookup, "ARTI_PROXY_MAX_CIRCUIT_DIRTINESS_SECS", set.max_circuit_dirtiness),
        answers(lookup, "ARTI_PROXY_CIRCUIT_BUILD_TIMEOUT_SECS", set.circuit_build_timeout),
        answers(lookup, "ARTI_PROXY_OPTIMISTIC_STREAMS", set.optimistic_streams),
        answers(lookup, "ARTI_PROXY_STATE_DIR", set.state_dir),
        answers(lookup, "ARTI_PROXY_CACHE_DIR", set.cache_dir),
        unset_or_address(set.listen_addr),
        unset_or_number(set.pool_size, 0xffff_ffff),
        set.pool_size matches Some(s) ==> !writes(s, 0),
        unset_or_number(set.request_timeout, 0xffff_ffff_ffff_ffff),
        unset_or_number(set.new_circuit_period, 0xffff_ffff_ffff_ffff),
        unset_or_number(set.max_circuit_dirtiness, 0xffff_ffff_ffff_ffff),
        unset_or_number(set.circuit_build_timeout, 0xffff_ffff_ffff_ffff),
        unset_or_switch(set.optimistic_streams),
        set.state_dir is Some <==> set.cache_dir is Some,
    ensures
        result is Ok,
{
    answers_settle_the_result(lookup, set, result);
    reveal_with_fuel(Variables::first_refused, 10);
    if let Some(s) = set.pool_size {
        numbers_are_accepted(set.pool_size, u32::MAX as nat);
        unsigned_is_what_is_written(s, 0);
    }
    if set.request_timeout is Some {
        numbers_are_accepted(set.request_timeout, u64::MAX as nat);
    }
    if set.new_circuit_period is Some {
        numbers_are_accepted(set.new_circuit_period, u64::MAX as nat);
    }
    if set.max_circuit_dirtiness is Some {
        numbers_are_accepted(set.max_circuit_dirtiness, u64::MAX as nat);
    }
    if set.circuit_build_timeout is Some {
        numbers_are_accepted(set.circuit_build_timeout, u64::MAX as nat);
    }
    assert(set.first_refused(0) == 9);
}

/// Whether an address is refused when it is read.
pub open spec fn address_is_refused(s: Seq<char>) -> bool {
    exists|text: &str|
        text@ == s && #[trigger] call_ensures(SocketAddr::parse, (text,), None::<SocketAddr>)
}

/// Whether the first `count` variables are written well, in the order of the address,
/// the pool size, the four durations and the switch.
pub open spec fn written_well(set: Variables, count: int) -> bool {
    &&& count > 0 ==> (set.listen_addr matches Some(s) ==> !address_is_refused(s))
    &&& count > 1 ==> unset_or_number(set.pool_size, 0xffff_ffff)
    &&& count > 2 ==> unset_or_number(set.request_timeout, 0xffff_ffff_ffff_ffff)
    &&& count > 3 ==> unset_or_number(set.new_circuit_period, 0xffff_ffff_ffff_ffff)
    &&& count > 4 ==> unset_or_number(set.max_circuit_dirtiness, 0xffff_ffff_ffff_ffff)
    &&& count > 5 ==> unset_or_number(set.circuit_build_timeout, 0xffff_ffff_ffff_ffff)
    &&& count > 6 ==> unset_or_switch(set.optimistic_streams)
}

/// A configuration is refused for a reason: the value of a variable that is not written
/// well while all before it are, with its name and its value; or else directories that
/// are not set together; or else a pool without a client.
pub proof fn refusals_have_a_reason<F: Fn(&str) -> Option<String>>(
    lookup: F,
    set: Variables,
    error: ConfigError,
)
    requires
        call_ensures(ProxyConfig::from_lookup::<F>, (lookup,), Err(error)),
        answers(lookup, "ARTI_PROXY_LISTEN_ADDR", set.listen_addr),
        answers(lookup, "ARTI_PROXY_POOL_SIZE", set.pool_size),
        answers(lookup, "ARTI_PROXY_REQUEST_TIMEOUT_SECS", set.request_timeout),
        answers(lookup, "ARTI_PROXY_NEW_CIRCUIT_PERIOD_SECS", set.new_circuit_period),
        answers(lookup, "ARTI_PROXY_MAX_CIRCUIT_DIRTINESS_SECS", set.max_circuit_dirtiness),
        answers(lookup, "ARTI_PROXY_CIRCUIT_BUILD_TIMEOUT_SECS", set.circuit_build_timeout),
        answers(lookup, "ARTI_PROXY_OPTIMISTIC_STREAMS", set.optimistic_streams),
        answers(lookup, "ARTI_PROXY_STATE_DIR", set.state_dir),
        answers(lookup, "ARTI_PROXY_CACHE_DIR", set.cache_dir),
    ensures
        match error {
            ConfigError::InvalidListenAddr { value } => set.listen_addr == Some(value@)
                && !reads_as_address(value@),
            ConfigError::InvalidNumber { name, value, cause } => {
                ||| name@ == "ARTI_PROXY_POOL_SIZE"@ && set.pool_size == Some(value@) && cause
                    == u32_refusal(value@) && written_well(set, 1) && !unset_or_number(
                    set.pool_size,
                    0xffff_ffff,
                )
                ||| name@ == "ARTI_PROXY_REQUEST_TIMEOUT_SECS"@ && set.request_timeout == Some(value@)
                    && cause == u64_refusal(value@) && written_well(set, 2) && !unset_or_number(
                    set.request_timeout,
                    0xffff_ffff_ffff_ffff,
                )
                ||| name@ == "ARTI_PROXY_NEW_CIRCUIT_PERIOD_SECS"@ && set.new_circuit_period == Some(value@)
                    && cause == u64_refusal(value@) && written_well(set, 3) && !unset_or_number(
                    set.new_circuit_period,
                    0xffff_ffff_ffff_ffff,
                )
                ||| name@ == "ARTI_PROXY_MAX_CIRCUIT_DIRTINESS_SECS"@ && set.max_circuit_dirtiness == Some(value@)
                    && cause == u64_refusal(value@) && written_well(set, 4) && !unset_or_number(
                    set.max_circuit_dirtiness,
                    0xffff_ffff_ffff_ffff,
                )
                ||| name@ == "ARTI_PROXY_CIRCUIT_BUILD_TIMEOUT_SECS"@ && set.circuit_build_timeout == Some(value@)
                    && cause == u64_refusal(value@) && written_well(set, 5) && !unset_or_number(
                    set.circuit_build_timeout,
                    0xffff_ffff_ffff_ffff,
                )
            },
            ConfigError::InvalidSwitch { name, value } => name@ == "ARTI_PROXY_OPTIMISTIC_STREAMS"@
                && set.optimistic_streams == Some(value@) && written_well(set, 6)
                && !unset_or_switch(set.optimistic_streams),
            ConfigError::UnpairedDirectories => written_well(set, 7) && set.state_dir is Some
                != set.cache_dir is Some,
            ConfigError::ZeroPoolSize => written_well(set, 7) && (set.state_dir is Some
                <==> set.cache_dir is Some) && set.pool_size is Some && writes(set.pool_size->0, 0),
        },
{
    answers_settle_the_result(lookup, set, Err(error));
    reveal_with_fuel(Variables::first_refused, 10);
    if set.pool_size is Some {
        numbers_are_accepted(set.pool_size, u32::MAX as nat);
        unsigned_is_what_is_written(set.pool_size->0, 0);
    }
    if set.request_timeout is Some {
        numbers_are_accepted(set.request_timeout, u64::MAX as nat);
    }
    if set.new_circuit_period is Some {
        numbers_are_accepted(set.new_circuit_period, u64::MAX as nat);
    }
    if set.max_circuit_dirtiness is Some {
        numbers_are_accepted(set.max_circuit_dirtiness, u64::MAX as nat);
    }
    if set.circuit_build_timeout is Some {
        numbers_are_accepted(set.circuit_build_timeout, u64::MAX as nat);
    }
}

} // verus!
