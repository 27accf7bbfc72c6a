//! The verified core of a rotating SOCKS5 proxy over Tor: its configuration, the
//! settings of its Tor client, and the course of each connection.

pub mod address;
pub mod client;
pub mod config;
pub mod connector;
pub mod disconnect;
pub mod server;
pub mod session;
pub mod target;
pub mod text;

pub use address::SocketAddr;
pub use config::{parse_bool, parse_duration_secs, ConfigError, ProxyConfig};
pub use connector::ArtiConnector;
pub use disconnect::{is_benign_disconnect, is_benign_disconnect_source};
pub use server::RotatingProxy;
pub use session::Session;
pub use target::Target;
