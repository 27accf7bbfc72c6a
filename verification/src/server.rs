//! The proxy itself: where it listens and how it serves.

use std::sync::Arc;
use std::time::Duration;
use vstd::prelude::*;

use crate::address::SocketAddr;
use crate::config::ProxyConfig;
use crate::connector::ArtiConnector;

verus! {

/// A proxy that serves each connection through a connector.
pub struct RotatingProxy<C> {
    pub listen_addr: SocketAddr,
    pub request_timeout: Duration,
    pub connector: Arc<C>,
}

impl<C> RotatingProxy<C> {
    /// A proxy on an address, with a limit to the time that one request takes.
    pub fn new(listen_addr: SocketAddr, request_timeout: Duration, connector: C) -> (proxy: Self)
        ensures
            proxy.listen_addr == listen_addr,
            proxy.request_timeout == request_timeout,
            *proxy.connector == connector,
    {
        RotatingProxy { listen_addr, request_timeout, connector: Arc::new(connector) }
    }

    /// Starts to serve: the listening address is to be bound.
    pub fn run(&self) -> (stage: Binding)
        ensures
            stage == (Binding {
                listen_addr: self.listen_addr,
                request_timeout: self.request_timeout,
            }),
    {
        Binding { listen_addr: self.listen_addr, request_timeout: self.request_timeout }
    }
}

impl<P> RotatingProxy<ArtiConnector<P>> {
    /// The proxy that a configuration asks for, with the connector that was set up
    /// for it.
    pub fn from_config(config: ProxyConfig, connector: ArtiConnector<P>) -> (proxy: Self)
        ensures
            proxy.listen_addr == config.listen_addr,
            proxy.request_timeout == config.request_timeout,
            *proxy.connector == connector,
    {
        RotatingProxy {
            listen_addr: config.listen_addr,
            request_timeout: config.request_timeout,
            connector: Arc::new(connector),
        }
    }
}

/// Why the proxy stopped serving.
#[derive(Debug)]
pub enum ServerError {
    Bind { listen_addr: SocketAddr, cause: anyhow::Error },
    /// The address that was bound cannot be told.
    LocalAddr(anyhow::Error),
    Accept(anyhow::Error),
}

impl ServerError {
    /// What is said of the cause, if anything.
    pub open spec fn spec_message(self) -> Option<Seq<char>> {
        match self {
            ServerError::Bind { listen_addr, .. } => Some(
                "failed to bind "@ + listen_addr@.display(),
            ),
            ServerError::LocalAddr(_) => None,
            ServerError::Accept(_) => Some("accept failed"@),
        }
    }

    /// What is said of the cause, if anything.
    pub fn message(&self) -> (message: Option<String>)
        ensures
            match message {
                Some(message) => self.spec_message() == Some(message@),
                None => self.spec_message() is None,
            },
    {
        match self {
            ServerError::Bind { listen_addr, .. } => {
                let mut message = "failed to bind ".to_owned();
                message.append(listen_addr.display().as_str());
                Some(message)
            },
            ServerError::LocalAddr(_) => None,
            ServerError::Accept(_) => Some("accept failed".to_owned()),
        }
    }
}

/// A proxy whose address is being bound.
#[derive(Clone, Copy, Debug)]
pub struct Binding {
    pub listen_addr: SocketAddr,
    pub request_timeout: Duration,
}

/// A proxy that is bound and asks which address it got.
#[derive(Clone, Copy, Debug)]
pub struct Announcing {
    pub request_timeout: Duration,
}

/// A proxy that waits for connections.
#[derive(Clone, Copy, Debug)]
pub struct Accepting {
    pub request_timeout: Duration,
}

impl Binding {
    /// The address is bound, or it failed.
    pub fn bound(self, outcome: Result<(), anyhow::Error>) -> (result: Result<
        Announcing,
        ServerError,
    >)
        ensures
            match outcome {
                Ok(()) => result == Ok::<Announcing, ServerError>(
                    Announcing { request_timeout: self.request_timeout },
                ),
                Err(cause) => result == Err::<Announcing, ServerError>(
                    ServerError::Bind { listen_addr: self.listen_addr, cause },
                ),
            },
    {
        match outcome {
            Ok(()) => Ok(Announcing { request_timeout: self.request_timeout }),
            Err(cause) => Err(ServerError::Bind { listen_addr: self.listen_addr, cause }),
        }
    }
}

impl Announcing {
    /// The address is known, or it failed.
    pub fn announced(self, outcome: Result<(), anyhow::Error>) -> (result: Result<
        Accepting,
        ServerError,
    >)
        ensures
            match outcome {
                Ok(()) => result == Ok::<Accepting, ServerError>(
                    Accepting { request_timeout: self.request_timeout },
                ),
                Err(cause) => result == Err::<Accepting, ServerError>(
                    ServerError::LocalAddr(cause),
                ),
            },
    {
        match outcome {
            Ok(()) => Ok(Accepting { request_timeout: self.request_timeout }),
            Err(cause) => Err(ServerError::LocalAddr(cause)),
        }
    }
}

impl Accepting {
    /// A connection came in, and is to be served within the time in the result while
    /// the proxy waits for the next one; or accepting failed, which ends the proxy.
    pub fn accepted<S>(&self, outcome: Result<S, anyhow::Error>) -> (result: Result<
        (S, Duration),
        ServerError,
    >)
        ensures
            match outcome {
                Ok(socket) => result == Ok::<(S, Duration), ServerError>(
                    (socket, self.request_timeout),
                ),
                Err(cause) => result == Err::<(S, Duration), ServerError>(
                    ServerError::Accept(cause),
                ),
            },
    {
        match outcome {
            Ok(socket) => Ok((socket, self.request_timeout)),
            Err(cause) => Err(ServerError::Accept(cause)),
        }
    }
}

/// A proxy that meets no failure binds the configured address, and serves each socket
/// that it accepts within the configured time, through the connector that it was given.
pub proof fn proxy_follows_the_configuration<P, S>(
    config: ProxyConfig,
    connector: ArtiConnector<P>,
    socket: S,
    proxy: RotatingProxy<ArtiConnector<P>>,
    binding: Binding,
    announcing: Result<Announcing, ServerError>,
    accepting: Result<Accepting, ServerError>,
    served: Result<(S, Duration), ServerError>,
)
    requires
        call_ensures(
            RotatingProxy::<ArtiConnector<P>>::from_config,
            (config, connector),
            proxy,
        ),
        call_ensures(RotatingProxy::<ArtiConnector<P>>::run, (&proxy,), binding),
        call_ensures(Binding::bound, (binding, Ok(())), announcing),
        call_ensures(Announcing::announced, (announcing->Ok_0, Ok(())), accepting),
        call_ensures(Accepting::accepted::<S>, (&accepting->Ok_0, Ok(socket)), served),
    ensures
        *proxy.connector == connector,
        binding.listen_addr == config.listen_addr,
        announcing is Ok,
        accepting is Ok,
        served is Ok,
        served->Ok_0.0 == socket,
        served->Ok_0.1 == config.request_timeout,
{
}

/// A proxy that is made by hand serves as one that a configuration asks for.
pub proof fn proxy_keeps_what_it_is_given<C, S>(
    listen_addr: SocketAddr,
    request_timeout: Duration,
    connector: C,
    socket: S,
    proxy: RotatingProxy<C>,
    binding: Binding,
    announcing: Result<Announcing, ServerError>,
    accepting: Result<Accepting, ServerError>,
    served: Result<(S, Duration), ServerError>,
)
    requires
        call_ensures(
            RotatingProxy::<C>::new,
            (listen_addr, request_timeout, connector),
            proxy,
        ),
        call_ensures(RotatingProxy::<C>::run, (&proxy,), binding),
        call_ensures(Binding::bound, (binding, Ok(())), announcing),
        call_ensures(Announcing::announced, (announcing->Ok_0, Ok(())), accepting),
        call_ensures(Accepting::accepted::<S>, (&accepting->Ok_0, Ok(socket)), served),
    ensures
        *proxy.connector == connector,
        binding.listen_addr == listen_addr,
        announcing is Ok,
        accepting is Ok,
        served is Ok,
        served->Ok_0.0 == socket,
        served->Ok_0.1 == request_timeout,
{
}

/// A proxy that cannot bind, cannot tell its address or cannot accept stops with the
/// cause of that failure; what is said of the first names the address.
pub proof fn server_failures_are_told<S>(
    binding: Binding,
    announcing: Announcing,
    accepting: Accepting,
    cause: anyhow::Error,
    shown: String,
    unbound: Result<Announcing, ServerError>,
    unannounced: Result<Accepting, ServerError>,
    unaccepted: Result<(S, Duration), ServerError>,
    bind_message: Option<String>,
    announce_message: Option<String>,
    accept_message: Option<String>,
)
    requires
        call_ensures(Binding::bound, (binding, Err(cause)), unbound),
        call_ensures(Announcing::announced, (announcing, Err(cause)), unannounced),
        call_ensures(Accepting::accepted::<S>, (&accepting, Err(cause)), unaccepted),
        call_ensures(SocketAddr::display, (&binding.listen_addr,), shown),
        call_ensures(ServerError::message, (&unbound->Err_0,), bind_message),
        call_ensures(ServerError::message, (&unannounced->Err_0,), announce_message),
        call_ensures(ServerError::message, (&unaccepted->Err_0,), accept_message),
    ensures
        unbound matches Err(ServerError::Bind { cause: why, .. }) && why == cause,
        bind_message matches Some(text) && text@ == "failed to bind "@ + shown@,
        unannounced matches Err(ServerError::LocalAddr(why)) && why == cause,
        announce_message is None,
        unaccepted matches Err(ServerError::Accept(why)) && why == cause,
        accept_message matches Some(text) && text@ == "accept failed"@,
{
}

} // verus!
