use std::sync::{Arc, Mutex};

use arti_proxy::session::{Action, Command, Event, Refusal, SessionError};
use arti_proxy::{Session, SocketAddr, Target};
use fast_socks5::client::{Config as ClientConfig, Socks5Stream};
use fast_socks5::server::Socks5ServerProtocol;
use fast_socks5::util::target_addr::TargetAddr;
use fast_socks5::Socks5Command;
use tokio::io::{AsyncReadExt, AsyncWriteExt, DuplexStream};

fn domain() -> Target {
    Target::Domain { name: "example.com".to_owned(), port: 80 }
}

fn requested(command: Command) -> (Session, Action) {
    let (session, action) = Session::start();
    assert!(matches!(action, Action::Handshake));
    let (session, action) = session.step(Event::Accepted);
    assert!(matches!(action, Action::ReadCommand));
    session.step(Event::Requested { command, target: domain() })
}

fn relaying() -> Session {
    let (session, action) = requested(Command::TcpConnect);
    assert!(matches!(&action, Action::Connect(target) if *target == domain()));
    let (session, action) = session.step(Event::Connected);
    assert!(matches!(
        action,
        Action::Confirm(SocketAddr::V4 { octets: [127, 0, 0, 1], port: 0 })
    ));
    let (session, action) = session.step(Event::Confirmed);
    assert!(matches!(action, Action::Relay));
    session
}

fn failed(text: &'static str) -> Event {
    Event::Failed(anyhow::Error::msg(text))
}

fn error_of(action: Action) -> SessionError {
    match action {
        Action::Finish(Err(error)) => error,
        other => panic!("{other:?}"),
    }
}

fn texts_of(action: Action) -> (Option<String>, Option<String>) {
    let error = error_of(action);
    (error.message(), error.into_cause().map(|cause| cause.to_string()))
}

async fn serve(socket: DuplexStream, seen: Arc<Mutex<Vec<String>>>) {
    let (mut session, mut action) = Session::start();
    let mut opened = Some(socket);
    let mut authenticated = None;
    let mut command_read = None;
    let mut inbound = None;
    let mut outbound = None;
    loop {
        let event = match action {
            Action::Handshake => {
                let socket = opened.take().unwrap();
                authenticated = Some(Socks5ServerProtocol::accept_no_auth(socket).await.unwrap());
                Event::Accepted
            }
            Action::ReadCommand => {
                let (proto, command, target) =
                    authenticated.take().unwrap().read_command().await.unwrap();
                command_read = Some(proto);
                assert_eq!(command, Socks5Command::TCPConnect);
                match target {
                    TargetAddr::Domain(name, port) => Event::Requested {
                        command: Command::TcpConnect,
                        target: Target::Domain { name, port },
                    },
                    other => panic!("{other}"),
                }
            }
            Action::Connect(target) => {
                seen.lock().unwrap().push(target.display());
                let (near, far) = tokio::io::duplex(1024);
                tokio::spawn(echo(far));
                outbound = Some(near);
                Event::Connected
            }
            Action::Confirm(SocketAddr::V4 { octets, port }) => {
                let proto = command_read.take().unwrap();
                inbound = Some(proto.reply_success((octets, port).into()).await.unwrap());
                Event::Confirmed
            }
            Action::Relay => {
                let copied = tokio::io::copy_bidirectional(
                    inbound.as_mut().unwrap(),
                    outbound.as_mut().unwrap(),
                )
                .await;
                match copied {
                    Ok(_) => Event::Relayed,
                    Err(error) => Event::Failed(anyhow::Error::from(error)),
                }
            }
            Action::Finish(result) => {
                result.unwrap();
                return;
            }
            other => panic!("{other:?}"),
        };
        (session, action) = session.step(event);
    }
}

async fn echo(mut stream: DuplexStream) {
    let mut buf = [0_u8; 1024];
    while let Ok(read) = stream.read(&mut buf).await {
        if read == 0 || stream.write_all(&buf[..read]).await.is_err() {
            return;
        }
    }
}

async fn exchange(proxy: DuplexStream, host: &str, port: u16, message: &[u8]) {
    let mut stream = Socks5Stream::use_stream(proxy, None, ClientConfig::default()).await.unwrap();
    let target = TargetAddr::Domain(host.to_owned(), port);
    stream.request(Socks5Command::TCPConnect, target).await.unwrap();
    stream.write_all(message).await.unwrap();
    let mut buf = vec![0_u8; message.len()];
    stream.read_exact(&mut buf).await.unwrap();
    assert_eq!(buf, message);
}

#[test]
fn socks_proxy_forwards_tcp_and_preserves_domain_targets() {
    let runtime =
        tokio::runtime::Builder::new_current_thread().enable_all().build().unwrap();
    runtime.block_on(async {
        let seen_targets = Arc::new(Mutex::new(Vec::new()));
        let (first_client, first_socket) = tokio::io::duplex(1024);
        let (second_client, second_socket) = tokio::io::duplex(1024);
        let seen = Arc::clone(&seen_targets);
        let proxy_task = tokio::spawn(async move {
            for socket in [first_socket, second_socket] {
                serve(socket, Arc::clone(&seen)).await;
            }
        });

        exchange(first_client, "example.com", 80, b"hello over socks").await;
        exchange(second_client, "example.net", 443, b"second request").await;

        proxy_task.await.unwrap();

        let recorded = seen_targets.lock().unwrap().clone();
        assert_eq!(recorded, vec!["example.com:80".to_owned(), "example.net:443".to_owned()]);
    });
}

#[test]
fn other_commands_are_refused() {
    for (command, text) in [
        (Command::TcpBind, "unsupported SOCKS command: TCPBind"),
        (Command::UdpAssociate, "unsupported SOCKS command: UDPAssociate"),
    ] {
        let (session, action) = requested(command);
        assert!(matches!(action, Action::Refuse(Refusal::CommandNotSupported)));
        let (session, action) = session.step(Event::Refused);
        assert!(matches!(session, Session::Finished));
        assert_eq!(texts_of(action), (Some(text.to_owned()), None));
    }
    assert_eq!(Command::TcpConnect.name(), "TCPConnect");
}

#[test]
fn an_unreachable_target_is_refused() {
    let (session, _) = requested(Command::TcpConnect);
    let (session, action) = session.step(failed("no route"));
    assert!(matches!(action, Action::Refuse(Refusal::HostUnreachable)));
    let (_, action) = session.step(Event::Refused);
    assert_eq!(texts_of(action), (None, Some("no route".to_owned())));
}

#[test]
fn each_failure_has_its_message() {
    let broken = Some("broken".to_owned());

    let (session, _) = Session::start();
    let (_, action) = session.step(failed("broken"));
    assert_eq!(texts_of(action), (Some("SOCKS handshake failed".to_owned()), broken.clone()));

    let (session, _) = Session::start();
    let (session, _) = session.step(Event::Accepted);
    let (_, action) = session.step(failed("broken"));
    assert_eq!(texts_of(action), (Some("failed to read SOCKS command".to_owned()), broken.clone()));

    let (session, _) = requested(Command::TcpBind);
    let (_, action) = session.step(failed("broken"));
    assert_eq!(
        texts_of(action),
        (Some("failed to send unsupported command reply".to_owned()), broken.clone())
    );

    let (session, _) = requested(Command::TcpConnect);
    let (session, _) = session.step(failed("no route"));
    let (_, action) = session.step(failed("broken"));
    assert_eq!(
        texts_of(action),
        (Some("failed to send connect error reply".to_owned()), broken.clone())
    );

    let (session, _) = requested(Command::TcpConnect);
    let (session, _) = session.step(Event::Connected);
    let (_, action) = session.step(failed("broken"));
    assert_eq!(
        texts_of(action),
        (Some("failed to send connect success reply".to_owned()), broken.clone())
    );

    let (_, action) = relaying().step(failed("broken"));
    assert_eq!(
        texts_of(action),
        (Some("failed while proxying example.com:80".to_owned()), broken)
    );
}

#[test]
fn a_normal_teardown_is_a_success() {
    let (session, action) = relaying().step(Event::Relayed);
    assert!(matches!(action, Action::Finish(Ok(()))));
    assert!(matches!(session, Session::Finished));

    let (_, action) = relaying().step(failed("Stream not connected"));
    assert!(matches!(action, Action::Finish(Ok(()))));

    let reset = std::io::Error::from(std::io::ErrorKind::ConnectionReset);
    let (_, action) = relaying().step(Event::Failed(anyhow::Error::from(reset)));
    assert!(matches!(action, Action::Finish(Ok(()))));
}

#[test]
fn sessions_await_the_outcome_of_their_action() {
    let (session, _) = Session::start();
    assert!(session.awaits(&Event::Accepted));
    assert!(session.awaits(&failed("broken")));
    assert!(!session.awaits(&Event::Relayed));
    assert!(relaying().awaits(&Event::Relayed));
    assert!(!relaying().awaits(&Event::Confirmed));
    assert!(!Session::Finished.awaits(&failed("broken")));
    assert!(!Session::Finished.awaits(&Event::Refused));
}
