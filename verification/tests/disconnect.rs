use std::io::{Error, ErrorKind};

use arti_proxy::disconnect::{any_benign_source, ErrorSource, IoErrorKind};
use arti_proxy::{is_benign_disconnect, is_benign_disconnect_source};

#[test]
fn benign_disconnect_recognizes_expected_teardown_errors() {
    assert!(is_benign_disconnect(&anyhow::Error::from(Error::new(
        ErrorKind::NotConnected,
        "Stream not connected"
    ))));
    assert!(is_benign_disconnect(&anyhow::Error::msg("Stream not connected")));
    assert!(is_benign_disconnect(&anyhow::Error::from(Error::from(ErrorKind::BrokenPipe))));
    assert!(!is_benign_disconnect(&anyhow::Error::msg(
        "Received an END cell with reason EXITPOLICY"
    )));
}

#[test]
fn every_benign_kind_is_recognized() {
    for kind in [
        ErrorKind::NotConnected,
        ErrorKind::ConnectionReset,
        ErrorKind::ConnectionAborted,
        ErrorKind::BrokenPipe,
        ErrorKind::UnexpectedEof,
    ] {
        assert!(is_benign_disconnect(&anyhow::Error::from(Error::from(kind))));
    }
}

#[test]
fn other_kinds_are_not_benign() {
    for kind in [
        ErrorKind::ConnectionRefused,
        ErrorKind::TimedOut,
        ErrorKind::PermissionDenied,
        ErrorKind::Other,
    ] {
        assert!(!is_benign_disconnect(&anyhow::Error::from(Error::from(kind))));
    }
}

#[test]
fn an_io_error_is_judged_by_its_kind_alone() {
    let error = Error::new(ErrorKind::TimedOut, "Stream not connected");
    assert!(!is_benign_disconnect(&anyhow::Error::from(error)));
}

#[test]
fn the_whole_chain_is_searched() {
    let root = Error::from(ErrorKind::ConnectionReset);
    let error = anyhow::Error::from(root).context("reading").context("relaying");
    assert!(is_benign_disconnect(&error));
    let error = anyhow::Error::msg("Stream not connected").context("relaying");
    assert!(is_benign_disconnect(&error));
    let error = anyhow::Error::msg("stream not connected").context("relaying");
    assert!(!is_benign_disconnect(&error));
}

#[test]
fn sources_are_judged_one_by_one() {
    assert!(is_benign_disconnect_source(&ErrorSource::Io(IoErrorKind::UnexpectedEof)));
    assert!(!is_benign_disconnect_source(&ErrorSource::Io(IoErrorKind::Other)));
    assert!(is_benign_disconnect_source(&ErrorSource::Message("Stream not connected".to_owned())));
    assert!(!is_benign_disconnect_source(&ErrorSource::Message(String::new())));
    assert!(!any_benign_source(&Vec::new()));
}
