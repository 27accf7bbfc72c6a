//! Which errors end a relayed connection as usual.

use std::io::ErrorKind;
use vstd::prelude::*;

verus! {

/// `anyhow::Error`: any error, with the chain of its causes.
#[verifier::external_type_specification]
#[verifier::external_body]
pub struct ExAnyhowError(anyhow::Error);

/// The kind of an I/O error, as far as it tells how a connection ended.
#[derive(Clone, Copy, Debug, PartialEq, Eq, Structural)]
pub enum IoErrorKind {
    NotConnected,
    ConnectionRefused,
    ConnectionReset,
    ConnectionAborted,
    BrokenPipe,
    UnexpectedEof,
    TimedOut,
    Other,
}

/// One link in the chain of causes of an error.
#[derive(Debug)]
pub enum ErrorSource {
    /// An I/O error.
    Io(IoErrorKind),
    /// Any other error, by its message.
    Message(String),
}

/// The mathematical value of an [`ErrorSource`].
#[verifier::ext_equal]
pub ghost enum SourceView {
    Io(IoErrorKind),
    Message(Seq<char>),
}

impl View for ErrorSource {
    type V = SourceView;

    open spec fn view(&self) -> SourceView {
        match *self {
            ErrorSource::Io(kind) => SourceView::Io(kind),
            ErrorSource::Message(message) => SourceView::Message(message@),
        }
    }
}

/// The chain of causes that an error holds, starting with the error itself.
pub uninterp spec fn error_sources(error: anyhow::Error) -> Seq<SourceView>;

/// Calls `anyhow::Error::chain`, which walks from the error itself down to its
/// root cause, and hands out each link: the kind of an I/O error, the message of
/// any other error.
#[verifier::external_body]
fn error_chain(error: &anyhow::Error) -> (sources: Vec<ErrorSource>)
    ensures
        sources@.map_values(|source: ErrorSource| source@) == error_sources(*error),
{
    error.chain().map(|source| match source.downcast_ref::<std::io::Error>() {
        Some(cause) => ErrorSource::Io(match cause.kind() {
            ErrorKind::NotConnected => IoErrorKind::NotConnected,
            ErrorKind::ConnectionRefused => IoErrorKind::ConnectionRefused,
            ErrorKind::ConnectionReset => IoErrorKind::ConnectionReset,
            ErrorKind::ConnectionAborted => IoErrorKind::ConnectionAborted,
            ErrorKind::BrokenPipe => IoErrorKind::BrokenPipe,
            ErrorKind::UnexpectedEof => IoErrorKind::UnexpectedEof,
            ErrorKind::TimedOut => IoErrorKind::TimedOut,
            _ => IoErrorKind::Other,
        }),
        None => ErrorSource::Message(source.to_string()),
    }).collect()
}

/// Whether one link says that the connection is merely gone.
pub open spec fn benign_source(source: SourceView) -> bool {
    match source {
        SourceView::Io(kind) => kind == IoErrorKind::NotConnected || kind
            == IoErrorKind::ConnectionReset || kind == IoErrorKind::ConnectionAborted || kind
            == IoErrorKind::BrokenPipe || kind == IoErrorKind::UnexpectedEof,
        SourceView::Message(message) => message == "Stream not connected"@,
    }
}

/// Whether any link in the chain says that the connection is merely gone.
pub open spec fn benign_chain(sources: Seq<SourceView>) -> bool {
    exists|i: int| 0 <= i < sources.len() && benign_source(#[trigger] sources[i])
}

/// Whether one link says that the connection is merely gone.
pub fn is_benign_disconnect_source(source: &ErrorSource) -> (benign: bool)
    ensures
        benign == benign_source(source@),
{
    match source {
        ErrorSource::Io(kind) => match kind {
            IoErrorKind::NotConnected
            | IoErrorKind::ConnectionReset
            | IoErrorKind::ConnectionAborted
            | IoErrorKind::BrokenPipe
            | IoErrorKind::UnexpectedEof => true,
            _ => false,
        },
        ErrorSource::Message(message) => crate::text::same_text(
            message.as_str(),
            "Stream not connected",
        ),
    }
}

/// Whether any of the links says that the connection is merely gone.
pub fn any_benign_source(sources: &Vec<ErrorSource>) -> (benign: bool)
    ensures
        benign == benign_chain(sources@.map_values(|source: ErrorSource| source@)),
{
    let ghost views = sources@.map_values(|source: ErrorSource| source@);
    let mut i: usize = 0;
    while i < sources.len()
        invariant
            0 <= i <= sources.len(),
            views == sources@.map_values(|source: ErrorSource| source@),
            forall|j: int| 0 <= j < i ==> !benign_source(#[trigger] views[j]),
        decreases sources.len() - i,
    {
        assert(views[i as int] == sources@[i as int]@);
        if is_benign_disconnect_source(&sources[i]) {
            return true;
        }
        i = i + 1;
    }
    false
}

/// Whether an error that ended a relayed connection is part of a normal teardown.
///
/// Arti reports `NotConnected` when a Tor stream is shut down after EOF instead of
/// returning a clean I/O EOF, so relaying can fail during normal teardown.
pub fn is_benign_disconnect(error: &anyhow::Error) -> (benign: bool)
    ensures
        benign == benign_chain(error_sources(*error)),
{
    any_benign_source(&error_chain(error))
}

/// An error is part of a normal teardown exactly where a link of its chain is one of
/// five kinds of I/O error, or has the one message that Arti gives for a stream that
/// is gone.
pub proof fn teardown_is_told_by_a_link(error: &anyhow::Error, benign: bool)
    requires
        call_ensures(is_benign_disconnect, (error,), benign),
    ensures
        benign <==> exists|i: int|
            0 <= i < error_sources(*error).len() && {
                let source = #[trigger] error_sources(*error)[i];
                ||| source == SourceView::Io(IoErrorKind::NotConnected)
                ||| source == SourceView::Io(IoErrorKind::ConnectionReset)
                ||| source == SourceView::Io(IoErrorKind::ConnectionAborted)
                ||| source == SourceView::Io(IoErrorKind::BrokenPipe)
                ||| source == SourceView::Io(IoErrorKind::UnexpectedEof)
                ||| source == SourceView::Message("Stream not connected"@)
            },
{
    let sources = error_sources(*error);
    if benign {
        let i = choose|i: int| 0 <= i < sources.len() && benign_source(#[trigger] sources[i]);
        assert(0 <= i < sources.len() && benign_source(sources[i]));
    }
}

/// A failure that is told in messages alone, none of them that of a stream that is
/// gone, is no normal teardown.
pub proof fn other_messages_are_failures(error: &anyhow::Error, benign: bool)
    requires
        call_ensures(is_benign_disconnect, (error,), benign),
        forall|i: int|
            0 <= i < error_sources(*error).len() ==> (#[trigger] error_sources(*error)[i]) is Message
                && error_sources(*error)[i]->Message_0 != "Stream not connected"@,
    ensures
        !benign,
{
    teardown_is_told_by_a_link(error, benign);
}

/// One link alone tells of a normal teardown by its kind or by its message.
pub proof fn teardown_link(source: &ErrorSource, benign: bool)
    requires
        call_ensures(is_benign_disconnect_source, (source,), benign),
    ensures
        match *source {
            ErrorSource::Message(message) => benign <==> message@ == "Stream not connected"@,
            ErrorSource::Io(kind) => benign <==> !(kind == IoErrorKind::ConnectionRefused || kind
                == IoErrorKind::TimedOut || kind == IoErrorKind::Other),
        },
{
}

/// A chain tells of a normal teardown where either part of it does, so that a context
/// put around an error changes nothing of it.
pub proof fn teardown_of_a_longer_chain(
    outer: &Vec<ErrorSource>,
    inner: &Vec<ErrorSource>,
    whole: &Vec<ErrorSource>,
    in_outer: bool,
    in_inner: bool,
    in_whole: bool,
)
    requires
        whole@ == outer@ + inner@,
        call_ensures(any_benign_source, (outer,), in_outer),
        call_ensures(any_benign_source, (inner,), in_inner),
        call_ensures(any_benign_source, (whole,), in_whole),
    ensures
        in_whole == (in_outer || in_inner),
{
    let view = |source: ErrorSource| source@;
    let a = outer@.map_values(view);
    let b = inner@.map_values(view);
    let c = whole@.map_values(view);
    assert(c =~= a + b);
    if in_outer {
        let i = choose|i: int| 0 <= i < a.len() && benign_source(#[trigger] a[i]);
        assert(benign_source(c[i]));
    }
    if in_inner {
        let i = choose|i: int| 0 <= i < b.len() && benign_source(#[trigger] b[i]);
        assert(benign_source(c[a.len() + i]));
    }
    if in_whole {
        let i = choose|i: int| 0 <= i < c.len() && benign_source(#[trigger] c[i]);
        if i < a.len() {
            assert(benign_source(a[i]));
        } else {
            assert(benign_source(b[i - a.len()]));
        }
    }
}

/// A row of links tells of a normal teardown exactly where one of them alone does.
pub proof fn teardown_of_a_row(sources: &Vec<ErrorSource>, benign: bool)
    requires
        call_ensures(any_benign_source, (sources,), benign),
    ensures
        benign <==> exists|i: int|
            0 <= i < sources@.len() && {
                let source = #[trigger] sources@[i];
                ||| source == ErrorSource::Io(IoErrorKind::NotConnected)
                ||| source == ErrorSource::Io(IoErrorKind::ConnectionReset)
                ||| source == ErrorSource::Io(IoErrorKind::ConnectionAborted)
                ||| source == ErrorSource::Io(IoErrorKind::BrokenPipe)
                ||| source == ErrorSource::Io(IoErrorKind::UnexpectedEof)
                ||| (source matches ErrorSource::Message(message) && message@
                    == "Stream not connected"@)
            },
{
    let views = sources@.map_values(|source: ErrorSource| source@);
    if benign {
        let i = choose|i: int| 0 <= i < views.len() && benign_source(#[trigger] views[i]);
        assert(views[i] == sources@[i]@);
    }
    if exists|i: int|
        0 <= i < sources@.len() && benign_source((#[trigger] sources@[i])@) {
        let i = choose|i: int| 0 <= i < sources@.len() && benign_source((#[trigger] sources@[i])@);
        assert(benign_source(views[i]));
    }
    assert(forall|i: int| 0 <= i < sources@.len() ==> views[i] == (#[trigger] sources@[i])@);
}

} // verus!
