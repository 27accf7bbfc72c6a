//! What a client asks to be connected to.

use fast_socks5::util::target_addr::TargetAddr;
use vstd::prelude::*;

use crate::text;

verus! {

/// The destination of a request: an IP address or a domain name, and a port.
#[derive(Debug, PartialEq, Eq)]
pub enum Target {
    V4 { octets: [u8; 4], port: u16 },
    V6 { segments: [u16; 8], port: u16 },
    Domain { name: String, port: u16 },
}

/// The mathematical value of a [`Target`].
#[verifier::ext_equal]
pub ghost enum TargetView {
    V4 { octets: Seq<u8>, port: u16 },
    V6 { segments: Seq<u16>, port: u16 },
    Domain { name: Seq<char>, port: u16 },
}

impl View for Target {
    type V = TargetView;

    open spec fn view(&self) -> TargetView {
        match *self {
            Target::V4 { octets, port } => TargetView::V4 { octets: octets@, port },
            Target::V6 { segments, port } => TargetView::V6 { segments: segments@, port },
            Target::Domain { name, port } => TargetView::Domain { name: name@, port },
        }
    }
}

/// Four octets in decimal with dots between them.
pub open spec fn dotted(octets: Seq<u8>) -> Seq<char> {
    text::decimal(octets[0] as nat) + "."@ + text::decimal(octets[1] as nat) + "."@ + text::decimal(
        octets[2] as nat,
    ) + "."@ + text::decimal(octets[3] as nat)
}

/// The host text that `TargetAddr::into_string_and_port` gives for an IPv6 address.
pub uninterp spec fn ipv6_host(segments: Seq<u16>) -> Seq<char>;

impl TargetView {
    /// The host without the port. A domain name is kept as it is.
    pub open spec fn host(self) -> Seq<char> {
        match self {
            TargetView::V4 { octets, .. } => dotted(octets),
            TargetView::V6 { segments, .. } => ipv6_host(segments),
            TargetView::Domain { name, .. } => name,
        }
    }

    pub open spec fn port(self) -> u16 {
        match self {
            TargetView::V4 { port, .. } => port,
            TargetView::V6 { port, .. } => port,
            TargetView::Domain { port, .. } => port,
        }
    }

    /// Host and port with a colon between them, an IPv6 host in brackets.
    pub open spec fn display(self) -> Seq<char> {
        match self {
            TargetView::V6 { port, .. } => "["@ + self.host() + "]:"@ + text::decimal(port as nat),
            _ => self.host() + ":"@ + text::decimal(self.port() as nat),
        }
    }
}

/// Calls `TargetAddr::into_string_and_port`, which separates the port from the
/// host: an IPv4 address in dotted decimal, a domain name unchanged, an IPv6
/// address in a text that depends on its segments alone.
#[verifier::external_body]
fn target_addr_parts(target: Target) -> (parts: (String, u16))
    ensures
        parts.0@ == target@.host(),
        target matches Target::V6 { segments, .. } ==> parts.0@ == ipv6_host(segments@),
        parts.1 == target@.port(),
{
    match target {
        Target::V4 { octets, port } => TargetAddr::Ip((octets, port).into()),
        Target::V6 { segments, port } => TargetAddr::Ip((segments, port).into()),
        Target::Domain { name, port } => TargetAddr::Domain(name, port),
    }.into_string_and_port()
}

/// Displays a `TargetAddr`: the host, a colon and the port in decimal. The host is
/// the one that `TargetAddr::into_string_and_port` gives; that of an IPv6 address
/// stands in brackets.
#[verifier::external_body]
fn target_addr_display(target: Target) -> (display: String)
    ensures
        display@ == target@.display(),
{
    match target {
        Target::V4 { octets, port } => TargetAddr::Ip((octets, port).into()),
        Target::V6 { segments, port } => TargetAddr::Ip((segments, port).into()),
        Target::Domain { name, port } => TargetAddr::Domain(name, port),
    }.to_string()
}

impl Clone for Target {
    fn clone(&self) -> (target: Target)
        ensures
            target@ == self@,
    {
        match self {
            Target::V4 { octets, port } => Target::V4 { octets: *octets, port: *port },
            Target::V6 { segments, port } => Target::V6 { segments: *segments, port: *port },
            Target::Domain { name, port } => Target::Domain { name: name.clone(), port: *port },
        }
    }
}

impl Target {
    /// The host and the port, apart.
    pub fn into_string_and_port(self) -> (parts: (String, u16))
        ensures
            parts.0@ == self@.host(),
            parts.1 == self@.port(),
    {
        target_addr_parts(self)
    }

    /// The host and the port in one text.
    pub fn display(&self) -> (display: String)
        ensures
            display@ == self@.display(),
    {
        target_addr_display(self.clone())
    }
}

/// A domain name is handed on as it was asked for, neither resolved nor changed.
pub proof fn domain_is_kept(name: Seq<char>, port: u16)
    ensures
        ({
            let target = TargetView::Domain { name, port };
            &&& target.host() == name
            &&& target.port() == port
            &&& target.display() == name + ":"@ + text::decimal(port as nat)
        }),
{
}

/// A target is taken apart into its host and its port: four octets in decimal, the
/// text of an IPv6 address, or a domain name as it is.
pub proof fn parts_of_a_target(target: Target, parts: (String, u16))
    requires
        call_ensures(Target::into_string_and_port, (target,), parts),
    ensures
        match target {
            Target::V4 { octets, port } => parts.1 == port && parts.0@ == text::decimal(
                octets[0] as nat,
            ) + "."@ + text::decimal(octets[1] as nat) + "."@ + text::decimal(octets[2] as nat)
                + "."@ + text::decimal(octets[3] as nat),
            Target::V6 { segments, port } => parts.1 == port && parts.0@ == ipv6_host(segments@),
            Target::Domain { name, port } => parts.1 == port && parts.0@ == name@,
        },
{
}

/// A target is shown as its host, a colon and its port in decimal; an IPv6 host stands
/// in brackets.
pub proof fn target_is_shown_by_its_parts(target: Target, parts: (String, u16), shown: String)
    requires
        call_ensures(Target::into_string_and_port, (target,), parts),
        call_ensures(Target::display, (&target,), shown),
    ensures
        match target {
            Target::V6 { port, .. } => shown@ == "["@ + parts.0@ + "]:"@ + text::decimal(
                port as nat,
            ),
            Target::V4 { port, .. } => shown@ == parts.0@ + ":"@ + text::decimal(port as nat),
            Target::Domain { port, .. } => shown@ == parts.0@ + ":"@ + text::decimal(port as nat),
        },
{
}

/// A copy of a target is that target.
pub proof fn target_copy_is_equal(target: &Target, copy: Target)
    requires
        call_ensures(<Target as Clone>::clone, (target,), copy),
    ensures
        match (*target, copy) {
            (Target::V4 { octets, port }, Target::V4 { octets: other, port: same }) => octets@
                == other@ && port == same,
            (Target::V6 { segments, port }, Target::V6 { segments: other, port: same }) => segments@
                == other@ && port == same,
            (Target::Domain { name, port }, Target::Domain { name: other, port: same }) => name@
                == other@ && port == same,
            _ => false,
        },
{
}

} // verus!
