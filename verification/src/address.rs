//! Socket addresses and their textual form.

use vstd::prelude::*;

use crate::target;
use crate::target::Target;
use crate::text;
use crate::text::{characters, cut_at, parse_number, pieces, slice};

verus! {

/// An IP address and a port.
#[derive(Clone, Copy, Debug, PartialEq, Eq)]
pub enum SocketAddr {
    V4 { octets: [u8; 4], port: u16 },
    V6 { segments: [u16; 8], flow_info: u32, scope_id: u32, port: u16 },
}

/// The mathematical value of a [`SocketAddr`].
#[verifier::ext_equal]
pub ghost enum SocketAddrView {
    V4 { octets: Seq<u8>, port: u16 },
    V6 { segments: Seq<u16>, flow_info: u32, scope_id: u32, port: u16 },
}

impl View for SocketAddr {
    type V = SocketAddrView;

    open spec fn view(&self) -> SocketAddrView {
        match *self {
            SocketAddr::V4 { octets, port } => SocketAddrView::V4 { octets: octets@, port },
            SocketAddr::V6 { segments, flow_info, scope_id, port } => SocketAddrView::V6 {
                segments: segments@,
                flow_info,
                scope_id,
                port,
            },
        }
    }
}

/// A decimal number up to 255, in at most three digits and without leading zeros.
pub open spec fn octet(s: Seq<char>) -> Option<nat> {
    if s.len() > 3 || (s.len() > 1 && s[0] == '0') {
        None
    } else {
        text::bounded_number(s, 10, 255)
    }
}

/// Four octets with dots between them.
pub open spec fn ipv4(s: Seq<char>) -> Option<Seq<u8>> {
    let parts = text::split(s, '.');
    if parts.len() == 4 && (forall|i: int| 0 <= i < 4 ==> (#[trigger] octet(parts[i])) is Some) {
        Some(Seq::new(4, |i: int| octet(parts[i])->0 as u8))
    } else {
        None
    }
}

/// A hexadecimal number of at most four digits.
pub open spec fn segment(s: Seq<char>) -> Option<nat> {
    if s.len() > 4 {
        None
    } else {
        text::bounded_number(s, 16, 0xffff)
    }
}

/// Whether each of the pieces writes a segment.
pub open spec fn all_segments(parts: Seq<Seq<char>>) -> bool {
    forall|i: int| 0 <= i < parts.len() ==> (#[trigger] segment(parts[i])) is Some
}

/// The segments that the pieces write.
pub open spec fn segment_values(parts: Seq<Seq<char>>) -> Seq<u16> {
    parts.map_values(|part: Seq<char>| segment(part)->0 as u16)
}

/// The two segments that four octets make, most significant octet first.
pub open spec fn octet_pairs(octets: Seq<u8>) -> Seq<u16> {
    seq![(octets[0] * 256 + octets[1]) as u16, (octets[2] * 256 + octets[3]) as u16]
}

/// Segments with colons between them, possibly none. Where `dotted` allows it,
/// the last two may be written as an IPv4 address.
pub open spec fn segments(s: Seq<char>, dotted: bool) -> Option<Seq<u16>> {
    let parts = text::split(s, ':');
    if s.len() == 0 {
        Some(Seq::empty())
    } else if all_segments(parts) {
        Some(segment_values(parts))
    } else if dotted && all_segments(parts.drop_last()) && ipv4(parts.last()) is Some {
        Some(segment_values(parts.drop_last()) + octet_pairs(ipv4(parts.last())->0))
    } else {
        None
    }
}

/// Eight segments; a double colon stands for one or more zero segments.
pub open spec fn ipv6(s: Seq<char>) -> Option<Seq<u16>> {
    match text::cut(s, seq![':', ':']) {
        Some((head, tail)) => match (segments(head, false), segments(tail, true)) {
            (Some(front), Some(back)) => if front.len() + back.len() <= 7 {
                Some(front + Seq::new((8 - front.len() - back.len()) as nat, |i: int| 0u16) + back)
            } else {
                None
            },
            _ => None,
        },
        None => match segments(s, true) {
            Some(all) => if all.len() == 8 {
                Some(all)
            } else {
                None
            },
            None => None,
        },
    }
}

/// An IPv6 address and its zone: a number after a percent sign, or zero where
/// there is no percent sign.
pub open spec fn scoped_ipv6(s: Seq<char>) -> Option<(Seq<u16>, u32)> {
    match text::cut(s, seq!['%']) {
        None => match ipv6(s) {
            Some(segments) => Some((segments, 0u32)),
            None => None,
        },
        Some((address, zone)) => match (ipv6(address), text::bounded_number(zone, 10, 0xffff_ffff)) {
            (Some(segments), Some(scope_id)) => Some((segments, scope_id as u32)),
            _ => None,
        },
    }
}

/// The port in a decimal notation, leading zeros allowed.
pub open spec fn port(s: Seq<char>) -> Option<nat> {
    text::bounded_number(s, 10, 0xffff)
}

/// `address:port` with an IPv4 address.
pub open spec fn socket_addr_v4(s: Seq<char>) -> Option<SocketAddrView> {
    let parts = text::split(s, ':');
    if parts.len() == 2 && ipv4(parts[0]) is Some && port(parts[1]) is Some {
        Some(SocketAddrView::V4 { octets: ipv4(parts[0])->0, port: port(parts[1])->0 as u16 })
    } else {
        None
    }
}

/// `[address]:port` or `[address%zone]:port` with an IPv6 address.
pub open spec fn socket_addr_v6(s: Seq<char>) -> Option<SocketAddrView> {
    if s.len() == 0 || s[0] != '[' {
        None
    } else {
        match text::cut(s.skip(1), seq![']', ':']) {
            Some((inside, after)) => match (scoped_ipv6(inside), port(after)) {
                (Some((segments, scope_id)), Some(port)) => Some(
                    SocketAddrView::V6 { segments, flow_info: 0, scope_id, port: port as u16 },
                ),
                _ => None,
            },
            None => None,
        }
    }
}

/// The socket address that a text writes, if it writes one.
pub open spec fn socket_addr(s: Seq<char>) -> Option<SocketAddrView> {
    match socket_addr_v4(s) {
        Some(address) => Some(address),
        None => socket_addr_v6(s),
    }
}

/// Reads an octet, see [`octet`].
fn parse_octet(s: &Vec<char>) -> (value: Option<u8>)
    ensures
        match value {
            Some(v) => octet(s@) == Some(v as nat),
            None => octet(s@) is None,
        },
{
    if s.len() > 3 || (s.len() > 1 && s[0] == '0') {
        return None;
    }
    match parse_number(s, 10, 255) {
        Some(n) => Some(n as u8),
        None => None,
    }
}

/// Reads an IPv4 address, see [`ipv4`].
fn parse_ipv4(s: &Vec<char>) -> (octets: Option<[u8; 4]>)
    ensures
        match octets {
            Some(octets) => ipv4(s@) == Some(octets@),
            None => ipv4(s@) is None,
        },
{
    let parts = pieces(s, '.');
    let ghost texts = text::split(s@, '.');
    if parts.len() != 4 {
        return None;
    }
    assert(forall|i: int| 0 <= i < 4 ==> texts[i] == #[trigger] parts@[i]@);
    match (
        parse_octet(&parts[0]),
        parse_octet(&parts[1]),
        parse_octet(&parts[2]),
        parse_octet(&parts[3]),
    ) {
        (Some(a), Some(b), Some(c), Some(d)) => {
            let octets: [u8; 4] = [a, b, c, d];
            proof {
                assert(octet(texts[0]) == Some(a as nat));
                assert(octet(texts[1]) == Some(b as nat));
                assert(octet(texts[2]) == Some(c as nat));
                assert(octet(texts[3]) == Some(d as nat));
                assert(forall|i: int| 0 <= i < 4 ==> (#[trigger] octet(texts[i])) is Some) by {
                    assert forall|i: int| 0 <= i < 4 implies (#[trigger] octet(texts[i])) is Some by {
                        assert(i == 0 || i == 1 || i == 2 || i == 3);
                    }
                }
                assert(octets@ =~= Seq::new(4, |i: int| octet(texts[i])->0 as u8));
            }
            Some(octets)
        },
        _ => {
            assert(octet(texts[0]) is None || octet(texts[1]) is None || octet(texts[2]) is None
                || octet(texts[3]) is None);
            None
        },
    }
}

/// Reads a segment, see [`segment`].
fn parse_segment(s: &Vec<char>) -> (value: Option<u16>)
    ensures
        match value {
            Some(v) => segment(s@) == Some(v as nat),
            None => segment(s@) is None,
        },
{
    if s.len() > 4 {
        return None;
    }
    match parse_number(s, 16, 0xffff) {
        Some(n) => Some(n as u16),
        None => None,
    }
}

/// Reads the first `count` pieces as segments.
fn parse_segment_list(parts: &Vec<Vec<char>>, count: usize) -> (values: Option<Vec<u16>>)
    requires
        count <= parts.len(),
    ensures
        ({
            let texts = parts@.map_values(|part: Vec<char>| part@).take(count as int);
            match values {
                Some(values) => all_segments(texts) && values@ == segment_values(texts),
                None => !all_segments(texts),
            }
        }),
{
    let ghost texts = parts@.map_values(|part: Vec<char>| part@).take(count as int);
    let mut values: Vec<u16> = Vec::new();
    let mut i: usize = 0;
    while i < count
        invariant
            0 <= i <= count <= parts.len(),
            texts == parts@.map_values(|part: Vec<char>| part@).take(count as int),
            forall|j: int| 0 <= j < i ==> (#[trigger] segment(texts[j])) is Some,
            values@ == segment_values(texts.take(i as int)),
        decreases count - i,
    {
        assert(texts[i as int] == parts@[i as int]@);
        match parse_segment(&parts[i]) {
            Some(value) => {
                values.push(value);
                assert(values@ =~= segment_values(texts.take(i + 1)));
            },
            None => {
                return None;
            },
        }
        i = i + 1;
    }
    assert(texts.take(i as int) == texts);
    Some(values)
}

/// Reads segments, see [`segments`].
fn parse_segments(s: &Vec<char>, dotted: bool) -> (values: Option<Vec<u16>>)
    ensures
        match values {
            Some(values) => segments(s@, dotted) == Some(values@),
            None => segments(s@, dotted) is None,
        },
{
    if s.len() == 0 {
        return Some(Vec::new());
    }
    let parts = pieces(s, ':');
    let ghost texts = text::split(s@, ':');
    let last: usize = parts.len() - 1;
    assert(texts.take(parts.len() as int) =~= texts);
    assert(texts.take(last as int) =~= texts.drop_last());
    if let Some(values) = parse_segment_list(&parts, parts.len()) {
        return Some(values);
    }
    if !dotted {
        return None;
    }
    assert(texts.last() == parts@[last as int]@);
    match (parse_segment_list(&parts, last), parse_ipv4(&parts[last])) {
        (Some(front), Some(octets)) => {
            let mut values = front;
            let ghost front_values = values@;
            values.push(octets[0] as u16 * 256 + octets[1] as u16);
            values.push(octets[2] as u16 * 256 + octets[3] as u16);
            assert(values@ =~= front_values + octet_pairs(octets@));
            Some(values)
        },
        _ => None,
    }
}

/// The array of eight segments.
fn eight(values: &Vec<u16>) -> (segments: [u16; 8])
    requires
        values.len() == 8,
    ensures
        segments@ == values@,
{
    let segments: [u16; 8] = [
        values[0],
        values[1],
        values[2],
        values[3],
        values[4],
        values[5],
        values[6],
        values[7],
    ];
    assert(segments@ =~= values@);
    segments
}

/// Reads an IPv6 address, see [`ipv6`].
fn parse_ipv6(s: &Vec<char>) -> (address: Option<[u16; 8]>)
    ensures
        match address {
            Some(address) => ipv6(s@) == Some(address@),
            None => ipv6(s@) is None,
        },
{
    let gap: Vec<char> = vec![':', ':'];
    assert(gap@ =~= seq![':', ':']);
    match cut_at(s, &gap) {
        Some((head, tail)) => {
            let front = match parse_segments(&head, false) {
                Some(front) => front,
                None => {
                    return None;
                },
            };
            let back = match parse_segments(&tail, true) {
                Some(back) => back,
                None => {
                    return None;
                },
            };
            if front.len() > 7 || back.len() > 7 - front.len() {
                return None;
            }
            let mut values: Vec<u16> = front;
            let ghost start = values@;
            let zeros: usize = 8 - values.len() - back.len();
            let mut i: usize = 0;
            while i < zeros
                invariant
                    0 <= i <= zeros,
                    values@ == start + Seq::new(i as nat, |i: int| 0u16),
                decreases zeros - i,
            {
                values.push(0);
                i = i + 1;
                assert(values@ =~= start + Seq::new(i as nat, |i: int| 0u16));
            }
            let ghost padded = values@;
            let mut k: usize = 0;
            while k < back.len()
                invariant
                    0 <= k <= back.len(),
                    values@ == padded + back@.take(k as int),
                decreases back.len() - k,
            {
                values.push(back[k]);
                k = k + 1;
                assert(values@ =~= padded + back@.take(k as int));
            }
            assert(back@.take(k as int) =~= back@);
            Some(eight(&values))
        },
        None => match parse_segments(s, true) {
            Some(values) => if values.len() == 8 {
                Some(eight(&values))
            } else {
                None
            },
            None => None,
        },
    }
}

/// Reads an IPv6 address with its zone, see [`scoped_ipv6`].
fn parse_scoped_ipv6(s: &Vec<char>) -> (address: Option<([u16; 8], u32)>)
    ensures
        match address {
            Some((segments, scope_id)) => scoped_ipv6(s@) == Some((segments@, scope_id)),
            None => scoped_ipv6(s@) is None,
        },
{
    let percent: Vec<char> = vec!['%'];
    assert(percent@ =~= seq!['%']);
    match cut_at(s, &percent) {
        Some((address, zone)) => match (
            parse_ipv6(&address),
            parse_number(&zone, 10, 0xffff_ffff),
        ) {
            (Some(segments), Some(scope_id)) => Some((segments, scope_id)),
            _ => None,
        },
        None => match parse_ipv6(s) {
            Some(segments) => Some((segments, 0)),
            None => None,
        },
    }
}

/// Reads a port, see [`port`].
fn parse_port(s: &Vec<char>) -> (value: Option<u16>)
    ensures
        match value {
            Some(v) => port(s@) == Some(v as nat),
            None => port(s@) is None,
        },
{
    match parse_number(s, 10, 0xffff) {
        Some(n) => Some(n as u16),
        None => None,
    }
}

/// Reads a socket address with an IPv4 address, see [`socket_addr_v4`].
fn parse_v4(s: &Vec<char>) -> (address: Option<SocketAddr>)
    ensures
        match address {
            Some(address) => socket_addr_v4(s@) == Some(address@),
            None => socket_addr_v4(s@) is None,
        },
{
    let parts = pieces(s, ':');
    if parts.len() != 2 {
        return None;
    }
    assert(text::split(s@, ':')[0] == parts@[0]@);
    assert(text::split(s@, ':')[1] == parts@[1]@);
    match (parse_ipv4(&parts[0]), parse_port(&parts[1])) {
        (Some(octets), Some(port)) => Some(SocketAddr::V4 { octets, port }),
        _ => None,
    }
}

/// Reads a socket address with an IPv6 address, see [`socket_addr_v6`].
fn parse_v6(s: &Vec<char>) -> (address: Option<SocketAddr>)
    ensures
        match address {
            Some(address) => socket_addr_v6(s@) == Some(address@),
            None => socket_addr_v6(s@) is None,
        },
{
    if s.len() == 0 || s[0] != '[' {
        return None;
    }
    let rest = slice(s, 1, s.len());
    assert(rest@ =~= s@.skip(1));
    let closing: Vec<char> = vec![']', ':'];
    assert(closing@ =~= seq![']', ':']);
    match cut_at(&rest, &closing) {
        Some((inside, after)) => match (parse_scoped_ipv6(&inside), parse_port(&after)) {
            (Some((segments, scope_id)), Some(port)) => Some(
                SocketAddr::V6 { segments, flow_info: 0, scope_id, port },
            ),
            _ => None,
        },
        None => None,
    }
}

impl SocketAddr {
    /// Reads a socket address such as `127.0.0.1:9050` or `[::1]:9050`.
    pub fn parse(text: &str) -> (address: Option<SocketAddr>)
        ensures
            match address {
                Some(address) => socket_addr(text@) == Some(address@),
                None => socket_addr(text@) is None,
            },
    {
        let s = characters(text);
        match parse_v4(&s) {
            Some(address) => Some(address),
            None => parse_v6(&s),
        }
    }
}

impl SocketAddrView {
    /// The address in text; an IPv6 address stands in brackets, with its zone unless
    /// that is zero.
    pub open spec fn display(self) -> Seq<char> {
        match self {
            SocketAddrView::V4 { octets, port } => (target::TargetView::V4 {
                octets,
                port,
            }).display(),
            SocketAddrView::V6 { segments, scope_id, port, .. } => if scope_id == 0 {
                (target::TargetView::V6 { segments, port }).display()
            } else {
                "["@ + target::ipv6_host(segments) + "%"@ + text::decimal(scope_id as nat) + "]:"@
                    + text::decimal(port as nat)
            },
        }
    }
}

impl SocketAddr {
    /// The address in text.
    pub fn display(&self) -> (display: String)
        ensures
            display@ == self@.display(),
    {
        match *self {
            SocketAddr::V4 { octets, port } => (Target::V4 { octets, port }).display(),
            SocketAddr::V6 { segments, scope_id, port, .. } => if scope_id == 0 {
                (Target::V6 { segments, port }).display()
            } else {
                let (host, _) = (Target::V6 { segments, port }).into_string_and_port();
                let mut display = "[".to_owned();
                display.append(host.as_str());
                display.append("%");
                display.append(text::decimal_text(scope_id as u64).as_str());
                display.append("]:");
                display.append(text::decimal_text(port as u64).as_str());
                display
            },
        }
    }
}

/// The decimal notation of an octet reads back as that octet.
proof fn octet_reads_back(value: u8)
    ensures
        octet(text::decimal(value as nat)) == Some(value as nat),
{
    let n = value as nat;
    text::decimal_reads_back(n);
    text::decimal_has_no_leading_zero(n);
    reveal_with_fuel(text::decimal, 4);
    assert(text::decimal(n).len() <= 3);
}

/// Four octets in dotted decimal read back as those octets.
pub proof fn ipv4_reads_back(octets: Seq<u8>)
    requires
        octets.len() == 4,
    ensures
        ipv4(target::dotted(octets)) == Some(octets),
{
    let a = text::decimal(octets[0] as nat);
    let b = text::decimal(octets[1] as nat);
    let c = text::decimal(octets[2] as nat);
    let d = text::decimal(octets[3] as nat);
    text::decimal_reads_back(octets[0] as nat);
    text::decimal_reads_back(octets[1] as nat);
    text::decimal_reads_back(octets[2] as nat);
    text::decimal_reads_back(octets[3] as nat);
    text::number_has_no(a, 10, '.');
    text::number_has_no(b, 10, '.');
    text::number_has_no(c, 10, '.');
    text::number_has_no(d, 10, '.');
    reveal_strlit(".");
    assert("."@ =~= seq!['.']);
    text::split_whole(a, '.');
    text::split_last(a, b, '.');
    text::split_last(a + "."@ + b, c, '.');
    text::split_last(a + "."@ + b + "."@ + c, d, '.');
    let parts = text::split(target::dotted(octets), '.');
    assert(parts =~= seq![a, b, c, d]);
    octet_reads_back(octets[0]);
    octet_reads_back(octets[1]);
    octet_reads_back(octets[2]);
    octet_reads_back(octets[3]);
    assert forall|i: int| 0 <= i < 4 implies (#[trigger] octet(parts[i])) is Some by {
        assert(i == 0 || i == 1 || i == 2 || i == 3);
    }
    assert(Seq::new(4, |i: int| octet(parts[i])->0 as u8) =~= octets);
}

/// The text of a socket address with an IPv4 address reads back as that address.
pub proof fn v4_display_reads_back(octets: Seq<u8>, port_number: u16)
    requires
        octets.len() == 4,
    ensures
        ({
            let address = SocketAddrView::V4 { octets, port: port_number };
            socket_addr(address.display()) == Some(address)
        }),
{
    let host = target::dotted(octets);
    let digits = text::decimal(port_number as nat);
    ipv4_reads_back(octets);
    text::decimal_reads_back(port_number as nat);
    text::number_has_no(digits, 10, ':');
    dotted_has_no_colon(octets);
    reveal_strlit(":");
    assert(":"@ =~= seq![':']);
    text::split_whole(host, ':');
    text::split_last(host, digits, ':');
    assert(text::split(host + ":"@ + digits, ':') =~= seq![host, digits]);
}

proof fn dotted_has_no_colon(octets: Seq<u8>)
    ensures
        !target::dotted(octets).contains(':'),
{
    let a = text::decimal(octets[0] as nat);
    let b = text::decimal(octets[1] as nat);
    let c = text::decimal(octets[2] as nat);
    let d = text::decimal(octets[3] as nat);
    text::decimal_reads_back(octets[0] as nat);
    text::decimal_reads_back(octets[1] as nat);
    text::decimal_reads_back(octets[2] as nat);
    text::decimal_reads_back(octets[3] as nat);
    text::number_has_no(a, 10, ':');
    text::number_has_no(b, 10, ':');
    text::number_has_no(c, 10, ':');
    text::number_has_no(d, 10, ':');
    reveal_strlit(".");
    let s = target::dotted(octets);
    assert forall|i: int| 0 <= i < s.len() implies s[i] != ':' by {
        let n1 = a.len();
        let n2 = n1 + 1 + b.len();
        let n3 = n2 + 1 + c.len();
        if i < n1 {
            assert(s[i] == a[i]);
        } else if i == n1 {
        } else if i < n2 {
            assert(s[i] == b[i - n1 - 1]);
        } else if i == n2 {
        } else if i < n3 {
            assert(s[i] == c[i - n2 - 1]);
        } else if i == n3 {
        } else {
            assert(s[i] == d[i - n3 - 1]);
        }
    }
}

/// Whether a text writes an octet: a decimal number without leading zeros.
pub open spec fn writes_octet(s: Seq<char>, value: u8) -> bool {
    &&& text::is_number(s, 10)
    &&& text::number_value(s, 10) == value
    &&& s.len() == 1 || s[0] != '0'
}

/// Whether a text writes an IPv4 address: its four octets with dots between them.
#[verifier::opaque]
pub open spec fn writes_ipv4(s: Seq<char>, octets: Seq<u8>) -> bool {
    octets.len() == 4 && exists|parts: Seq<Seq<char>>|
        s == #[trigger] text::joined(parts, '.') && parts.len() == 4 && forall|i: int|
            0 <= i < 4 ==> writes_octet(#[trigger] parts[i], octets[i])
}

/// Whether a text writes a segment: a hexadecimal number of at most four digits.
pub open spec fn writes_segment(s: Seq<char>, value: u16) -> bool {
    &&& text::is_number(s, 16)
    &&& text::number_value(s, 16) == value
    &&& s.len() <= 4
}

/// Whether each piece writes the segment at its place.
pub open spec fn write_segments(parts: Seq<Seq<char>>, values: Seq<u16>) -> bool {
    forall|i: int| 0 <= i < parts.len() ==> writes_segment(#[trigger] parts[i], values[i])
}

/// Whether a text writes a row of segments, with colons between them, or nothing.
#[verifier::opaque]
pub open spec fn writes_row(s: Seq<char>, values: Seq<u16>) -> bool {
    ||| s.len() == 0 && values.len() == 0
    ||| exists|parts: Seq<Seq<char>>|
        s == #[trigger] text::joined(parts, ':') && parts.len() > 0 && parts.len() == values.len()
            && write_segments(parts, values)
}

/// Whether a text writes a row of segments, the last two of them as an IPv4 address.
#[verifier::opaque]
pub open spec fn writes_dotted_row(s: Seq<char>, values: Seq<u16>) -> bool {
    exists|parts: Seq<Seq<char>>, dotted: Seq<char>, octets: Seq<u8>|
        s == #[trigger] text::joined(parts.push(dotted), ':') && #[trigger] writes_ipv4(dotted, octets)
            && values.len() == parts.len() + 2 && write_segments(parts, values)
            && values[parts.len() as int] == octets[0] * 256 + octets[1]
            && values[parts.len() as int + 1] == octets[2] * 256 + octets[3]
}

/// Whether a text writes the end of an IPv6 address.
pub open spec fn writes_tail(s: Seq<char>, values: Seq<u16>) -> bool {
    writes_row(s, values) || writes_dotted_row(s, values)
}

/// Whether a text writes an IPv6 address: all eight segments, or those in front of a
/// double colon and those behind it, with zeros between them.
#[verifier::opaque]
pub open spec fn writes_ipv6(s: Seq<char>, values: Seq<u16>) -> bool {
    values.len() == 8 && {
        ||| writes_tail(s, values)
        ||| exists|head: Seq<char>, tail: Seq<char>, f: int, b: int|
            s == head + seq![':', ':'] + tail && 0 <= f && 0 <= b && f + b <= 7
                && #[trigger] writes_row(head, values.take(f)) && #[trigger] writes_tail(
                tail,
                values.skip(8 - b),
            ) && forall|i: int| f <= i < 8 - b ==> values[i] == 0
    }
}

/// Whether what stands behind an IPv6 address in its brackets writes this zone.
pub open spec fn writes_zone(s: Seq<char>, scope_id: u32) -> bool {
    ||| s.len() == 0 && scope_id == 0
    ||| s.len() > 0 && s[0] == '%' && text::is_number(s.skip(1), 10) && text::number_value(
        s.skip(1),
        10,
    ) == scope_id
}

/// Whether a text writes a socket address with an IPv4 address: the address, a colon
/// and the port in decimal.
pub open spec fn writes_v4(s: Seq<char>, octets: Seq<u8>, port_number: u16) -> bool {
    exists|host: Seq<char>, digits: Seq<char>|
        s == host + seq![':'] + digits && #[trigger] writes_ipv4(host, octets)
            && #[trigger] text::is_number(digits, 10) && text::number_value(digits, 10)
            == port_number
}

/// Whether a text writes a socket address with an IPv6 address: the address and its
/// zone in brackets, a colon and the port in decimal.
pub open spec fn writes_v6(
    s: Seq<char>,
    segments: Seq<u16>,
    scope_id: u32,
    port_number: u16,
) -> bool {
    exists|host: Seq<char>, zone: Seq<char>, digits: Seq<char>|
        s == seq!['['] + host + zone + seq![']', ':'] + digits && #[trigger] writes_ipv6(
            host,
            segments,
        ) && #[trigger] writes_zone(zone, scope_id) && #[trigger] text::is_number(digits, 10)
            && text::number_value(digits, 10) == port_number
}

/// Whether a text writes a socket address.
pub open spec fn writes_socket_addr(s: Seq<char>, address: SocketAddrView) -> bool {
    match address {
        SocketAddrView::V4 { octets, port } => writes_v4(s, octets, port),
        SocketAddrView::V6 { segments, flow_info, scope_id, port } => flow_info == 0 && writes_v6(
            s,
            segments,
            scope_id,
            port,
        ),
    }
}

proof fn octet_is_what_is_written(s: Seq<char>, value: u8)
    ensures
        octet(s) == Some(value as nat) <==> writes_octet(s, value),
{
    if writes_octet(s, value) && s.len() > 3 {
        assert(text::digit_value(s[0], 10) is Some);
        text::digits_in_order(s[0], 10, 0);
        reveal_strlit("0123456789abcdef");
        reveal_strlit("0123456789ABCDEF");
        let one = s.take(1);
        let two = s.take(2);
        let three = s.take(3);
        let four = s.take(4);
        assert(one.drop_last() =~= Seq::<char>::empty());
        assert(two.drop_last() =~= one);
        assert(three.drop_last() =~= two);
        assert(four.drop_last() =~= three);
        assert(one.last() == s[0]);
        assert(text::number_value(one.drop_last(), 10) == 0);
        assert(text::number_value(one, 10) >= 1);
        assert(text::number_value(two, 10) >= 10);
        assert(text::number_value(three, 10) >= 100);
        assert(text::number_value(four, 10) >= 1000);
        text::number_value_grows(s, 10, 4);
    }
}

proof fn ipv4_is_what_is_written(s: Seq<char>, octets: Seq<u8>)
    ensures
        ipv4(s) == Some(octets) <==> writes_ipv4(s, octets),
{
    reveal(writes_ipv4);
    if ipv4(s) == Some(octets) {
        let parts = text::split(s, '.');
        text::pieces_join_again(s, '.');
        assert forall|i: int| 0 <= i < 4 implies writes_octet(#[trigger] parts[i], octets[i]) by {
            assert(octet(parts[i]) is Some);
            octet_is_what_is_written(parts[i], octets[i]);
        }
        assert(s == text::joined(parts, '.'));
    }
    if writes_ipv4(s, octets) {
        let parts = choose|parts: Seq<Seq<char>>|
            s == #[trigger] text::joined(parts, '.') && parts.len() == 4 && forall|i: int|
                0 <= i < 4 ==> writes_octet(#[trigger] parts[i], octets[i]);
        assert forall|i: int| 0 <= i < 4 implies !(#[trigger] parts[i]).contains('.') by {
            assert(writes_octet(parts[i], octets[i]));
            text::number_has_no(parts[i], 10, '.');
        }
        text::joined_pieces_split(parts, '.');
        assert forall|i: int| 0 <= i < 4 implies (#[trigger] octet(parts[i])) == Some(
            octets[i] as nat,
        ) by {
            assert(writes_octet(parts[i], octets[i]));
            octet_is_what_is_written(parts[i], octets[i]);
        }
        assert(Seq::new(4, |i: int| octet(parts[i])->0 as u8) =~= octets);
    }
}

/// An IPv4 address is made of digits and dots.
proof fn ipv4_has_no(s: Seq<char>, octets: Seq<u8>, c: char)
    requires
        writes_ipv4(s, octets),
        c != '.',
        text::digit_value(c, 10) is None,
    ensures
        !s.contains(c),
        s.contains('.'),
{
    reveal(writes_ipv4);
    let parts = choose|parts: Seq<Seq<char>>|
        s == #[trigger] text::joined(parts, '.') && parts.len() == 4 && forall|i: int|
            0 <= i < 4 ==> writes_octet(#[trigger] parts[i], octets[i]);
    assert forall|i: int| 0 <= i < parts.len() implies !(#[trigger] parts[i]).contains(c) by {
        assert(writes_octet(parts[i], octets[i]));
        text::number_has_no(parts[i], 10, c);
    }
    text::joined_has_no(parts, '.', c);
    text::joined_has_separator(parts, '.');
}

proof fn row_is_what_is_written(s: Seq<char>, values: Seq<u16>)
    ensures
        segments(s, false) == Some(values) <==> writes_row(s, values),
        segments(s, false) is Some ==> segments(s, true) == segments(s, false),
{
    reveal(writes_row);
    if values.len() == 0 {
        assert(values =~= Seq::<u16>::empty());
    }
    if segments(s, false) == Some(values) && s.len() > 0 {
        let parts = text::split(s, ':');
        text::pieces_join_again(s, ':');
        assert forall|i: int| 0 <= i < parts.len() implies writes_segment(
            #[trigger] parts[i],
            values[i],
        ) by {
            assert(segment(parts[i]) is Some);
        }
        assert(s == text::joined(parts, ':'));
    }
    if writes_row(s, values) && !(s.len() == 0 && values.len() == 0) {
        let parts = choose|parts: Seq<Seq<char>>|
            s == #[trigger] text::joined(parts, ':') && parts.len() > 0 && parts.len()
                == values.len() && write_segments(parts, values);
        assert forall|i: int| 0 <= i < parts.len() implies (#[trigger] parts[i]).len() > 0
            && !parts[i].contains(':') by {
            assert(writes_segment(parts[i], values[i]));
            text::number_has_no(parts[i], 16, ':');
        }
        text::joined_pieces_split(parts, ':');
        text::joined_is_tight(parts, ':');
        assert forall|i: int| 0 <= i < parts.len() implies (#[trigger] segment(parts[i])) == Some(
            values[i] as nat,
        ) by {
            assert(writes_segment(parts[i], values[i]));
        }
        assert(segment_values(parts) =~= values);
    }
}

proof fn tail_is_what_is_written(s: Seq<char>, values: Seq<u16>)
    ensures
        segments(s, true) == Some(values) <==> writes_tail(s, values),
{
    reveal(writes_dotted_row);
    let texts = text::split(s, ':');
    row_is_what_is_written(s, values);
    if segments(s, true) == Some(values) && segments(s, false) is None {
        let parts = texts.drop_last();
        let dotted = texts.last();
        let octets = ipv4(dotted)->0;
        text::pieces_join_again(s, ':');
        assert(parts.push(dotted) =~= texts);
        ipv4_is_what_is_written(dotted, octets);
        assert forall|i: int| 0 <= i < parts.len() implies writes_segment(
            #[trigger] parts[i],
            values[i],
        ) by {
            assert(segment(parts[i]) is Some);
            assert(values[i] == segment_values(parts)[i]);
        }
        assert(s == text::joined(parts.push(dotted), ':'));
        assert(values[parts.len() as int] == octet_pairs(octets)[0]);
        assert(values[parts.len() as int + 1] == octet_pairs(octets)[1]);
        assert(writes_dotted_row(s, values));
    }
    if writes_dotted_row(s, values) {
        let (parts, dotted, octets) = choose|
            parts: Seq<Seq<char>>,
            dotted: Seq<char>,
            octets: Seq<u8>,
        |
            s == #[trigger] text::joined(parts.push(dotted), ':') && #[trigger] writes_ipv4(
                dotted,
                octets,
            ) && values.len() == parts.len() + 2 && write_segments(parts, values)
                && values[parts.len() as int] == octets[0] * 256 + octets[1]
                && values[parts.len() as int + 1] == octets[2] * 256 + octets[3];
        let all = parts.push(dotted);
        ipv4_has_no(dotted, octets, ':');
        assert(dotted.len() > 0);
        assert forall|i: int| 0 <= i < all.len() implies (#[trigger] all[i]).len() > 0
            && !all[i].contains(':') by {
            if i < parts.len() {
                assert(writes_segment(parts[i], values[i]));
                text::number_has_no(parts[i], 16, ':');
            }
        }
        text::joined_pieces_split(all, ':');
        text::joined_is_tight(all, ':');
        assert(segment(dotted) is None) by {
            if text::is_number(dotted, 16) {
                text::number_has_no(dotted, 16, '.');
            }
        }
        assert(segment(all[parts.len() as int]) is None);
        assert(!all_segments(all));
        assert(all.drop_last() =~= parts);
        ipv4_is_what_is_written(dotted, octets);
        assert forall|i: int| 0 <= i < parts.len() implies (#[trigger] segment(parts[i])) == Some(
            values[i] as nat,
        ) by {
            assert(writes_segment(parts[i], values[i]));
        }
        assert(segment_values(parts) + octet_pairs(octets) =~= values);
    }
}

/// The end of an IPv6 address has no double colon, and no colon at either end.
proof fn tail_is_tight(s: Seq<char>, values: Seq<u16>)
    requires
        writes_tail(s, values),
    ensures
        s.len() > 0 ==> s[0] != ':' && s.last() != ':',
        forall|j: int| 0 <= j < s.len() - 1 ==> !(#[trigger] s[j] == ':' && s[j + 1] == ':'),
{
    reveal(writes_dotted_row);
    reveal(writes_row);
    if writes_dotted_row(s, values) {
        let (parts, dotted, octets) = choose|
            parts: Seq<Seq<char>>,
            dotted: Seq<char>,
            octets: Seq<u8>,
        |
            s == #[trigger] text::joined(parts.push(dotted), ':') && #[trigger] writes_ipv4(
                dotted,
                octets,
            ) && values.len() == parts.len() + 2 && write_segments(parts, values);
        let all = parts.push(dotted);
        ipv4_has_no(dotted, octets, ':');
        assert forall|i: int| 0 <= i < all.len() implies (#[trigger] all[i]).len() > 0
            && !all[i].contains(':') by {
            if i < parts.len() {
                assert(writes_segment(parts[i], values[i]));
                text::number_has_no(parts[i], 16, ':');
            }
        }
        text::joined_is_tight(all, ':');
    } else if s.len() > 0 {
        let parts = choose|parts: Seq<Seq<char>>|
            s == #[trigger] text::joined(parts, ':') && parts.len() > 0 && parts.len()
                == values.len() && write_segments(parts, values);
        assert forall|i: int| 0 <= i < parts.len() implies (#[trigger] parts[i]).len() > 0
            && !parts[i].contains(':') by {
            assert(writes_segment(parts[i], values[i]));
            text::number_has_no(parts[i], 16, ':');
        }
        text::joined_is_tight(parts, ':');
    }
}

/// The end of an IPv6 address is made of hexadecimal digits, colons and dots.
proof fn tail_has_no(s: Seq<char>, values: Seq<u16>, c: char)
    requires
        writes_tail(s, values),
        c != ':',
        c != '.',
        text::digit_value(c, 16) is None,
    ensures
        !s.contains(c),
{
    reveal(writes_dotted_row);
    reveal(writes_row);
    if writes_dotted_row(s, values) {
        let (parts, dotted, octets) = choose|
            parts: Seq<Seq<char>>,
            dotted: Seq<char>,
            octets: Seq<u8>,
        |
            s == #[trigger] text::joined(parts.push(dotted), ':') && #[trigger] writes_ipv4(
                dotted,
                octets,
            ) && values.len() == parts.len() + 2 && write_segments(parts, values);
        let all = parts.push(dotted);
        ipv4_has_no(dotted, octets, c);
        assert forall|i: int| 0 <= i < all.len() implies !(#[trigger] all[i]).contains(c) by {
            if i < parts.len() {
                assert(writes_segment(parts[i], values[i]));
                text::number_has_no(parts[i], 16, c);
            }
        }
        text::joined_has_no(all, ':', c);
    } else if s.len() > 0 {
        let parts = choose|parts: Seq<Seq<char>>|
            s == #[trigger] text::joined(parts, ':') && parts.len() > 0 && parts.len()
                == values.len() && write_segments(parts, values);
        assert forall|i: int| 0 <= i < parts.len() implies !(#[trigger] parts[i]).contains(c) by {
            assert(writes_segment(parts[i], values[i]));
            text::number_has_no(parts[i], 16, c);
        }
        text::joined_has_no(parts, ':', c);
    }
}

proof fn ipv6_is_written(s: Seq<char>, values: Seq<u16>)
    requires
        ipv6(s) == Some(values),
    ensures
        writes_ipv6(s, values),
{
    reveal(writes_ipv6);
    let gap = seq![':', ':'];
    text::cut_is_at_the_first(s, gap);
    match text::cut(s, gap) {
        Some((head, tail)) => {
            let front = segments(head, false)->0;
            let back = segments(tail, true)->0;
            let f = front.len() as int;
            let b = back.len() as int;
            row_is_what_is_written(head, front);
            tail_is_what_is_written(tail, back);
            assert(values.take(f) =~= front);
            assert(values.skip(8 - b) =~= back);
            assert(s == head + seq![':', ':'] + tail);
            assert(writes_row(head, values.take(f)));
            assert(writes_tail(tail, values.skip(8 - b)));
        },
        None => {
            tail_is_what_is_written(s, values);
        },
    }
}

/// A double colon behind a row of segments is the first one in the text.
proof fn gap_is_cut(head: Seq<char>, tail: Seq<char>, front: Seq<u16>)
    requires
        writes_row(head, front),
    ensures
        text::cut(head + seq![':', ':'] + tail, seq![':', ':']) == Some((head, tail)),
{
    let gap = seq![':', ':'];
    let s = head + gap + tail;
    tail_is_tight(head, front);
    assert forall|j: int| 0 <= j < head.len() implies !#[trigger] gap.is_prefix_of(s.skip(j)) by {
        let rest = s.skip(j);
        if gap.is_prefix_of(rest) {
            assert(rest.subrange(0, 2)[0] == rest[0]);
            assert(rest.subrange(0, 2)[1] == rest[1]);
            assert(s[j] == ':' && s[j + 1] == ':');
            if j + 1 < head.len() {
                assert(s[j] == head[j] && s[j + 1] == head[j + 1]);
            } else {
                assert(s[j] == head.last());
            }
        }
    }
    text::first_occurrence_is_cut(head, gap, tail);
}

/// Eight segments without a double colon are read as they are written.
proof fn written_in_full(s: Seq<char>, values: Seq<u16>)
    requires
        writes_tail(s, values),
        values.len() == 8,
    ensures
        ipv6(s) == Some(values),
{
    let gap = seq![':', ':'];
    text::cut_is_at_the_first(s, gap);
    tail_is_tight(s, values);
    tail_is_what_is_written(s, values);
    if let Some((head, tail)) = text::cut(s, gap) {
        let n = head.len() as int;
        assert(s[n] == gap[0]);
        assert(s[n + 1] == gap[1]);
        assert(!(s[n] == ':' && s[n + 1] == ':'));
    }
}

/// Segments around a double colon are read as they are written.
proof fn written_with_a_gap(head: Seq<char>, tail: Seq<char>, front: Seq<u16>, back: Seq<u16>)
    requires
        writes_row(head, front),
        writes_tail(tail, back),
        front.len() + back.len() <= 7,
    ensures
        ipv6(head + seq![':', ':'] + tail) == Some(
            front + Seq::new((8 - front.len() - back.len()) as nat, |i: int| 0u16) + back,
        ),
{
    gap_is_cut(head, tail, front);
    row_is_what_is_written(head, front);
    tail_is_what_is_written(tail, back);
}

proof fn written_ipv6(s: Seq<char>, values: Seq<u16>)
    requires
        writes_ipv6(s, values),
    ensures
        ipv6(s) == Some(values),
{
    reveal(writes_ipv6);
    if writes_tail(s, values) {
        written_in_full(s, values);
    } else {
        let (head, tail, f, b) = choose|head: Seq<char>, tail: Seq<char>, f: int, b: int|
            s == head + seq![':', ':'] + tail && 0 <= f && 0 <= b && f + b <= 7
                && #[trigger] writes_row(head, values.take(f)) && #[trigger] writes_tail(
                tail,
                values.skip(8 - b),
            ) && forall|i: int| f <= i < 8 - b ==> values[i] == 0;
        let front = values.take(f);
        let back = values.skip(8 - b);
        written_with_a_gap(head, tail, front, back);
        assert(front + Seq::new((8 - front.len() - back.len()) as nat, |i: int| 0u16) + back
            =~= values);
    }
}

/// An IPv6 address is made of hexadecimal digits, colons and dots.
proof fn ipv6_has_no(s: Seq<char>, values: Seq<u16>, c: char)
    requires
        writes_ipv6(s, values),
        c != ':',
        c != '.',
        text::digit_value(c, 16) is None,
    ensures
        !s.contains(c),
{
    reveal(writes_ipv6);
    if writes_tail(s, values) {
        tail_has_no(s, values, c);
    } else {
        let (head, tail, f, b) = choose|head: Seq<char>, tail: Seq<char>, f: int, b: int|
            s == head + seq![':', ':'] + tail && 0 <= f && 0 <= b && f + b <= 7
                && #[trigger] writes_row(head, values.take(f)) && #[trigger] writes_tail(
                tail,
                values.skip(8 - b),
            ) && forall|i: int| f <= i < 8 - b ==> values[i] == 0;
        tail_has_no(head, values.take(f), c);
        tail_has_no(tail, values.skip(8 - b), c);
        assert forall|i: int| 0 <= i < s.len() implies s[i] != c by {
            if i < head.len() {
                assert(s[i] == head[i]);
                assert(head.contains(head[i]));
            } else if i >= head.len() + 2 {
                assert(s[i] == tail[i - head.len() - 2]);
                assert(tail.contains(tail[i - head.len() - 2]));
            }
        }
    }
}

proof fn socket_addr_v4_is_written(s: Seq<char>)
    requires
        socket_addr_v4(s) is Some,
    ensures
        writes_socket_addr(s, socket_addr_v4(s)->0),
        socket_addr_v4(s)->0 is V4,
        !s.contains('['),
{
    let parts = text::split(s, ':');
    let host = parts[0];
    let digits = parts[1];
    let octets = ipv4(host)->0;
    text::pieces_join_again(s, ':');
    assert(parts.drop_last() =~= seq![host]);
    assert(text::joined(parts.drop_last(), ':') == host);
    assert(s == host + seq![':'] + digits);
    ipv4_is_what_is_written(host, octets);
    let port_number = port(digits)->0 as u16;
    assert(text::is_number(digits, 10));
    assert(writes_v4(s, octets, port_number));
    ipv4_has_no(host, octets, '[');
    text::number_has_no(digits, 10, '[');
    assert forall|i: int| 0 <= i < s.len() implies s[i] != '[' by {
        if i < host.len() {
            assert(s[i] == host[i]);
            assert(host.contains(host[i]));
        } else if i > host.len() {
            assert(s[i] == digits[i - host.len() - 1]);
            assert(digits.contains(digits[i - host.len() - 1]));
        }
    }
}

proof fn written_socket_addr_v4(s: Seq<char>, octets: Seq<u8>, port_number: u16)
    requires
        writes_socket_addr(s, SocketAddrView::V4 { octets, port: port_number }),
    ensures
        socket_addr(s) == Some(SocketAddrView::V4 { octets, port: port_number }),
{
    let (host, digits) = choose|host: Seq<char>, digits: Seq<char>|
        s == host + seq![':'] + digits && #[trigger] writes_ipv4(host, octets)
            && #[trigger] text::is_number(digits, 10) && text::number_value(digits, 10)
            == port_number;
    ipv4_has_no(host, octets, ':');
    text::number_has_no(digits, 10, ':');
    text::split_whole(host, ':');
    text::split_last(host, digits, ':');
    assert(text::split(s, ':') =~= seq![host, digits]);
    ipv4_is_what_is_written(host, octets);
}

proof fn zone_is_written(inside: Seq<char>)
    requires
        scoped_ipv6(inside) is Some,
    ensures
        exists|host: Seq<char>, zone: Seq<char>|
            inside == host + zone && #[trigger] writes_ipv6(
                host,
                (scoped_ipv6(inside)->0).0,
            ) && #[trigger] writes_zone(zone, (scoped_ipv6(inside)->0).1),
{
    let percent = seq!['%'];
    let segments = (scoped_ipv6(inside)->0).0;
    let scope_id = (scoped_ipv6(inside)->0).1;
    text::cut_is_at_the_first(inside, percent);
    match text::cut(inside, percent) {
        None => {
            let zone = Seq::<char>::empty();
            ipv6_is_written(inside, segments);
            assert(inside =~= inside + zone);
            assert(writes_zone(zone, scope_id));
        },
        Some((host, digits)) => {
            let zone = percent + digits;
            ipv6_is_written(host, segments);
            assert(inside =~= host + zone);
            assert(zone.skip(1) =~= digits);
            assert(writes_zone(zone, scope_id));
        },
    }
}

proof fn written_zone(host: Seq<char>, zone: Seq<char>, segments: Seq<u16>, scope_id: u32)
    requires
        writes_ipv6(host, segments),
        writes_zone(zone, scope_id),
    ensures
        scoped_ipv6(host + zone) == Some((segments, scope_id)),
        !(host + zone).contains(']'),
{
    let inside = host + zone;
    let percent = seq!['%'];
    written_ipv6(host, segments);
    ipv6_has_no(host, segments, '%');
    ipv6_has_no(host, segments, ']');
    if zone.len() == 0 {
        assert(inside =~= host);
        text::cut_is_at_the_first(inside, percent);
        if let Some((before, after)) = text::cut(inside, percent) {
            assert(inside[before.len() as int] == '%');
        }
    } else {
        let digits = zone.skip(1);
        assert(inside =~= host + percent + digits);
        assert forall|j: int| 0 <= j < host.len() implies !#[trigger] percent.is_prefix_of(
            (host + percent + digits).skip(j),
        ) by {
            let rest = (host + percent + digits).skip(j);
            if percent.is_prefix_of(rest) {
                assert(rest.subrange(0, 1)[0] == rest[0]);
                assert(rest[0] == host[j]);
                assert(host.contains(host[j]));
            }
        }
        text::first_occurrence_is_cut(host, percent, digits);
        text::number_has_no(digits, 10, ']');
        assert forall|i: int| 0 <= i < inside.len() implies inside[i] != ']' by {
            if i < host.len() {
                assert(inside[i] == host[i]);
                assert(host.contains(host[i]));
            } else if i > host.len() {
                assert(inside[i] == digits[i - host.len() - 1]);
                assert(digits.contains(digits[i - host.len() - 1]));
            }
        }
    }
}

/// The parts of a socket address with an IPv6 address write it.
proof fn v6_parts_write(
    host: Seq<char>,
    zone: Seq<char>,
    digits: Seq<char>,
    segments: Seq<u16>,
    scope_id: u32,
    port_number: u16,
)
    requires
        writes_ipv6(host, segments),
        writes_zone(zone, scope_id),
        text::is_number(digits, 10),
        text::number_value(digits, 10) == port_number,
    ensures
        writes_v6(
            seq!['['] + (host + zone + seq![']', ':'] + digits),
            segments,
            scope_id,
            port_number,
        ),
{
    let s = seq!['['] + (host + zone + seq![']', ':'] + digits);
    assert(s =~= seq!['['] + host + zone + seq![']', ':'] + digits);
}

proof fn socket_addr_v6_is_written(s: Seq<char>)
    requires
        socket_addr_v6(s) is Some,
    ensures
        writes_socket_addr(s, socket_addr_v6(s)->0),
{
    let closing = seq![']', ':'];
    let rest = s.skip(1);
    text::cut_is_at_the_first(rest, closing);
    let (inside, digits) = text::cut(rest, closing)->0;
    let (segments, scope_id) = scoped_ipv6(inside)->0;
    let port_number = port(digits)->0 as u16;
    zone_is_written(inside);
    let (host, zone) = choose|host: Seq<char>, zone: Seq<char>|
        inside == host + zone && #[trigger] writes_ipv6(host, segments) && #[trigger] writes_zone(
            zone,
            scope_id,
        );
    v6_parts_write(host, zone, digits, segments, scope_id, port_number);
    assert(s =~= seq!['['] + rest);
}

/// Brackets close at the first closing bracket.
proof fn closing_is_cut(inside: Seq<char>, digits: Seq<char>)
    requires
        !inside.contains(']'),
    ensures
        text::cut(inside + seq![']', ':'] + digits, seq![']', ':']) == Some((inside, digits)),
{
    let closing = seq![']', ':'];
    assert forall|j: int| 0 <= j < inside.len() implies !#[trigger] closing.is_prefix_of(
        (inside + closing + digits).skip(j),
    ) by {
        let rest = (inside + closing + digits).skip(j);
        if closing.is_prefix_of(rest) {
            assert(rest.subrange(0, 2)[0] == rest[0]);
            assert(rest[0] == inside[j]);
            assert(inside.contains(inside[j]));
        }
    }
    text::first_occurrence_is_cut(inside, closing, digits);
}

#[verifier::rlimit(40)]
proof fn written_socket_addr_v6(
    s: Seq<char>,
    segments: Seq<u16>,
    scope_id: u32,
    port_number: u16,
)
    requires
        writes_v6(s, segments, scope_id, port_number),
    ensures
        socket_addr(s) == Some(
            SocketAddrView::V6 { segments, flow_info: 0, scope_id, port: port_number },
        ),
{
    let (host, zone, digits) = choose|host: Seq<char>, zone: Seq<char>, digits: Seq<char>|
        s == seq!['['] + host + zone + seq![']', ':'] + digits && #[trigger] writes_ipv6(
            host,
            segments,
        ) && #[trigger] writes_zone(zone, scope_id) && #[trigger] text::is_number(digits, 10)
            && text::number_value(digits, 10) == port_number;
    let inside = host + zone;
    written_zone(host, zone, segments, scope_id);
    closing_is_cut(inside, digits);
    assert(s[0] == '[');
    assert(s.contains('['));
    assert(s.skip(1) =~= inside + seq![']', ':'] + digits);
    assert(port(digits) == Some(port_number as nat));
    assert(socket_addr_v6(s) == Some(
        SocketAddrView::V6 { segments, flow_info: 0, scope_id, port: port_number },
    ));
    if socket_addr_v4(s) is Some {
        socket_addr_v4_is_written(s);
    }
}

/// A socket address is read from a text exactly where the text writes one, and it is the
/// one that is written.
pub proof fn addresses_are_read_as_written(text: &str, result: Option<SocketAddr>)
    requires
        call_ensures(SocketAddr::parse, (text,), result),
    ensures
        result matches Some(address) ==> writes_socket_addr(text@, address@),
        forall|written: SocketAddrView| #[trigger]
            writes_socket_addr(text@, written) ==> (result matches Some(address) && address@
                == written),
{
    let s = text@;
    if result is Some {
        if socket_addr_v4(s) is Some {
            socket_addr_v4_is_written(s);
        } else {
            socket_addr_v6_is_written(s);
        }
    }
    assert forall|written: SocketAddrView| #[trigger] writes_socket_addr(s, written) implies (
    result matches Some(address) && address@ == written) by {
        match written {
            SocketAddrView::V4 { octets, port } => {
                written_socket_addr_v4(s, octets, port);
            },
            SocketAddrView::V6 { segments, flow_info, scope_id, port } => {
                written_socket_addr_v6(s, segments, scope_id, port);
            },
        }
    }
}

/// Four hexadecimal digits fit into a segment.
proof fn four_digits_fit(s: Seq<char>)
    requires
        text::is_number(s, 16),
        s.len() <= 4,
    ensures
        text::number_value(s, 16) <= 0xffff,
{
    let a = s.drop_last();
    let b = a.drop_last();
    let c = b.drop_last();
    assert(text::digit_value(s[s.len() - 1], 16) is Some);
    if a.len() > 0 {
        assert(text::digit_value(s[a.len() - 1], 16) is Some);
        if b.len() > 0 {
            assert(text::digit_value(s[b.len() - 1], 16) is Some);
            if c.len() > 0 {
                assert(text::digit_value(s[c.len() - 1], 16) is Some);
                assert(text::number_value(c.drop_last(), 16) == 0);
            }
            assert(text::number_value(c, 16) <= 0xf);
        }
        assert(text::number_value(b, 16) <= 0xff);
    }
    assert(text::number_value(a, 16) <= 0xfff);
}

/// The numbers that texts write.
spec fn numbers(parts: Seq<Seq<char>>) -> Seq<u16> {
    parts.map_values(|part: Seq<char>| text::number_value(part, 16) as u16)
}

proof fn numbers_are_written(parts: Seq<Seq<char>>)
    requires
        forall|i: int|
            0 <= i < parts.len() ==> text::is_number(#[trigger] parts[i], 16) && parts[i].len() <= 4,
    ensures
        numbers(parts).len() == parts.len(),
        forall|i: int|
            0 <= i < parts.len() ==> numbers(parts)[i] == text::number_value(
                #[trigger] parts[i],
                16,
            ),
        write_segments(parts, numbers(parts)),
        writes_row(text::joined(parts, ':'), numbers(parts)),
{
    reveal(writes_row);
    assert forall|i: int| 0 <= i < parts.len() implies numbers(parts)[i] == text::number_value(
        #[trigger] parts[i],
        16,
    ) && writes_segment(parts[i], numbers(parts)[i]) by {
        four_digits_fit(parts[i]);
    }
    if parts.len() == 0 {
        assert(text::joined(parts, ':').len() == 0);
    }
}

/// Four decimal numbers up to 255 with dots between them, a colon and a port are read as
/// the IPv4 address and the port that they write.
pub proof fn v4_is_read(
    parts: Seq<Seq<char>>,
    digits: Seq<char>,
    text: &str,
    result: Option<SocketAddr>,
)
    requires
        call_ensures(SocketAddr::parse, (text,), result),
        text@ == text::joined(parts, '.') + seq![':'] + digits,
        parts.len() == 4,
        forall|i: int|
            0 <= i < 4 ==> text::is_number(#[trigger] parts[i], 10) && text::number_value(
                parts[i],
                10,
            ) <= 255 && (parts[i].len() == 1 || parts[i][0] != '0'),
        text::is_number(digits, 10),
        text::number_value(digits, 10) <= 0xffff,
    ensures
        result matches Some(SocketAddr::V4 { octets, port }) && (forall|i: int|
            0 <= i < 4 ==> octets@[i] == text::number_value(#[trigger] parts[i], 10)) && port
            == text::number_value(digits, 10),
{
    reveal(writes_ipv4);
    let octets = parts.map_values(|part: Seq<char>| text::number_value(part, 10) as u8);
    let port_number = text::number_value(digits, 10) as u16;
    assert forall|i: int| 0 <= i < 4 implies writes_octet(#[trigger] parts[i], octets[i]) by {}
    assert(writes_ipv4(text::joined(parts, '.'), octets));
    assert(writes_v4(text@, octets, port_number));
    let written = SocketAddrView::V4 { octets, port: port_number };
    assert(writes_socket_addr(text@, written));
    addresses_are_read_as_written(text, result);
    assert(result->0@ == written);
    assert forall|i: int| 0 <= i < 4 implies octets[i] == text::number_value(
        #[trigger] parts[i],
        10,
    ) by {}
}

proof fn written_v6_is_read(
    host: Seq<char>,
    segments: Seq<u16>,
    digits: Seq<char>,
    text: &str,
    result: Option<SocketAddr>,
)
    requires
        call_ensures(SocketAddr::parse, (text,), result),
        text@ == seq!['['] + host + seq![']', ':'] + digits,
        writes_ipv6(host, segments),
        text::is_number(digits, 10),
        text::number_value(digits, 10) <= 0xffff,
    ensures
        result matches Some(SocketAddr::V6 { segments: read, flow_info, scope_id, port }) && read@
            == segments && flow_info == 0 && scope_id == 0 && port == text::number_value(digits, 10),
{
    let zone = Seq::<char>::empty();
    let port_number = text::number_value(digits, 10) as u16;
    assert(text@ =~= seq!['['] + host + zone + seq![']', ':'] + digits);
    assert(writes_zone(zone, 0));
    assert(writes_v6(text@, segments, 0, port_number));
    let written = SocketAddrView::V6 { segments, flow_info: 0, scope_id: 0, port: port_number };
    assert(writes_socket_addr(text@, written));
    addresses_are_read_as_written(text, result);
    assert(result->0@ == written);
}

/// An IPv6 address with a double colon is read as the segments in front of it at the
/// beginning, those behind it at the end, and zeros between them.
pub proof fn v6_with_a_gap_is_read(
    front: Seq<Seq<char>>,
    back: Seq<Seq<char>>,
    digits: Seq<char>,
    text: &str,
    result: Option<SocketAddr>,
)
    requires
        call_ensures(SocketAddr::parse, (text,), result),
        text@ == seq!['['] + (text::joined(front, ':') + seq![':', ':'] + text::joined(back, ':'))
            + seq![']', ':'] + digits,
        front.len() + back.len() <= 7,
        forall|i: int|
            0 <= i < front.len() ==> text::is_number(#[trigger] front[i], 16) && front[i].len() <= 4,
        forall|i: int|
            0 <= i < back.len() ==> text::is_number(#[trigger] back[i], 16) && back[i].len() <= 4,
        text::is_number(digits, 10),
        text::number_value(digits, 10) <= 0xffff,
    ensures
        result matches Some(SocketAddr::V6 { segments, flow_info, scope_id, port }) && (forall|
            i: int,
        |
            0 <= i < front.len() ==> segments@[i] == text::number_value(#[trigger] front[i], 16))
            && (forall|i: int|
            front.len() <= i < 8 - back.len() ==> #[trigger] segments@[i] == 0) && (forall|i: int|
            0 <= i < back.len() ==> segments@[8 - back.len() + i] == text::number_value(
                #[trigger] back[i],
                16,
            )) && flow_info == 0 && scope_id == 0 && port == text::number_value(digits, 10),
{
    reveal(writes_ipv6);
    let head = text::joined(front, ':');
    let tail = text::joined(back, ':');
    let f = front.len() as int;
    let b = back.len() as int;
    numbers_are_written(front);
    numbers_are_written(back);
    let segments = numbers(front) + Seq::new((8 - f - b) as nat, |i: int| 0u16) + numbers(back);
    assert(segments.take(f) =~= numbers(front));
    assert(segments.skip(8 - b) =~= numbers(back));
    assert(writes_row(head, segments.take(f)));
    assert(writes_tail(tail, segments.skip(8 - b)));
    assert(writes_ipv6(head + seq![':', ':'] + tail, segments));
    written_v6_is_read(head + seq![':', ':'] + tail, segments, digits, text, result);
}

/// An IPv6 address without a double colon is read as its eight segments.
pub proof fn v6_in_full_is_read(
    parts: Seq<Seq<char>>,
    digits: Seq<char>,
    text: &str,
    result: Option<SocketAddr>,
)
    requires
        call_ensures(SocketAddr::parse, (text,), result),
        text@ == seq!['['] + text::joined(parts, ':') + seq![']', ':'] + digits,
        parts.len() == 8,
        forall|i: int|
            0 <= i < 8 ==> text::is_number(#[trigger] parts[i], 16) && parts[i].len() <= 4,
        text::is_number(digits, 10),
        text::number_value(digits, 10) <= 0xffff,
    ensures
        result matches Some(SocketAddr::V6 { segments, flow_info, scope_id, port }) && (forall|
            i: int,
        |
            0 <= i < 8 ==> segments@[i] == text::number_value(#[trigger] parts[i], 16)) && flow_info
            == 0 && scope_id == 0 && port == text::number_value(digits, 10),
{
    reveal(writes_ipv6);
    numbers_are_written(parts);
    written_v6_is_read(text::joined(parts, ':'), numbers(parts), digits, text, result);
}

/// The numbers of a row whose end is an IPv4 address.
spec fn dotted_numbers(parts: Seq<Seq<char>>, last: Seq<Seq<char>>) -> Seq<u16> {
    numbers(parts) + seq![
        (text::number_value(last[0], 10) * 256 + text::number_value(last[1], 10)) as u16,
        (text::number_value(last[2], 10) * 256 + text::number_value(last[3], 10)) as u16,
    ]
}

proof fn dotted_numbers_are_written(parts: Seq<Seq<char>>, last: Seq<Seq<char>>)
    requires
        forall|i: int|
            0 <= i < parts.len() ==> text::is_number(#[trigger] parts[i], 16) && parts[i].len() <= 4,
        last.len() == 4,
        forall|i: int|
            0 <= i < 4 ==> text::is_number(#[trigger] last[i], 10) && text::number_value(last[i], 10)
                <= 255 && (last[i].len() == 1 || last[i][0] != '0'),
    ensures
        writes_tail(
            text::joined(parts.push(text::joined(last, '.')), ':'),
            dotted_numbers(parts, last),
        ),
        dotted_numbers(parts, last).len() == parts.len() + 2,
        forall|i: int|
            0 <= i < parts.len() ==> dotted_numbers(parts, last)[i] == text::number_value(
                #[trigger] parts[i],
                16,
            ),
        dotted_numbers(parts, last)[parts.len() as int] == text::number_value(last[0], 10) * 256
            + text::number_value(last[1], 10),
        dotted_numbers(parts, last)[parts.len() as int + 1] == text::number_value(last[2], 10) * 256
            + text::number_value(last[3], 10),
{
    reveal(writes_ipv4);
    reveal(writes_dotted_row);
    let octets = last.map_values(|part: Seq<char>| text::number_value(part, 10) as u8);
    let dotted = text::joined(last, '.');
    let values = dotted_numbers(parts, last);
    assert forall|i: int| 0 <= i < 4 implies writes_octet(#[trigger] last[i], octets[i]) by {}
    assert(writes_ipv4(dotted, octets));
    assert(octets[0] == text::number_value(last[0], 10));
    assert(octets[1] == text::number_value(last[1], 10));
    assert(octets[2] == text::number_value(last[2], 10));
    assert(octets[3] == text::number_value(last[3], 10));
    numbers_are_written(parts);
    assert forall|i: int| 0 <= i < parts.len() implies writes_segment(
        #[trigger] parts[i],
        values[i],
    ) by {
        assert(values[i] == numbers(parts)[i]);
    }
    let s = text::joined(parts.push(dotted), ':');
    assert(writes_dotted_row(s, values));
}

/// The end of an IPv6 address may be written as an IPv4 address, whose octets make the
/// last two segments, two octets each; here behind a double colon.
pub proof fn v6_with_a_gap_and_dots_is_read(
    front: Seq<Seq<char>>,
    back: Seq<Seq<char>>,
    last: Seq<Seq<char>>,
    digits: Seq<char>,
    text: &str,
    result: Option<SocketAddr>,
)
    requires
        call_ensures(SocketAddr::parse, (text,), result),
        text@ == seq!['['] + (text::joined(front, ':') + seq![':', ':'] + text::joined(
            back.push(text::joined(last, '.')),
            ':',
        )) + seq![']', ':'] + digits,
        front.len() + back.len() <= 5,
        forall|i: int|
            0 <= i < front.len() ==> text::is_number(#[trigger] front[i], 16) && front[i].len() <= 4,
        forall|i: int|
            0 <= i < back.len() ==> text::is_number(#[trigger] back[i], 16) && back[i].len() <= 4,
        last.len() == 4,
        forall|i: int|
            0 <= i < 4 ==> text::is_number(#[trigger] last[i], 10) && text::number_value(last[i], 10)
                <= 255 && (last[i].len() == 1 || last[i][0] != '0'),
        text::is_number(digits, 10),
        text::number_value(digits, 10) <= 0xffff,
    ensures
        result matches Some(SocketAddr::V6 { segments, flow_info, scope_id, port }) && (forall|
            i: int,
        |
            0 <= i < front.len() ==> segments@[i] == text::number_value(#[trigger] front[i], 16))
            && (forall|i: int|
            front.len() <= i < 6 - back.len() ==> #[trigger] segments@[i] == 0) && (forall|i: int|
            0 <= i < back.len() ==> segments@[6 - back.len() + i] == text::number_value(
                #[trigger] back[i],
                16,
            )) && segments@[6] == text::number_value(last[0], 10) * 256 + text::number_value(
            last[1],
            10,
        ) && segments@[7] == text::number_value(last[2], 10) * 256 + text::number_value(last[3], 10)
            && flow_info == 0 && scope_id == 0 && port == text::number_value(digits, 10),
{
    reveal(writes_ipv6);
    let head = text::joined(front, ':');
    let tail = text::joined(back.push(text::joined(last, '.')), ':');
    let values = dotted_numbers(back, last);
    let f = front.len() as int;
    let b = values.len() as int;
    numbers_are_written(front);
    dotted_numbers_are_written(back, last);
    let segments = numbers(front) + Seq::new((8 - f - b) as nat, |i: int| 0u16) + values;
    assert(segments.take(f) =~= numbers(front));
    assert(segments.skip(8 - b) =~= values);
    assert(writes_row(head, segments.take(f)));
    assert(writes_tail(tail, segments.skip(8 - b)));
    assert(writes_ipv6(head + seq![':', ':'] + tail, segments));
    written_v6_is_read(head + seq![':', ':'] + tail, segments, digits, text, result);
}

/// The end of an IPv6 address may be written as an IPv4 address, whose octets make the
/// last two segments, two octets each; here behind six segments.
pub proof fn v6_in_full_with_dots_is_read(
    parts: Seq<Seq<char>>,
    last: Seq<Seq<char>>,
    digits: Seq<char>,
    text: &str,
    result: Option<SocketAddr>,
)
    requires
        call_ensures(SocketAddr::parse, (text,), result),
        text@ == seq!['['] + text::joined(parts.push(text::joined(last, '.')), ':') + seq![']', ':']
            + digits,
        parts.len() == 6,
        forall|i: int|
            0 <= i < 6 ==> text::is_number(#[trigger] parts[i], 16) && parts[i].len() <= 4,
        last.len() == 4,
        forall|i: int|
            0 <= i < 4 ==> text::is_number(#[trigger] last[i], 10) && text::number_value(last[i], 10)
                <= 255 && (last[i].len() == 1 || last[i][0] != '0'),
        text::is_number(digits, 10),
        text::number_value(digits, 10) <= 0xffff,
    ensures
        result matches Some(SocketAddr::V6 { segments, flow_info, scope_id, port }) && (forall|
            i: int,
        |
            0 <= i < 6 ==> segments@[i] == text::number_value(#[trigger] parts[i], 16))
            && segments@[6] == text::number_value(last[0], 10) * 256 + text::number_value(last[1], 10)
            && segments@[7] == text::number_value(last[2], 10) * 256 + text::number_value(last[3], 10)
            && flow_info == 0 && scope_id == 0 && port == text::number_value(digits, 10),
{
    reveal(writes_ipv6);
    dotted_numbers_are_written(parts, last);
    written_v6_is_read(
        text::joined(parts.push(text::joined(last, '.')), ':'),
        dotted_numbers(parts, last),
        digits,
        text,
        result,
    );
}

/// A zone behind an IPv6 address is read as the number that it writes, and changes
/// nothing else of what is read.
pub proof fn zone_is_read(
    host: Seq<char>,
    zone: Seq<char>,
    digits: Seq<char>,
    plain: &str,
    scoped: &str,
    without: Option<SocketAddr>,
    with: Option<SocketAddr>,
)
    requires
        call_ensures(SocketAddr::parse, (plain,), without),
        call_ensures(SocketAddr::parse, (scoped,), with),
        plain@ == seq!['['] + host + seq![']', ':'] + digits,
        scoped@ == seq!['['] + host + seq!['%'] + zone + seq![']', ':'] + digits,
        !host.contains('%'),
        !host.contains(']'),
        text::is_number(zone, 10),
        text::number_value(zone, 10) <= 0xffff_ffff,
    ensures
        without is Some <==> with is Some,
        without matches Some(one) ==> (one matches SocketAddr::V6 {
            segments,
            flow_info,
            scope_id,
            port,
        } && scope_id == 0 && (with matches Some(SocketAddr::V6 {
            segments: same_segments,
            flow_info: same_flow,
            scope_id: zone_number,
            port: same_port,
        }) && same_segments@ == segments@ && same_flow == flow_info && same_port == port
            && zone_number == text::number_value(zone, 10))),
{
    let percent = seq!['%'];
    let closing = seq![']', ':'];
    let longer = host + percent + zone;
    text::number_has_no(zone, 10, ']');
    assert forall|i: int| 0 <= i < longer.len() implies longer[i] != ']' by {
        if i < host.len() {
            assert(longer[i] == host[i]);
            assert(host.contains(host[i]));
        } else if i > host.len() {
            assert(longer[i] == zone[i - host.len() - 1]);
            assert(zone.contains(zone[i - host.len() - 1]));
        }
    }
    closing_is_cut(host, digits);
    closing_is_cut(longer, digits);
    assert(plain@.skip(1) =~= host + closing + digits);
    assert(scoped@.skip(1) =~= longer + closing + digits);
    assert(plain@[0] == '[' && scoped@[0] == '[');
    assert(plain@.contains(plain@[0]) && scoped@.contains(scoped@[0]));
    if socket_addr_v4(plain@) is Some {
        socket_addr_v4_is_written(plain@);
    }
    if socket_addr_v4(scoped@) is Some {
        socket_addr_v4_is_written(scoped@);
    }
    text::cut_is_at_the_first(host, percent);
    if let Some((before, after)) = text::cut(host, percent) {
        assert(host[before.len() as int] == '%');
    }
    assert forall|j: int| 0 <= j < host.len() implies !#[trigger] percent.is_prefix_of(
        longer.skip(j),
    ) by {
        let rest = longer.skip(j);
        if percent.is_prefix_of(rest) {
            assert(rest.subrange(0, 1)[0] == rest[0]);
            assert(rest[0] == host[j]);
            assert(host.contains(host[j]));
        }
    }
    text::first_occurrence_is_cut(host, percent, zone);
}

/// A socket address is shown as its address, a colon and its port in decimal; an IPv6
/// address stands in brackets, with its zone in decimal unless that is zero.
pub proof fn addresses_are_shown(address: &SocketAddr, shown: String)
    requires
        call_ensures(SocketAddr::display, (address,), shown),
    ensures
        match *address {
            SocketAddr::V4 { octets, port } => shown@ == text::decimal(octets[0] as nat) + "."@
                + text::decimal(octets[1] as nat) + "."@ + text::decimal(octets[2] as nat) + "."@
                + text::decimal(octets[3] as nat) + ":"@ + text::decimal(port as nat),
            SocketAddr::V6 { segments, scope_id, port, .. } => if scope_id == 0 {
                shown@ == "["@ + target::ipv6_host(segments@) + "]:"@ + text::decimal(port as nat)
            } else {
                shown@ == "["@ + target::ipv6_host(segments@) + "%"@ + text::decimal(
                    scope_id as nat,
                ) + "]:"@ + text::decimal(port as nat)
            },
        },
{
}

/// A socket address with an IPv4 address that is shown and read again is the same.
pub proof fn shown_v4_reads_back(
    address: &SocketAddr,
    shown: String,
    text: &str,
    result: Option<SocketAddr>,
)
    requires
        address is V4,
        call_ensures(SocketAddr::display, (address,), shown),
        text@ == shown@,
        call_ensures(SocketAddr::parse, (text,), result),
    ensures
        result matches Some(again) && again@ == address@,
{
    if let SocketAddr::V4 { octets, port } = *address {
        v4_display_reads_back(octets@, port);
    }
}

} // verus!
