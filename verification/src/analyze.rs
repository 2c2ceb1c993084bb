//! Layered protocol classification.
//!
//! One frame is looked at layer by layer: link, network, transport,
//! application.  Every layer resolves to a protocol kind, a start offset and
//! a header length; a layer that cannot be resolved yields a zero length
//! span anchored at the previous resolved boundary, so that downstream
//! slicing stays in bounds.  Classification never fails and runs on the hot
//! per packet path, so it only reads bytes and does no allocation.

use vstd::prelude::*;

verus! {

/// The capture medium, as reported by the capture device for a whole
/// listening session.
#[derive(Debug, Clone, Copy, PartialEq, Eq, Structural)]
pub enum LinkTypeHint {
    /// The device delivers frames without any link layer (listening on any
    /// interface on some systems).
    NoLinkLayer,
    /// Loopback style capture: a fixed 4 byte pseudo header precedes the
    /// network layer.
    LoopbackAddress,
    /// Plain Ethernet framing.
    Ethernet,
    /// Anything else.
    Unsupported,
}

/// Link layer protocol of one frame.
#[derive(Debug, Clone, Copy, PartialEq, Eq, Structural)]
pub enum LinkPro {
    /// No link layer bytes at all.
    NotHave,
    /// Loopback pseudo header.
    LoopbackAddress,
    /// Ethernet header.
    Ethernet,
    /// Not recognized.
    Unsupported,
}

/// Network layer protocol of one frame.
#[derive(Debug, Clone, Copy, PartialEq, Eq, Structural)]
pub enum NetworkPro {
    IPv4,
    /// Not recognized.
    Unsupported,
}

/// Transport layer protocol of one frame.
#[derive(Debug, Clone, Copy, PartialEq, Eq, Structural)]
pub enum TransportPro {
    TCP,
    /// Not recognized.
    Unsupported,
}

/// Application layer protocol of one frame.
#[derive(Debug, Clone, Copy, PartialEq, Eq, Structural)]
pub enum ApplicationPro {
    HTTP,
    /// Not recognized.
    Unsupported,
}

/// Where each layer of one frame begins and how long its header is.
#[derive(Debug)]
pub struct ProType {
    pub link_pro: LinkPro,
    pub link_start: usize,
    pub link_head_len: usize,
    pub network_pro: NetworkPro,
    pub network_start: usize,
    pub network_head_len: usize,
    pub transport_pro: TransportPro,
    pub transport_start: usize,
    pub transport_head_len: usize,
    pub application_pro: ApplicationPro,
    pub application_start: usize,
}

/// Length of an Ethernet header.
pub const ETHERNET_HEAD_LEN: usize = 14;

/// Length of the loopback pseudo header.
pub const LOOPBACK_HEAD_LEN: usize = 4;

/// Smallest possible TCP header.
pub const TCP_MIN_HEAD_LEN: usize = 20;

/// The link layer of a frame of length `len`: protocol and header length
/// (the link layer always starts at offset 0).  An empty frame resolves
/// nothing; a frame shorter than the medium's header is left unresolved.
pub open spec fn spec_link(hint: LinkTypeHint, len: int) -> (LinkPro, int) {
    if len == 0 {
        (LinkPro::Unsupported, 0)
    } else {
        match hint {
            LinkTypeHint::NoLinkLayer => (LinkPro::NotHave, 0),
            LinkTypeHint::LoopbackAddress => {
                if len >= LOOPBACK_HEAD_LEN { (LinkPro::LoopbackAddress, LOOPBACK_HEAD_LEN as int) } else { (LinkPro::Unsupported, 0) }
            },
            LinkTypeHint::Ethernet => {
                if len >= ETHERNET_HEAD_LEN { (LinkPro::Ethernet, ETHERNET_HEAD_LEN as int) } else { (LinkPro::Unsupported, 0) }
            },
            LinkTypeHint::Unsupported => (LinkPro::Unsupported, 0),
        }
    }
}

/// Header length of an IPv4 header whose first byte sits at `start`:
/// four times the low nibble (the IHL field counts 32 bit words).
pub open spec fn spec_ipv4_head_len(frame: Seq<u8>, start: int) -> int {
    4 * ((frame[start] & 0x0f) as int)
}

/// Whether the byte at `start` passes the IPv4 shape check used when the
/// link layer does not name the network protocol: version nibble 4 and the
/// whole advertised header present in the frame.
pub open spec fn spec_ipv4_guess_ok(frame: Seq<u8>, start: int) -> bool {
    &&& start < frame.len()
    &&& frame[start] >> 4 == 4
    &&& start + spec_ipv4_head_len(frame, start) <= frame.len()
}

/// The network layer, given the outcome of the link layer: protocol, start
/// offset and header length.  Behind Ethernet the EtherType decides; behind
/// any other link outcome the frame is sniffed for an IPv4 shape, a
/// deliberate simplification for captures without useful link framing.
pub open spec fn spec_network_from(
    frame: Seq<u8>,
    link_pro: LinkPro,
    link_start: int,
    link_head_len: int,
) -> (NetworkPro, int, int) {
    let start = link_start + link_head_len;
    if link_pro is Ethernet {
        if (frame[link_start + 12] as int) * 256 + (frame[link_start + 13] as int) == 0x0800 {
            if start < frame.len() && start + spec_ipv4_head_len(frame, start) <= frame.len() {
                (NetworkPro::IPv4, start, spec_ipv4_head_len(frame, start))
            } else {
                (NetworkPro::Unsupported, start, 0)
            }
        } else {
            (NetworkPro::Unsupported, start, 0)
        }
    } else {
        if spec_ipv4_guess_ok(frame, start) {
            (NetworkPro::IPv4, start, spec_ipv4_head_len(frame, start))
        } else {
            (NetworkPro::Unsupported, start, 0)
        }
    }
}

/// The network layer of a frame, from the frame alone.
pub open spec fn spec_network(frame: Seq<u8>, hint: LinkTypeHint) -> (NetworkPro, int, int) {
    let link = spec_link(hint, frame.len() as int);
    spec_network_from(frame, link.0, 0, link.1)
}

/// The transport layer, given the outcome of the network layer: protocol,
/// start offset and header length.  Only TCP behind IPv4 is recognized, and
/// only when the frame holds at least a minimal TCP header.
pub open spec fn spec_transport_from(
    frame: Seq<u8>,
    network_pro: NetworkPro,
    network_start: int,
    network_head_len: int,
) -> (TransportPro, int, int) {
    if network_pro is IPv4 {
        let start = network_start + network_head_len;
        if start + TCP_MIN_HEAD_LEN <= frame.len() && frame[network_start + 9] == 6 {
            (TransportPro::TCP, start, 4 * ((frame[start + 12] >> 4) as int))
        } else {
            (TransportPro::Unsupported, start, 0)
        }
    } else {
        (TransportPro::Unsupported, network_start, 0)
    }
}

/// The transport layer of a frame, from the frame alone.
pub open spec fn spec_transport(frame: Seq<u8>, hint: LinkTypeHint) -> (TransportPro, int, int) {
    let net = spec_network(frame, hint);
    spec_transport_from(frame, net.0, net.1, net.2)
}

/// Whether `p` begins with the bytes of `prefix`.
pub open spec fn spec_starts_with(p: Seq<u8>, prefix: Seq<u8>) -> bool {
    &&& prefix.len() <= p.len()
    &&& forall|i: int| 0 <= i < prefix.len() ==> p[i] == prefix[i]
}

/// Whether `p` opens like an HTTP message: one of the request method names,
/// or the version marker of a status line (case sensitive ASCII).
pub open spec fn spec_is_http(p: Seq<u8>) -> bool {
    ||| spec_starts_with(p, seq!['G' as u8, 'E' as u8, 'T' as u8])
    ||| spec_starts_with(p, seq!['P' as u8, 'O' as u8, 'S' as u8, 'T' as u8])
    ||| spec_starts_with(p, seq!['P' as u8, 'U' as u8, 'T' as u8])
    ||| spec_starts_with(p, seq!['D' as u8, 'E' as u8, 'L' as u8, 'E' as u8, 'T' as u8, 'E' as u8])
    ||| spec_starts_with(p, seq!['H' as u8, 'E' as u8, 'A' as u8, 'D' as u8])
    ||| spec_starts_with(
        p,
        seq!['O' as u8, 'P' as u8, 'T' as u8, 'I' as u8, 'O' as u8, 'N' as u8, 'S' as u8],
    )
    ||| spec_starts_with(p, seq!['P' as u8, 'A' as u8, 'T' as u8, 'C' as u8, 'H' as u8])
    ||| spec_starts_with(
        p,
        seq!['C' as u8, 'O' as u8, 'N' as u8, 'N' as u8, 'E' as u8, 'C' as u8, 'T' as u8],
    )
    ||| spec_starts_with(p, seq!['T' as u8, 'R' as u8, 'A' as u8, 'C' as u8, 'E' as u8])
    ||| spec_starts_with(p, seq!['H' as u8, 'T' as u8, 'T' as u8, 'P' as u8])
}

/// The application layer, given the boundary after the transport header:
/// protocol and start offset (the application span has no header length of
/// its own).  The start may lie past the end of a frame whose TCP header
/// advertised more bytes than were captured; such a frame never resolves.
pub open spec fn spec_application_from(frame: Seq<u8>, transport_end: int) -> (
    ApplicationPro,
    int,
) {
    if transport_end <= frame.len() && spec_is_http(frame.skip(transport_end)) {
        (ApplicationPro::HTTP, transport_end)
    } else {
        (ApplicationPro::Unsupported, transport_end)
    }
}

/// The application layer of a frame, from the frame alone.
pub open spec fn spec_application(frame: Seq<u8>, hint: LinkTypeHint) -> (ApplicationPro, int) {
    let t = spec_transport(frame, hint);
    spec_application_from(frame, t.1 + t.2)
}

/// The classification of a whole frame, layer by layer.
pub open spec fn spec_classify(frame: Seq<u8>, hint: LinkTypeHint) -> ProType {
    let link = spec_link(hint, frame.len() as int);
    let net = spec_network(frame, hint);
    let t = spec_transport(frame, hint);
    let app = spec_application(frame, hint);
    ProType {
        link_pro: link.0,
        link_start: 0,
        link_head_len: link.1 as usize,
        network_pro: net.0,
        network_start: net.1 as usize,
        network_head_len: net.2 as usize,
        transport_pro: t.0,
        transport_start: t.1 as usize,
        transport_head_len: t.2 as usize,
        application_pro: app.0,
        application_start: app.1 as usize,
    }
}

/// The bounds that hold of every classification: offsets grow monotonically,
/// every resolved layer lies inside the frame, and an unresolved layer has a
/// zero length span at the previous boundary.
pub open spec fn spec_spans_wf(pro: ProType, len: int) -> bool {
    &&& pro.link_start == 0
    &&& pro.link_start + pro.link_head_len <= pro.network_start
    &&& pro.network_start <= pro.transport_start
    &&& pro.transport_start <= pro.application_start
    &&& pro.link_pro is Unsupported || pro.link_pro is NotHave || pro.link_start
        + pro.link_head_len <= len
    &&& !(pro.link_pro is Unsupported || pro.link_pro is NotHave) || pro.link_head_len == 0
    &&& pro.network_pro is Unsupported || pro.network_start + pro.network_head_len <= len
    &&& pro.network_pro is Unsupported ==> pro.network_head_len == 0
    &&& pro.network_start <= len
    &&& pro.transport_pro is Unsupported || pro.transport_start + TCP_MIN_HEAD_LEN <= len
    &&& pro.transport_pro is Unsupported ==> pro.transport_head_len == 0
    &&& pro.transport_start <= len
    &&& pro.application_pro is Unsupported || pro.application_start <= len
}

impl ProType {
    /// A classification whose spans all lie inside a frame of length `len`.
    pub open spec fn wf(&self, len: int) -> bool {
        spec_spans_wf(*self, len)
    }
}

fn analyze_link_with_linktype(hint: LinkTypeHint, data: &[u8]) -> (r: (LinkPro, usize))
    ensures
        r.0 == spec_link(hint, data@.len() as int).0,
        r.1 == spec_link(hint, data@.len() as int).1,
{
    if data.len() == 0 {
        (LinkPro::Unsupported, 0)
    } else {
        match hint {
            LinkTypeHint::NoLinkLayer => (LinkPro::NotHave, 0),
            LinkTypeHint::LoopbackAddress => {
                if data.len() >= LOOPBACK_HEAD_LEN {
                    (LinkPro::LoopbackAddress, LOOPBACK_HEAD_LEN)
                } else {
                    (LinkPro::Unsupported, 0)
                }
            },
            LinkTypeHint::Ethernet => {
                if data.len() >= ETHERNET_HEAD_LEN {
                    (LinkPro::Ethernet, ETHERNET_HEAD_LEN)
                } else {
                    (LinkPro::Unsupported, 0)
                }
            },
            LinkTypeHint::Unsupported => (LinkPro::Unsupported, 0),
        }
    }
}

/// IPv4 sniffing used when the link layer names no network protocol: accept
/// the bytes at `start` whenever they have the shape of an IPv4 header.
fn guess_ipv4(data: &[u8], start: usize) -> (r: Option<usize>)
    requires
        start + 64 <= usize::MAX,
    ensures
        r is Some <==> spec_ipv4_guess_ok(data@, start as int),
        r matches Some(l) ==> l == spec_ipv4_head_len(data@, start as int),
{
    if start >= data.len() {
        return None;
    }
    let b = data[start];
    if b >> 4 != 4 {
        return None;
    }
    proof {
        assert(b & 0x0f <= 15) by (bit_vector);
    }
    let head_len = ((b & 0x0f) as usize) * 4;
    if data.len() < start + head_len {
        return None;
    }
    Some(head_len)
}

fn analyze_network(data: &[u8], link_pro: LinkPro, link_head_len: usize) -> (r: (
    NetworkPro,
    usize,
    usize,
))
    requires
        link_pro is Ethernet ==> link_head_len == ETHERNET_HEAD_LEN && link_head_len <= data@.len(),
        link_head_len + 64 <= usize::MAX,
    ensures
        (r.0, r.1 as int, r.2 as int) == spec_network_from(data@, link_pro, 0, link_head_len as int),
{
    let start = link_head_len;
    match link_pro {
        LinkPro::Ethernet => {
            let b0 = data[12];
            let b1 = data[13];
            let most = b0 as u16;
            let least = b1 as u16;
            let ethertype = (most << 8u16) | least;
            proof {
                assert(((b0 as u16) << 8u16 | (b1 as u16)) as int == (b0 as int) * 256 + (
                b1 as int)) by (bit_vector);
            }
            if ethertype == 0x0800 {
                match guess_ethernet_ipv4(data, start) {
                    Some(head_len) => (NetworkPro::IPv4, start, head_len),
                    None => (NetworkPro::Unsupported, start, 0),
                }
            } else {
                (NetworkPro::Unsupported, start, 0)
            }
        },
        _ => {
            match guess_ipv4(data, start) {
                Some(head_len) => (NetworkPro::IPv4, start, head_len),
                None => (NetworkPro::Unsupported, start, 0),
            }
        },
    }
}

/// Behind Ethernet the EtherType already named IPv4; only the advertised
/// header length still has to fit in the frame.
fn guess_ethernet_ipv4(data: &[u8], start: usize) -> (r: Option<usize>)
    requires
        start + 64 <= usize::MAX,
    ensures
        r is Some <==> start < data@.len() && start + spec_ipv4_head_len(data@, start as int)
            <= data@.len(),
        r matches Some(l) ==> l == spec_ipv4_head_len(data@, start as int),
{
    if start >= data.len() {
        return None;
    }
    let b = data[start];
    proof {
        assert(b & 0x0f <= 15) by (bit_vector);
    }
    let head_len = ((b & 0x0f) as usize) * 4;
    if data.len() < start + head_len {
        return None;
    }
    Some(head_len)
}

fn analyze_transport(data: &[u8], network_pro: NetworkPro, network_start: usize, network_head_len: usize) -> (r: (
    TransportPro,
    usize,
    usize,
))
    requires
        network_pro is IPv4 ==> network_start + network_head_len <= data@.len(),
        network_start + network_head_len + TCP_MIN_HEAD_LEN <= usize::MAX,
    ensures
        (r.0, r.1 as int, r.2 as int) == spec_transport_from(
            data@,
            network_pro,
            network_start as int,
            network_head_len as int,
        ),
{
    match network_pro {
        NetworkPro::IPv4 => {
            let start = network_start + network_head_len;
            if data.len() >= start + TCP_MIN_HEAD_LEN && data[network_start + 9] == 0x06 {
                let head_len = ((data[start + 12] >> 4) as usize) * 4;
                (TransportPro::TCP, start, head_len)
            } else {
                (TransportPro::Unsupported, start, 0)
            }
        },
        NetworkPro::Unsupported => (TransportPro::Unsupported, network_start, 0),
    }
}

fn analyze_application(data: &[u8], transport_end: usize) -> (r: (ApplicationPro, usize))
    ensures
        (r.0, r.1 as int) == spec_application_from(data@, transport_end as int),
{
    if transport_end <= data.len() && is_http_payload(data, transport_end) {
        (ApplicationPro::HTTP, transport_end)
    } else {
        (ApplicationPro::Unsupported, transport_end)
    }
}

/// Whether the bytes from `start` on open like an HTTP message.
fn is_http_payload(data: &[u8], start: usize) -> (r: bool)
    requires
        start <= data@.len(),
    ensures
        r == spec_is_http(data@.skip(start as int)),
{
    let n = data.len();
    let ghost p = data@.skip(start as int);
    assert(forall|i: int| 0 <= i < p.len() ==> p[i] == data@[start + i]);
    let r = (n - start >= 3 && data[start] == 'G' as u8 && data[start + 1] == 'E' as u8 && data[
        start + 2] == 'T' as u8) || (n - start >= 4 && data[start] == 'P' as u8 && data[start + 1]
        == 'O' as u8 && data[start + 2] == 'S' as u8 && data[start + 3] == 'T' as u8) || (n - start
        >= 3 && data[start] == 'P' as u8 && data[start + 1] == 'U' as u8 && data[start + 2] == 'T'
        as u8) || (n - start >= 6 && data[start] == 'D' as u8 && data[start + 1] == 'E' as u8
        && data[start + 2] == 'L' as u8 && data[start + 3] == 'E' as u8 && data[start + 4] == 'T'
        as u8 && data[start + 5] == 'E' as u8) || (n - start >= 4 && data[start] == 'H' as u8
        && data[start + 1] == 'E' as u8 && data[start + 2] == 'A' as u8 && data[start + 3] == 'D'
        as u8) || (n - start >= 7 && data[start] == 'O' as u8 && data[start + 1] == 'P' as u8
        && data[start + 2] == 'T' as u8 && data[start + 3] == 'I' as u8 && data[start + 4] == 'O'
        as u8 && data[start + 5] == 'N' as u8 && data[start + 6] == 'S' as u8) || (n - start >= 5
        && data[start] == 'P' as u8 && data[start + 1] == 'A' as u8 && data[start + 2] == 'T' as u8
        && data[start + 3] == 'C' as u8 && data[start + 4] == 'H' as u8) || (n - start >= 7 && data[
        start] == 'C' as u8 && data[start + 1] == 'O' as u8 && data[start + 2] == 'N' as u8 && data[
        start + 3] == 'N' as u8 && data[start + 4] == 'E' as u8 && data[start + 5] == 'C' as u8
        && data[start + 6] == 'T' as u8) || (n - start >= 5 && data[start] == 'T' as u8 && data[
        start + 1] == 'R' as u8 && data[start + 2] == 'A' as u8 && data[start + 3] == 'C' as u8
        && data[start + 4] == 'E' as u8) || (n - start >= 4 && data[start] == 'H' as u8 && data[
        start + 1] == 'T' as u8 && data[start + 2] == 'T' as u8 && data[start + 3] == 'P' as u8);
    r
}

/// Classify one frame: find where each of the four layers begins and how
/// long its header is.  Never fails; whatever cannot be resolved is reported
/// as an unsupported span of length zero at the previous boundary.
pub fn classify(data: &[u8], hint: LinkTypeHint) -> (r: ProType)
    requires
        data@.len() + 64 <= usize::MAX,
    ensures
        r == spec_classify(data@, hint),
        r.wf(data@.len() as int),
{
    let (link_pro, link_head_len) = analyze_link_with_linktype(hint, data);
    let (network_pro, network_start, network_head_len) = analyze_network(
        data,
        link_pro,
        link_head_len,
    );
    let (transport_pro, transport_start, transport_head_len) = analyze_transport(
        data,
        network_pro,
        network_start,
        network_head_len,
    );
    let (application_pro, application_start) = analyze_application(
        data,
        transport_start + transport_head_len,
    );
    proof {
        lemma_classify_wf(data@, hint);
    }
    ProType {
        link_pro,
        link_start: 0,
        link_head_len,
        network_pro,
        network_start,
        network_head_len,
        transport_pro,
        transport_start,
        transport_head_len,
        application_pro,
        application_start,
    }
}

/// Every classification keeps its spans inside the frame: a resolved link or
/// network header fits entirely, a resolved transport layer has at least a
/// minimal TCP header in the frame, a resolved application layer starts in
/// bounds, and offsets never decrease from one layer to the next.
pub proof fn lemma_classify_wf(frame: Seq<u8>, hint: LinkTypeHint)
    ensures
        spec_classify(frame, hint).wf(frame.len() as int),
{
}

/// A frame too short for its medium's link header leaves the link layer
/// unresolved: a zero length span at offset zero.
pub proof fn lemma_truncated_link(frame: Seq<u8>, hint: LinkTypeHint)
    requires
        (hint is Ethernet && frame.len() < ETHERNET_HEAD_LEN) || (hint is LoopbackAddress
            && frame.len() < LOOPBACK_HEAD_LEN),
    ensures
        spec_classify(frame, hint).link_pro is Unsupported,
        spec_classify(frame, hint).link_start == 0,
        spec_classify(frame, hint).link_head_len == 0,
{
}

/// Behind a resolved Ethernet header, a frame that cannot hold a minimal
/// 20 byte IPv4 header after the link layer leaves the network layer
/// unresolved, anchored right after the Ethernet header.  (An IPv4 header
/// that advertises fewer than five words is accepted whenever it fits, so
/// the advertised length is constrained here.)
pub proof fn lemma_truncated_network_ethernet(frame: Seq<u8>, hint: LinkTypeHint)
    requires
        frame.len() + 64 <= usize::MAX,
        spec_classify(frame, hint).link_pro is Ethernet,
        frame.len() < ETHERNET_HEAD_LEN + 20,
        ETHERNET_HEAD_LEN < frame.len() ==> frame[ETHERNET_HEAD_LEN as int] & 0x0f >= 5,
    ensures
        spec_classify(frame, hint).network_pro is Unsupported,
        spec_classify(frame, hint).network_start == ETHERNET_HEAD_LEN,
        spec_classify(frame, hint).network_head_len == 0,
{
}

/// The same truncation law for the sniffed path: when the link layer names
/// no network protocol and the frame cannot hold a minimal IPv4 header
/// after the link span, the network layer stays unresolved at the link
/// boundary.
pub proof fn lemma_truncated_network_guess(frame: Seq<u8>, hint: LinkTypeHint)
    requires
        frame.len() + 64 <= usize::MAX,
        !(spec_classify(frame, hint).link_pro is Ethernet),
        frame.len() < spec_link(hint, frame.len() as int).1 + 20,
        spec_link(hint, frame.len() as int).1 < frame.len() ==> frame[spec_link(
            hint,
            frame.len() as int,
        ).1] & 0x0f >= 5,
    ensures
        spec_classify(frame, hint).network_pro is Unsupported,
        spec_classify(frame, hint).network_start == spec_link(hint, frame.len() as int).1,
        spec_classify(frame, hint).network_head_len == 0,
{
}

/// An unresolved network layer drags the transport layer with it: the
/// transport span is zero length at the network boundary, and the
/// application layer is probed at that same boundary.
pub proof fn lemma_network_unresolved_cascade(frame: Seq<u8>, hint: LinkTypeHint)
    requires
        frame.len() + 64 <= usize::MAX,
        spec_classify(frame, hint).network_pro is Unsupported,
    ensures
        spec_classify(frame, hint).transport_pro is Unsupported,
        spec_classify(frame, hint).transport_start == spec_classify(frame, hint).network_start,
        spec_classify(frame, hint).transport_head_len == 0,
        spec_classify(frame, hint).application_start == spec_classify(frame, hint).network_start,
{
}

/// Behind a resolved IPv4 header, a frame too short for a minimal TCP
/// header leaves the transport layer unresolved, anchored right after the
/// IPv4 header.
pub proof fn lemma_truncated_transport(frame: Seq<u8>, hint: LinkTypeHint)
    requires
        frame.len() + 64 <= usize::MAX,
        spec_classify(frame, hint).network_pro is IPv4,
        frame.len() < spec_network(frame, hint).1 + spec_network(frame, hint).2 + TCP_MIN_HEAD_LEN,
    ensures
        spec_classify(frame, hint).transport_pro is Unsupported,
        spec_classify(frame, hint).transport_start == spec_network(frame, hint).1 + spec_network(
            frame,
            hint,
        ).2,
        spec_classify(frame, hint).transport_head_len == 0,
        spec_classify(frame, hint).application_start == spec_classify(frame, hint).transport_start,
{
}

/// A frame with fewer than three bytes after the transport boundary cannot
/// open like any HTTP message, so the application layer stays unresolved.
pub proof fn lemma_truncated_application(frame: Seq<u8>, hint: LinkTypeHint)
    requires
        frame.len() < spec_application(frame, hint).1 + 3,
    ensures
        spec_classify(frame, hint).application_pro is Unsupported,
{
}

/// An Ethernet frame whose EtherType field reads 0x0800 and whose IPv4
/// header advertises five words resolves the network layer at offset 14
/// with a 20 byte header.
pub proof fn lemma_ethernet_ipv4(frame: Seq<u8>, hint: LinkTypeHint)
    requires
        frame.len() + 64 <= usize::MAX,
        hint is Ethernet,
        frame.len() >= ETHERNET_HEAD_LEN + 20,
        (frame[12] as int) * 256 + (frame[13] as int) == 0x0800,
        frame[ETHERNET_HEAD_LEN as int] & 0x0f == 5,
    ensures
        spec_classify(frame, hint).network_pro is IPv4,
        spec_classify(frame, hint).network_start == ETHERNET_HEAD_LEN,
        spec_classify(frame, hint).network_head_len == 20,
{
}

/// An IPv4 packet whose protocol byte reads 6 and that still holds a
/// minimal TCP header resolves the transport layer as TCP, with the header
/// length taken from the data offset nibble.
pub proof fn lemma_ipv4_tcp(frame: Seq<u8>, hint: LinkTypeHint)
    requires
        frame.len() + 64 <= usize::MAX,
        spec_classify(frame, hint).network_pro is IPv4,
        frame[spec_network(frame, hint).1 + 9] == 6,
        spec_network(frame, hint).1 + spec_network(frame, hint).2 + TCP_MIN_HEAD_LEN
            <= frame.len(),
    ensures
        spec_classify(frame, hint).transport_pro is TCP,
        spec_classify(frame, hint).transport_start == spec_network(frame, hint).1 + spec_network(
            frame,
            hint,
        ).2,
        spec_classify(frame, hint).transport_head_len == 4 * ((frame[spec_network(frame, hint).1
            + spec_network(frame, hint).2 + 12] >> 4) as int),
{
}

/// An empty frame resolves nothing: all four spans are zero length,
/// unsupported, and anchored at offset zero, whatever the hint says.
pub proof fn lemma_classify_empty(hint: LinkTypeHint)
    ensures
        spec_classify(Seq::<u8>::empty(), hint) == (ProType {
            link_pro: LinkPro::Unsupported,
            link_start: 0,
            link_head_len: 0,
            network_pro: NetworkPro::Unsupported,
            network_start: 0,
            network_head_len: 0,
            transport_pro: TransportPro::Unsupported,
            transport_start: 0,
            transport_head_len: 0,
            application_pro: ApplicationPro::Unsupported,
            application_start: 0,
        }),
{
    assert(!spec_is_http(Seq::<u8>::empty().skip(0)));
}

} // verus!
