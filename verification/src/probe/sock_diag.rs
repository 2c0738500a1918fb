//! The kernel's socket diagnosis messages as bytes.
use crate::ip::{IpAddr, SocketAddr};
use crate::probe::socket_health;
use crate::probe::socket_health::{parse_tcp_info, TcpInfo, TcpStats};
use vstd::prelude::*;

verus! {

/// The order of the bytes of a number on the machine.
#[derive(Clone, Copy, Debug, PartialEq, Eq, Structural)]
pub enum ByteOrder {
    Little,
    Big,
}

pub const SOCK_DIAG_BY_FAMILY: u16 = 20;

/// Asks for all sockets that match.
pub const DUMP_REQUEST: u16 = 0x301;

pub const TCP_PROTOCOL: u8 = 6;

pub const TCP_ESTABLISHED: u8 = 1;

/// The attribute that holds the counters of a connection.
pub const INET_DIAG_INFO: u16 = 2;

pub const NLMSG_ERROR: u16 = 2;

pub const NLMSG_DONE: u16 = 3;

/// The length of a message's head.
pub const HEADER_LEN: usize = 16;

/// The length of an error message's body.
pub const ERROR_LEN: usize = 20;

/// The length of a socket message's fixed part.
pub const DIAG_MESSAGE_LEN: usize = 72;

/// A socket as requests name it.
#[derive(Clone, Copy, Debug, PartialEq, Eq)]
pub struct InetDiagSockid {
    pub port: [u16; 2],
    pub src: [u32; 4],
    pub dst: [u32; 4],
    pub iface: u32,
    pub cookie: [u32; 2],
}

/// A request for sockets.
#[derive(Clone, Copy, Debug, PartialEq, Eq)]
pub struct InetDiagReqV2 {
    pub sdiag_family: u8,
    pub sdiag_protocol: u8,
    pub idiag_ext: u8,
    pub pad: u8,
    pub idiag_states: u32,
    pub id: InetDiagSockid,
}

/// How a datagram of replies ended.
#[derive(Clone, Copy, Debug, PartialEq, Eq, Structural)]
pub enum DatagramEnd {
    /// More datagrams follow.
    More,
    /// The last message was read.
    Done,
    /// The kernel reported an error, with the given number.
    Failed(i64),
}

// ---------------------------------------------------------------------------
// Model
// ---------------------------------------------------------------------------

/// A length, rounded up to a multiple of four.
pub open spec fn aligned(n: nat) -> nat {
    (n + 3) / 4 * 4
}

/// The number in two bytes.
pub open spec fn number16(order: ByteOrder, a: u8, b: u8) -> u16 {
    match order {
        ByteOrder::Little => (a + b * 0x100) as u16,
        ByteOrder::Big => (a * 0x100 + b) as u16,
    }
}

/// The number in four bytes.
pub open spec fn number32(order: ByteOrder, a: u8, b: u8, c: u8, d: u8) -> u32 {
    match order {
        ByteOrder::Little => (a + b * 0x100 + c * 0x10000 + d * 0x1000000) as u32,
        ByteOrder::Big => (a * 0x1000000 + b * 0x10000 + c * 0x100 + d) as u32,
    }
}

/// The byte at a position; there are zeros behind the end.
pub open spec fn byte_at(s: Seq<u8>, i: int) -> u8 {
    if 0 <= i < s.len() {
        s[i]
    } else {
        0
    }
}

pub open spec fn u16_at(order: ByteOrder, s: Seq<u8>, i: int) -> u16 {
    number16(order, byte_at(s, i), byte_at(s, i + 1))
}

pub open spec fn u32_at(order: ByteOrder, s: Seq<u8>, i: int) -> u32 {
    number32(order, byte_at(s, i), byte_at(s, i + 1), byte_at(s, i + 2), byte_at(s, i + 3))
}

/// The number of bytes from a position on.
pub open spec fn remaining(s: Seq<u8>, at: int) -> nat {
    if at <= s.len() {
        (s.len() - at) as nat
    } else {
        0
    }
}

/// The counters in an attribute. An older kernel gives fewer; the others are
/// zero.
pub open spec fn info_of(order: ByteOrder, data: Seq<u8>) -> TcpInfo {
    TcpInfo {
        rtt: u32_at(order, data, 68),
        rttvar: u32_at(order, data, 72),
        retransmits: byte_at(data, 2),
        total_retrans: u32_at(order, data, 100),
        unacked: u32_at(order, data, 24),
    }
}

/// The counters among the attributes from a position on. An attribute that goes
/// past the end, or that has no length, ends the search.
pub open spec fn counters_from(order: ByteOrder, payload: Seq<u8>, at: int) -> Option<TcpStats>
    decreases remaining(payload, at),
{
    if at < 0 || at + 4 > payload.len() {
        None
    } else {
        let len = u16_at(order, payload, at) as int;
        let data_len = if len < 4 {
            0
        } else {
            len - 4
        };
        if at + 4 + data_len > payload.len() {
            None
        } else if u16_at(order, payload, at + 2) == INET_DIAG_INFO {
            Some(
                socket_health::stats_of(
                    info_of(order, payload.subrange(at + 4, at + 4 + data_len)),
                ),
            )
        } else if len == 0 {
            None
        } else {
            counters_from(order, payload, at + aligned(len as nat))
        }
    }
}

/// What a socket message tells of an established connection.
pub open spec fn message_stats(order: ByteOrder, payload: Seq<u8>) -> Option<TcpStats> {
    if payload.len() < DIAG_MESSAGE_LEN || payload[1] != TCP_ESTABLISHED {
        None
    } else {
        counters_from(order, payload, DIAG_MESSAGE_LEN as int)
    }
}

/// The number of an error from its representation: the kernel reports it negated.
pub open spec fn error_number(raw: u32) -> i64 {
    if raw < 0x8000_0000 {
        -(raw as int) as i64
    } else {
        (0x1_0000_0000 - raw) as i64
    }
}

/// What the messages of a datagram tell, from a position on.
pub open spec fn read_from(order: ByteOrder, s: Seq<u8>, at: int, stats: Seq<TcpStats>) -> (
    Seq<TcpStats>,
    DatagramEnd,
)
    decreases remaining(s, at),
{
    if at < 0 || at + HEADER_LEN > s.len() {
        (stats, DatagramEnd::More)
    } else {
        let len = u32_at(order, s, at) as int;
        let kind = u16_at(order, s, at + 4);
        if len < HEADER_LEN || at + len > s.len() {
            (stats, DatagramEnd::More)
        } else {
            let payload = s.subrange(at + HEADER_LEN, at + len);
            if kind == NLMSG_ERROR && payload.len() >= ERROR_LEN && u32_at(order, payload, 0) != 0 {
                (stats, DatagramEnd::Failed(error_number(u32_at(order, payload, 0))))
            } else if kind == NLMSG_DONE {
                (stats, DatagramEnd::Done)
            } else {
                let found = if kind == SOCK_DIAG_BY_FAMILY {
                    message_stats(order, payload)
                } else {
                    None
                };
                read_from(
                    order,
                    s,
                    at + aligned(len as nat),
                    match found {
                        Some(x) => stats.push(x),
                        None => stats,
                    },
                )
            }
        }
    }
}

/// The bytes of a number.
pub open spec fn bytes16(order: ByteOrder, n: u16) -> Seq<u8> {
    match order {
        ByteOrder::Little => seq![(n % 0x100) as u8, (n / 0x100) as u8],
        ByteOrder::Big => seq![(n / 0x100) as u8, (n % 0x100) as u8],
    }
}

/// The bytes of a number.
pub open spec fn bytes32(order: ByteOrder, n: u32) -> Seq<u8> {
    let a = (n % 0x100) as u8;
    let b = (n / 0x100 % 0x100) as u8;
    let c = (n / 0x10000 % 0x100) as u8;
    let d = (n / 0x1000000) as u8;
    match order {
        ByteOrder::Little => seq![a, b, c, d],
        ByteOrder::Big => seq![d, c, b, a],
    }
}

/// The bytes of a request's socket.
pub open spec fn sockid_bytes(order: ByteOrder, id: InetDiagSockid) -> Seq<u8> {
    bytes16(order, id.port[0]) + bytes16(order, id.port[1]) + bytes32(order, id.src[0]) + bytes32(
        order,
        id.src[1],
    ) + bytes32(order, id.src[2]) + bytes32(order, id.src[3]) + bytes32(order, id.dst[0]) + bytes32(
        order,
        id.dst[1],
    ) + bytes32(order, id.dst[2]) + bytes32(order, id.dst[3]) + bytes32(order, id.iface) + bytes32(
        order,
        id.cookie[0],
    ) + bytes32(order, id.cookie[1])
}

/// The bytes of a message: its head, then the request.
pub open spec fn message_bytes(order: ByteOrder, sequence: u32, r: InetDiagReqV2) -> Seq<u8> {
    bytes32(order, 72) + bytes16(order, SOCK_DIAG_BY_FAMILY) + bytes16(order, DUMP_REQUEST)
        + bytes32(order, sequence) + bytes32(order, 0) + seq![
        r.sdiag_family,
        r.sdiag_protocol,
        r.idiag_ext,
        r.pad,
    ] + bytes32(order, r.idiag_states) + sockid_bytes(order, r.id)
}

/// A number whose bytes are the most significant first, as the machine holds it.
pub open spec fn network16(order: ByteOrder, n: u16) -> u16 {
    number16(order, (n / 0x100) as u8, (n % 0x100) as u8)
}

/// The words of an address: its bytes in order, as the machine holds them. An
/// IPv4 address takes the last word.
pub open spec fn address_words(order: ByteOrder, ip: IpAddr) -> Seq<u32> {
    match ip {
        IpAddr::V4(o) => seq![0u32, 0, 0, number32(order, o[0], o[1], o[2], o[3])],
        IpAddr::V6(s) => Seq::new(
            4,
            |i: int|
                number32(
                    order,
                    (s[2 * i] / 0x100) as u8,
                    (s[2 * i] % 0x100) as u8,
                    (s[2 * i + 1] / 0x100) as u8,
                    (s[2 * i + 1] % 0x100) as u8,
                ),
        ),
    }
}

// ---------------------------------------------------------------------------
// Laws
// ---------------------------------------------------------------------------

proof fn lemma_digits(a: int, b: int, c: int, d: int)
    requires
        0 <= a < 0x100,
        0 <= b < 0x100,
        0 <= c < 0x100,
        0 <= d < 0x100,
    ensures
        ({
            let n = a + b * 0x100 + c * 0x10000 + d * 0x1000000;
            &&& n % 0x100 == a
            &&& n / 0x100 % 0x100 == b
            &&& n / 0x10000 % 0x100 == c
            &&& n / 0x1000000 == d
        }),
{
    let n = a + b * 0x100 + c * 0x10000 + d * 0x1000000;
    let first = b + c * 0x100 + d * 0x10000;
    let second = c + d * 0x100;
    assert(n == a + 0x100 * first);
    assert(n / 0x100 == first);
    assert(n / 0x10000 == second);
}

pub proof fn lemma_bytes_round_trip(order: ByteOrder, a: u8, b: u8, c: u8, d: u8)
    ensures
        bytes32(order, number32(order, a, b, c, d)) == seq![a, b, c, d],
        bytes16(order, number16(order, a, b)) == seq![a, b],
{
    match order {
        ByteOrder::Little => {
            lemma_digits(a as int, b as int, c as int, d as int);
        },
        ByteOrder::Big => {
            lemma_digits(d as int, c as int, b as int, a as int);
        },
    }
    assert(bytes32(order, number32(order, a, b, c, d)) =~= seq![a, b, c, d]);
    assert(bytes16(order, number16(order, a, b)) =~= seq![a, b]);
}

/// On every machine a request carries the address and the port of the peer in
/// network order.
pub proof fn law_requests_carry_network_order(order: ByteOrder, o: [u8; 4], port: u16)
    ensures
        bytes32(order, address_words(order, IpAddr::V4(o))[3]) == seq![o[0], o[1], o[2], o[3]],
        bytes16(order, network16(order, port)) == seq![
            (port / 0x100) as u8,
            (port % 0x100) as u8,
        ],
{
    lemma_bytes_round_trip(order, o[0], o[1], o[2], o[3]);
    lemma_bytes_round_trip(order, (port / 0x100) as u8, (port % 0x100) as u8, 0, 0);
}

/// Rounding up gives the next multiple of four.
pub proof fn law_alignment(n: nat)
    ensures
        n <= aligned(n) < n + 4,
        aligned(n) % 4 == 0,
{
}

// ---------------------------------------------------------------------------
// Executable forms
// ---------------------------------------------------------------------------

/// A length, rounded up to a multiple of four.
pub fn nlmsg_align(len: usize) -> (r: usize)
    requires
        len + 3 <= usize::MAX,
    ensures
        r == aligned(len as nat),
{
    (len + 3) / 4 * 4
}

fn read_byte(s: &[u8], i: usize) -> (r: u8)
    ensures
        r == byte_at(s@, i as int),
{
    if i < s.len() {
        s[i]
    } else {
        0
    }
}

fn read_u16(order: ByteOrder, s: &[u8], i: usize) -> (r: u16)
    requires
        i + 1 <= usize::MAX,
    ensures
        r == u16_at(order, s@, i as int),
{
    let a = read_byte(s, i) as u16;
    let b = read_byte(s, i + 1) as u16;
    match order {
        ByteOrder::Little => a + b * 0x100,
        ByteOrder::Big => a * 0x100 + b,
    }
}

fn make_u32(order: ByteOrder, a: u8, b: u8, c: u8, d: u8) -> (r: u32)
    ensures
        r == number32(order, a, b, c, d),
{
    match order {
        ByteOrder::Little => a as u32 + b as u32 * 0x100 + c as u32 * 0x10000 + d as u32 * 0x1000000,
        ByteOrder::Big => a as u32 * 0x1000000 + b as u32 * 0x10000 + c as u32 * 0x100 + d as u32,
    }
}

fn read_u32(order: ByteOrder, s: &[u8], i: usize) -> (r: u32)
    requires
        i + 3 <= usize::MAX,
    ensures
        r == u32_at(order, s@, i as int),
{
    make_u32(
        order,
        read_byte(s, i),
        read_byte(s, i + 1),
        read_byte(s, i + 2),
        read_byte(s, i + 3),
    )
}

/// What the counters of an attribute give.
fn read_info(order: ByteOrder, data: &[u8]) -> (r: TcpStats)
    ensures
        r == socket_health::stats_of(info_of(order, data@)),
{
    parse_tcp_info(
        &TcpInfo {
            rtt: read_u32(order, data, 68),
            rttvar: read_u32(order, data, 72),
            retransmits: read_byte(data, 2),
            total_retrans: read_u32(order, data, 100),
            unacked: read_u32(order, data, 24),
        },
    )
}

/// Reads a socket message, and adds what it tells of an established connection.
pub fn collect_message(order: ByteOrder, payload: &[u8], stats: &mut Vec<TcpStats>)
    ensures
        final(stats)@ == (match message_stats(order, payload@) {
            Some(x) => old(stats)@.push(x),
            None => old(stats)@,
        }),
{
    let n: usize = payload.len();
    if n < DIAG_MESSAGE_LEN {
        return;
    }
    if payload[1] != TCP_ESTABLISHED {
        return;
    }
    let ghost before = stats@;
    let mut at: usize = DIAG_MESSAGE_LEN;
    while n - at >= 4
        invariant
            n == payload@.len(),
            n >= DIAG_MESSAGE_LEN,
            payload@[1] == TCP_ESTABLISHED,
            stats@ == before,
            before == old(stats)@,
            DIAG_MESSAGE_LEN <= at <= n,
            message_stats(order, payload@) == counters_from(order, payload@, at as int),
        decreases n - at,
    {
        let len: usize = read_u16(order, payload, at) as usize;
        let kind = read_u16(order, payload, at + 2);
        let data_len: usize = if len < 4 {
            0
        } else {
            len - 4
        };
        if data_len > n - at - 4 {
            return;
        }
        if kind == INET_DIAG_INFO {
            let data = vstd::slice::slice_subrange(payload, at + 4, at + 4 + data_len);
            stats.push(read_info(order, data));
            return;
        }
        if len == 0 {
            return;
        }
        let step = nlmsg_align(len);
        if step > n - at {
            assert(counters_from(order, payload@, at + step) is None);
            return;
        }
        at += step;
    }
}

/// Reads the messages of a datagram, and adds what they tell of established
/// connections.
pub fn read_datagram(order: ByteOrder, bytes: &[u8], stats: &mut Vec<TcpStats>) -> (r: DatagramEnd)
    ensures
        (final(stats)@, r) == read_from(order, bytes@, 0, old(stats)@),
{
    let n: usize = bytes.len();
    let ghost before = stats@;
    let mut at: usize = 0;
    while n - at >= HEADER_LEN
        invariant
            n == bytes@.len(),
            at <= n,
            before == old(stats)@,
            read_from(order, bytes@, 0, before) == read_from(order, bytes@, at as int, stats@),
        decreases n - at,
    {
        let len: usize = read_u32(order, bytes, at) as usize;
        let kind = read_u16(order, bytes, at + 4);
        if len < HEADER_LEN || len > n - at {
            return DatagramEnd::More;
        }
        let payload = vstd::slice::slice_subrange(bytes, at + HEADER_LEN, at + len);
        if kind == NLMSG_ERROR {
            if payload.len() >= ERROR_LEN {
                let raw = read_u32(order, payload, 0);
                if raw != 0 {
                    let number: i64 = if raw < 0x8000_0000 {
                        -(raw as i64)
                    } else {
                        0x1_0000_0000 - raw as i64
                    };
                    return DatagramEnd::Failed(number);
                }
            }
        } else if kind == NLMSG_DONE {
            return DatagramEnd::Done;
        } else if kind == SOCK_DIAG_BY_FAMILY {
            collect_message(order, payload, stats);
        }
        if n - at - len < 3 {
            assert(read_from(order, bytes@, at + aligned(len as nat), stats@) == (
                stats@,
                DatagramEnd::More,
            ));
            return DatagramEnd::More;
        }
        at += nlmsg_align(len);
    }
    DatagramEnd::More
}

fn push_u16(order: ByteOrder, n: u16, out: &mut Vec<u8>)
    ensures
        final(out)@ == old(out)@ + bytes16(order, n),
{
    let ghost before = out@;
    let low = (n % 0x100) as u8;
    let high = (n / 0x100) as u8;
    match order {
        ByteOrder::Little => {
            out.push(low);
            out.push(high);
        },
        ByteOrder::Big => {
            out.push(high);
            out.push(low);
        },
    }
    assert(out@ =~= before + bytes16(order, n));
}

fn push_u32(order: ByteOrder, n: u32, out: &mut Vec<u8>)
    ensures
        final(out)@ == old(out)@ + bytes32(order, n),
{
    let ghost before = out@;
    let a = (n % 0x100) as u8;
    let b = (n / 0x100 % 0x100) as u8;
    let c = (n / 0x10000 % 0x100) as u8;
    let d = (n / 0x1000000) as u8;
    match order {
        ByteOrder::Little => {
            out.push(a);
            out.push(b);
            out.push(c);
            out.push(d);
        },
        ByteOrder::Big => {
            out.push(d);
            out.push(c);
            out.push(b);
            out.push(a);
        },
    }
    assert(out@ =~= before + bytes32(order, n));
}

fn encode_sockid(order: ByteOrder, id: &InetDiagSockid) -> (r: Vec<u8>)
    ensures
        r@ == sockid_bytes(order, *id),
{
    let mut r: Vec<u8> = Vec::new();
    push_u16(order, id.port[0], &mut r);
    assert(r@ =~= bytes16(order, id.port[0]));
    push_u16(order, id.port[1], &mut r);
    push_u32(order, id.src[0], &mut r);
    push_u32(order, id.src[1], &mut r);
    push_u32(order, id.src[2], &mut r);
    push_u32(order, id.src[3], &mut r);
    push_u32(order, id.dst[0], &mut r);
    push_u32(order, id.dst[1], &mut r);
    push_u32(order, id.dst[2], &mut r);
    push_u32(order, id.dst[3], &mut r);
    push_u32(order, id.iface, &mut r);
    push_u32(order, id.cookie[0], &mut r);
    push_u32(order, id.cookie[1], &mut r);
    r
}

fn push_four(a: u8, b: u8, c: u8, d: u8, out: &mut Vec<u8>)
    ensures
        final(out)@ == old(out)@ + seq![a, b, c, d],
{
    let ghost before = out@;
    out.push(a);
    out.push(b);
    out.push(c);
    out.push(d);
    assert(out@ =~= before + seq![a, b, c, d]);
}

/// The message that asks for sockets.
pub fn encode_message(order: ByteOrder, sequence: u32, request: &InetDiagReqV2) -> (r: Vec<u8>)
    ensures
        r@ == message_bytes(order, sequence, *request),
{
    let mut r: Vec<u8> = Vec::new();
    push_u32(order, 72, &mut r);
    assert(r@ =~= bytes32(order, 72));
    push_u16(order, SOCK_DIAG_BY_FAMILY, &mut r);
    push_u16(order, DUMP_REQUEST, &mut r);
    push_u32(order, sequence, &mut r);
    push_u32(order, 0, &mut r);
    push_four(
        request.sdiag_family,
        request.sdiag_protocol,
        request.idiag_ext,
        request.pad,
        &mut r,
    );
    push_u32(order, request.idiag_states, &mut r);
    let mut id = encode_sockid(order, &request.id);
    r.append(&mut id);
    r
}

fn to_network16(order: ByteOrder, n: u16) -> (r: u16)
    ensures
        r == network16(order, n),
{
    match order {
        ByteOrder::Little => n / 0x100 + n % 0x100 * 0x100,
        ByteOrder::Big => n / 0x100 * 0x100 + n % 0x100,
    }
}

fn segment_word(order: ByteOrder, s: [u16; 8], i: usize) -> (r: u32)
    requires
        i < 4,
    ensures
        r == address_words(order, IpAddr::V6(s))[i as int],
{
    let first = s[2 * i];
    let second = s[2 * i + 1];
    make_u32(
        order,
        (first / 0x100) as u8,
        (first % 0x100) as u8,
        (second / 0x100) as u8,
        (second % 0x100) as u8,
    )
}

/// A request for the established TCP connections to a peer, with their counters.
pub fn build_request(order: ByteOrder, family: u8, peer: &SocketAddr) -> (r: InetDiagReqV2)
    ensures
        r.sdiag_family == family,
        r.sdiag_protocol == TCP_PROTOCOL,
        r.idiag_ext == 2,
        r.pad == 0,
        r.idiag_states == 2,
        r.id.port@ == seq![0u16, network16(order, peer.port)],
        r.id.src@ == seq![0u32, 0, 0, 0],
        r.id.dst@ == address_words(order, peer.ip),
        r.id.iface == 0,
        r.id.cookie@ == seq![0u32, 0],
{
    let dst: [u32; 4] = match peer.ip {
        IpAddr::V4(o) => [0, 0, 0, make_u32(order, o[0], o[1], o[2], o[3])],
        IpAddr::V6(s) => [
            segment_word(order, s, 0),
            segment_word(order, s, 1),
            segment_word(order, s, 2),
            segment_word(order, s, 3),
        ],
    };
    assert(dst@ =~= address_words(order, peer.ip));
    let port: [u16; 2] = [0, to_network16(order, peer.port)];
    assert(port@ =~= seq![0u16, network16(order, peer.port)]);
    InetDiagReqV2 {
        sdiag_family: family,
        sdiag_protocol: TCP_PROTOCOL,
        idiag_ext: 2,
        pad: 0,
        idiag_states: 2,
        id: InetDiagSockid { port, src: [0, 0, 0, 0], dst, iface: 0, cookie: [0, 0] },
    }
}

} // verus!
