//! The client side of a SOCKS5 handshake without authentication.
use crate::ip;
use crate::text;
use vstd::prelude::*;
use vstd::string::*;

verus! {

/// Where a handshake stands: what the next bytes to read are.
#[derive(Clone, Copy, Debug, PartialEq, Eq, Structural)]
pub enum SocksState {
    /// The answer to the greeting.
    Greeting,
    /// The head of the reply to the request.
    Reply,
    /// The length of the bound name.
    NameLength,
    /// The bound address.
    Address,
    /// The bound port.
    Port,
}

/// What to do next.
#[derive(Clone, Debug, PartialEq, Eq)]
pub enum SocksAction<B = Vec<u8>> {
    /// Write the bytes, then read as many as are asked for.
    Send(B, usize),
    /// Read as many bytes as are asked for.
    Receive(usize),
    /// The connection is made.
    Connected,
}

impl View for SocksAction {
    type V = SocksAction<Seq<u8>>;

    open spec fn view(&self) -> SocksAction<Seq<u8>> {
        match *self {
            SocksAction::Send(bytes, n) => SocksAction::Send(bytes@, n),
            SocksAction::Receive(n) => SocksAction::Receive(n),
            SocksAction::Connected => SocksAction::Connected,
        }
    }
}

/// Why a handshake fails.
#[derive(Clone, Copy, Debug, PartialEq, Eq, Structural)]
pub enum SocksError {
    GreetingRejected(u8, u8),
    ConnectFailed(u8),
    UnknownAddressType(u8),
}

impl SocksError {
    pub open spec fn text(self) -> Seq<char> {
        match self {
            SocksError::GreetingRejected(a, b) => "socks5 greeting rejected: ["@ + text::hex_byte(a)
                + ", "@ + text::hex_byte(b) + "]"@,
            SocksError::ConnectFailed(code) => "socks5 CONNECT failed with reply "@ + text::decimal(
                code as nat,
            ),
            SocksError::UnknownAddressType(kind) => "socks5 reply with unknown address type "@
                + text::decimal(kind as nat),
        }
    }

    /// The message for a user.
    pub fn message(self) -> (r: String)
        ensures
            r@ == self.text(),
    {
        match self {
            SocksError::GreetingRejected(a, b) => {
                let mut r = "socks5 greeting rejected: [".to_owned();
                r.append(byte_text(a).as_str());
                r.append(", ");
                r.append(byte_text(b).as_str());
                r.append("]");
                r
            },
            SocksError::ConnectFailed(code) => {
                let mut r = "socks5 CONNECT failed with reply ".to_owned();
                r.append(text::decimal_text(code as u64).as_str());
                r
            },
            SocksError::UnknownAddressType(kind) => {
                let mut r = "socks5 reply with unknown address type ".to_owned();
                r.append(text::decimal_text(kind as u64).as_str());
                r
            },
        }
    }
}

fn byte_text(b: u8) -> (r: String)
    ensures
        r@ == text::hex_byte(b),
{
    let chars = [text::digit_for(b / 16), text::digit_for(b % 16)];
    assert(chars@ =~= text::hex_byte(b));
    text::from_chars(&chars)
}

// ---------------------------------------------------------------------------
// Model
// ---------------------------------------------------------------------------

/// The greeting: version five, one method, no authentication.
pub open spec fn greeting() -> Seq<u8> {
    seq![5u8, 1u8, 0u8]
}

/// The segments of an address as bytes, most significant first.
pub open spec fn segment_octets(s: Seq<u16>) -> Seq<u8> {
    seq![
        (s[0] / 256) as u8,
        (s[0] % 256) as u8,
        (s[1] / 256) as u8,
        (s[1] % 256) as u8,
        (s[2] / 256) as u8,
        (s[2] % 256) as u8,
        (s[3] / 256) as u8,
        (s[3] % 256) as u8,
        (s[4] / 256) as u8,
        (s[4] % 256) as u8,
        (s[5] / 256) as u8,
        (s[5] % 256) as u8,
        (s[6] / 256) as u8,
        (s[6] % 256) as u8,
        (s[7] / 256) as u8,
        (s[7] % 256) as u8,
    ]
}

/// The address of a request: by its kind an IPv4 address, an IPv6 address, or a
/// name after a byte with its length.
pub open spec fn request_address(host: Seq<char>) -> Seq<u8> {
    match ip::ipv4_octets(host) {
        Some(octets) => seq![1u8] + octets,
        None => match ip::ipv6_segments(host) {
            Some(segments) => seq![4u8] + segment_octets(segments),
            None => {
                let name = vstd::utf8::encode_utf8(host);
                seq![3u8, (name.len() % 256) as u8] + name
            },
        },
    }
}

/// The request to connect to a host and port.
pub open spec fn connect_bytes(host: Seq<char>, port: u16) -> Seq<u8> {
    seq![5u8, 1u8, 0u8] + request_address(host) + seq![(port / 256) as u8, (port % 256) as u8]
}

/// The number of bytes to read in a state, where that is fixed.
pub open spec fn fits_state(state: SocksState, bytes: Seq<u8>) -> bool {
    match state {
        SocksState::Greeting => bytes.len() == 2,
        SocksState::Reply => bytes.len() == 4,
        SocksState::NameLength => bytes.len() == 1,
        SocksState::Address => true,
        SocksState::Port => bytes.len() == 2,
    }
}

/// A handshake after it read the bytes that it asked for.
pub open spec fn handshake(
    state: SocksState,
    bytes: Seq<u8>,
    host: Seq<char>,
    port: u16,
) -> Result<(SocksState, SocksAction<Seq<u8>>), SocksError> {
    match state {
        SocksState::Greeting => if bytes[0] == 5 && bytes[1] == 0 {
            Ok((SocksState::Reply, SocksAction::Send(connect_bytes(host, port), 4)))
        } else {
            Err(SocksError::GreetingRejected(bytes[0], bytes[1]))
        },
        SocksState::Reply => if bytes[1] != 0 {
            Err(SocksError::ConnectFailed(bytes[1]))
        } else if bytes[3] == 1 {
            Ok((SocksState::Address, SocksAction::Receive(4)))
        } else if bytes[3] == 4 {
            Ok((SocksState::Address, SocksAction::Receive(16)))
        } else if bytes[3] == 3 {
            Ok((SocksState::NameLength, SocksAction::Receive(1)))
        } else {
            Err(SocksError::UnknownAddressType(bytes[3]))
        },
        SocksState::NameLength => Ok(
            (SocksState::Address, SocksAction::Receive(bytes[0] as usize)),
        ),
        SocksState::Address => Ok((SocksState::Port, SocksAction::Receive(2))),
        SocksState::Port => Ok((SocksState::Port, SocksAction::Connected)),
    }
}

/// A handshake is connected only after a reply that grants the request: a reply
/// with another code ends it.
pub proof fn law_refused_requests_never_connect(bytes: Seq<u8>, host: Seq<char>, port: u16)
    requires
        bytes.len() == 4,
        bytes[1] != 0,
    ensures
        handshake(SocksState::Reply, bytes, host, port) == Err::<
            (SocksState, SocksAction<Seq<u8>>),
            _,
        >(SocksError::ConnectFailed(bytes[1])),
{
}

// ---------------------------------------------------------------------------
// Executable forms
// ---------------------------------------------------------------------------

/// The request to connect to a host and port.
pub fn connect_request(host: &str, port: u16) -> (r: Vec<u8>)
    ensures
        r@ == connect_bytes(host@, port),
{
    let mut r: Vec<u8> = Vec::new();
    r.push(5);
    r.push(1);
    r.push(0);
    let chars = text::to_chars(host);
    match ip::read_ipv4(&chars) {
        Some(o) => {
            r.push(1);
            r.push(o[0]);
            r.push(o[1]);
            r.push(o[2]);
            r.push(o[3]);
            assert(r@ =~= seq![5u8, 1u8, 0u8] + request_address(host@));
        },
        None => match ip::read_ipv6(&chars) {
            Some(s) => {
                r.push(4);
                let ghost head = r@;
                let mut i: usize = 0;
                while i < 8
                    invariant
                        i <= 8,
                        s@.len() == 8,
                        head.len() == 4,
                        r@ == head + segment_octets(s@).take(2 * i),
                    decreases 8 - i,
                {
                    let ghost all = segment_octets(s@);
                    let ghost before = r@;
                    r.push((s[i] / 256) as u8);
                    r.push((s[i] % 256) as u8);
                    assert(all[2 * i] == (s@[i as int] / 256) as u8);
                    assert(all[2 * i + 1] == (s@[i as int] % 256) as u8);
                    assert(r@ =~= head + all.take(2 * (i + 1)));
                    i += 1;
                }
                assert(r@ =~= seq![5u8, 1u8, 0u8] + request_address(host@));
            },
            None => {
                let name = host.as_bytes();
                let len: usize = name.len();
                r.push(3);
                r.push((len % 256) as u8);
                let ghost head = r@;
                let mut i: usize = 0;
                while i < len
                    invariant
                        i <= len,
                        len == name@.len(),
                        r@ == head + name@.take(i as int),
                    decreases len - i,
                {
                    r.push(name[i]);
                    assert(r@ =~= head + name@.take(i + 1));
                    i += 1;
                }
                assert(r@ =~= seq![5u8, 1u8, 0u8] + request_address(host@));
            },
        },
    }
    r.push((port / 256) as u8);
    r.push((port % 256) as u8);
    assert(r@ =~= connect_bytes(host@, port));
    r
}

/// Starts a handshake: send the greeting, read its answer.
pub fn socks5_start() -> (r: (SocksState, SocksAction))
    ensures
        r.0 == SocksState::Greeting,
        r.1@ == SocksAction::Send(greeting(), 2usize),
{
    let bytes = vec![5u8, 1u8, 0u8];
    assert(bytes@ =~= greeting());
    (SocksState::Greeting, SocksAction::Send(bytes, 2))
}

/// Goes on with a handshake after the bytes that it asked for were read.
pub fn socks5_step(state: SocksState, bytes: &[u8], host: &str, port: u16) -> (r: Result<
    (SocksState, SocksAction),
    SocksError,
>)
    requires
        fits_state(state, bytes@),
    ensures
        (match r {
            Ok(n) => handshake(state, bytes@, host@, port) == Ok::<_, SocksError>((n.0, n.1@)),
            Err(e) => handshake(state, bytes@, host@, port) == Err::<
                (SocksState, SocksAction<Seq<u8>>),
                _,
            >(e),
        }),
{
    match state {
        SocksState::Greeting => {
            if bytes[0] == 5 && bytes[1] == 0 {
                Ok((SocksState::Reply, SocksAction::Send(connect_request(host, port), 4)))
            } else {
                Err(SocksError::GreetingRejected(bytes[0], bytes[1]))
            }
        },
        SocksState::Reply => {
            if bytes[1] != 0 {
                Err(SocksError::ConnectFailed(bytes[1]))
            } else if bytes[3] == 1 {
                Ok((SocksState::Address, SocksAction::Receive(4)))
            } else if bytes[3] == 4 {
                Ok((SocksState::Address, SocksAction::Receive(16)))
            } else if bytes[3] == 3 {
                Ok((SocksState::NameLength, SocksAction::Receive(1)))
            } else {
                Err(SocksError::UnknownAddressType(bytes[3]))
            }
        },
        SocksState::NameLength => Ok(
            (SocksState::Address, SocksAction::Receive(bytes[0] as usize)),
        ),
        SocksState::Address => Ok((SocksState::Port, SocksAction::Receive(2))),
        SocksState::Port => Ok((SocksState::Port, SocksAction::Connected)),
    }
}

} // verus!
