//! The commands clients send, and their decoding into requests at the
//! boundary: a subscription or a keep-alive, keyed by one canonical address.
use vstd::prelude::*;

use crate::net::{canonical_addr, PeerAddr};
use crate::ticker::Ticker;

verus! {

/// Header of a subscription command.
pub const HEADER: &'static str = "J_QUOTE";

/// Header of a keep-alive command, and the marker that opens a keep-alive
/// datagram.
pub const PING: &'static str = "PING";

/// Transport named in every command.
pub const CONNECTION: &'static str = "udp";

/// A command as it travels between client and server.
#[derive(Clone, Debug)]
pub struct Command {
    /// `J_QUOTE` for a subscription, `PING` for a keep-alive.
    pub header: String,
    /// Transport protocol name.
    pub connection: String,
    /// The client's IP address, as text.
    pub address: String,
    /// The client's data port, as text.
    pub port: String,
    /// The tickers subscribed to (none for a keep-alive).
    pub tickers: Vec<Ticker>,
}

impl Command {
    /// A subscription command for the data address `address:port`.
    pub fn new(address: &str, port: &str, tickers: Vec<Ticker>) -> (c: Command)
        ensures
            c.header@ == HEADER@,
            c.connection@ == CONNECTION@,
            c.address@ == address@,
            c.port@ == port@,
            c.tickers@ == tickers@,
    {
        Command {
            header: String::from_str(HEADER),
            connection: String::from_str(CONNECTION),
            address: String::from_str(address),
            port: String::from_str(port),
            tickers,
        }
    }

    /// A keep-alive command from `address:port`.
    pub fn new_ping(address: &str, port: &str) -> (c: Command)
        ensures
            c.header@ == PING@,
            c.connection@ == CONNECTION@,
            c.address@ == address@,
            c.port@ == port@,
            c.tickers@.len() == 0,
    {
        Command {
            header: String::from_str(PING),
            connection: String::from_str(CONNECTION),
            address: String::from_str(address),
            port: String::from_str(port),
            tickers: Vec::new(),
        }
    }
}

/// Why an inbound command was refused. The refusal concerns that one command
/// only.
#[derive(Clone, Debug, PartialEq, Eq)]
pub enum ParserError {
    /// The header names no known command; it holds the header.
    UnknownHeader(String),
    /// The port is not a decimal number in `0..=65535`; it holds the port text.
    InvalidPort(String),
}

/// A decoded request, keyed by the canonical address of the subscriber.
#[derive(Clone, Debug)]
pub enum Request {
    /// Start a stream of the listed tickers to `address`.
    Subscribe { address: PeerAddr, tickers: Vec<Ticker> },
    /// `address` is alive.
    KeepAlive { address: PeerAddr },
}

/// Whether `c` is a decimal digit.
pub open spec fn is_digit(c: char) -> bool {
    '0' <= c <= '9'
}

/// The value of a string of decimal digits, most significant first.
pub open spec fn digits_value(s: Seq<char>) -> nat
    decreases s.len(),
{
    if s.len() == 0 {
        0
    } else {
        digits_value(s.drop_last()) * 10 + (s.last() as nat - '0' as nat) as nat
    }
}

/// The digits of a port text: all of it, or all but a leading `+`.
pub open spec fn port_digits(s: Seq<char>) -> Seq<char> {
    if s.len() > 0 && s[0] == '+' {
        s.skip(1)
    } else {
        s
    }
}

/// The port a text names, read as an unsigned 16-bit decimal number: an
/// optional `+`, then at least one digit, and a value of at most 65535.
pub open spec fn port_of(s: Seq<char>) -> Option<u16> {
    let d = port_digits(s);
    if d.len() > 0 && (forall|i: int| 0 <= i < d.len() ==> is_digit(#[trigger] d[i]))
        && digits_value(d) <= u16::MAX {
        Some(digits_value(d) as u16)
    } else {
        None
    }
}

/// Reads a port number from its text.
pub fn parse_port(text: &String) -> (r: Option<u16>)
    ensures
        r == port_of(text@),
{
    let s = text.as_str();
    let n = s.unicode_len();
    let mut start: usize = 0;
    if n > 0 && s.get_char(0) == '+' {
        start = 1;
    }
    let ghost d = port_digits(text@);
    assert(d =~= text@.skip(start as int));
    if start >= n {
        return None;
    }
    let mut acc: u32 = 0;
    let mut i: usize = start;
    while i < n
        invariant
            start <= i <= n,
            n == text@.len(),
            s@ == text@,
            d == text@.skip(start as int),
            d == port_digits(text@),
            forall|k: int| 0 <= k < i - start ==> is_digit(#[trigger] d[k]),
            acc as int == if digits_value(d.take(i - start)) > 65536 {
                65536
            } else {
                digits_value(d.take(i - start))
            },
        decreases n - i,
    {
        let c = s.get_char(i);
        if !('0' <= c && c <= '9') {
            assert(d[i - start] == text@[i as int]);
            assert(!is_digit(d[i - start]));
            return None;
        }
        let digit = (c as u32) - ('0' as u32);
        assert(d.take(i - start + 1).drop_last() =~= d.take(i - start));
        acc = if acc * 10 + digit > 65536 {
            65536
        } else {
            acc * 10 + digit
        };
        i = i + 1;
    }
    assert(d.take(d.len() as int) =~= d);
    if acc > 65535 {
        None
    } else {
        Some(acc as u16)
    }
}

/// The key of a subscriber whose command came from `peer`'s host and named
/// the data port `port`: the peer's IP with that port, in canonical form.
pub open spec fn subscriber_key(peer: PeerAddr, port: u16) -> PeerAddr {
    canonical_addr(PeerAddr { ip: peer.ip, port })
}

/// Decodes a command received over a connection from `peer` (only its IP is
/// used). A subscription or keep-alive is keyed by the peer's IP and the data
/// port that the command names, in canonical form. A command with any other
/// header, or with a port that is not a number in `0..=65535`, is refused
/// with an error that concerns this command only.
pub fn decode_request(cmd: Command, peer: PeerAddr) -> (r: Result<Request, ParserError>)
    ensures
        cmd.header@ != HEADER@ && cmd.header@ != PING@ ==> r == Err::<Request, ParserError>(
            ParserError::UnknownHeader(cmd.header),
        ),
        (cmd.header@ == HEADER@ || cmd.header@ == PING@) && port_of(cmd.port@) is None ==> r
            == Err::<Request, ParserError>(ParserError::InvalidPort(cmd.port)),
        cmd.header@ == HEADER@ && port_of(cmd.port@) is Some ==> (r matches Ok(
            Request::Subscribe { address, tickers },
        ) && address == subscriber_key(peer, port_of(cmd.port@)->0) && tickers@
            == cmd.tickers@),
        cmd.header@ == PING@ && port_of(cmd.port@) is Some ==> (r matches Ok(
            Request::KeepAlive { address },
        ) && address == subscriber_key(peer, port_of(cmd.port@)->0)),
{
    proof {
        reveal_strlit("J_QUOTE");
        reveal_strlit("PING");
        assert(HEADER@.len() != PING@.len());
    }
    let subscribe = String::from_str(HEADER);
    let ping = String::from_str(PING);
    let is_subscribe = cmd.header == subscribe;
    let is_ping = cmd.header == ping;
    if !is_subscribe && !is_ping {
        return Err(ParserError::UnknownHeader(cmd.header));
    }
    match parse_port(&cmd.port) {
        None => Err(ParserError::InvalidPort(cmd.port)),
        Some(port) => {
            let address = PeerAddr { ip: peer.ip, port }.canonical();
            if is_subscribe {
                Ok(Request::Subscribe { address, tickers: cmd.tickers })
            } else {
                Ok(Request::KeepAlive { address })
            }
        },
    }
}

/// A datagram is a keep-alive when it opens with the four bytes `PING`.
pub open spec fn is_keep_alive_datagram(data: Seq<u8>) -> bool {
    data.len() >= 4 && data.take(4) == seq![0x50u8, 0x49u8, 0x4eu8, 0x47u8]
}

/// Whether a datagram is a keep-alive.
pub fn is_keep_alive(data: &[u8]) -> (r: bool)
    ensures
        r == is_keep_alive_datagram(data@),
{
    if data.len() < 4 {
        return false;
    }
    let r = data[0] == 0x50u8 && data[1] == 0x49u8 && data[2] == 0x4eu8 && data[3] == 0x47u8;
    assert(r ==> data@.take(4) =~= seq![0x50u8, 0x49u8, 0x4eu8, 0x47u8]);
    assert(data@.take(4) == seq![0x50u8, 0x49u8, 0x4eu8, 0x47u8] ==> data@.take(4)[0] == 0x50u8
        && data@.take(4)[1] == 0x49u8 && data@.take(4)[2] == 0x4eu8 && data@.take(4)[3]
        == 0x47u8);
    r
}

} // verus!
