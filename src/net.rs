//! Network addresses of subscribers, the well-known ports, and the textual
//! `ip:port` form.
use vstd::prelude::*;

verus! {

/// Port of the command channel (client to server).
pub const COMMAND_PORT: u16 = 8080;

/// Port of the data and keep-alive channel.
pub const DATA_PORT: u16 = 8081;

/// An IP address as a number: 32 bits for IPv4, 128 bits for IPv6.
#[derive(Clone, Copy, Debug, PartialEq, Eq, Hash, Structural)]
pub enum IpAddress {
    V4(u32),
    V6(u128),
}

/// A subscriber's transport address.
#[derive(Clone, Copy, Debug, PartialEq, Eq, Hash, Structural)]
pub struct PeerAddr {
    pub ip: IpAddress,
    pub port: u16,
}

/// Two to the 32nd.
pub const V4_SPAN: u128 = 0x1_0000_0000;

/// The IPv6 prefix (above the low 32 bits) of an IPv4-mapped address.
pub const V4_MAPPED_PREFIX: u128 = 0xffff;

/// The one form an address is keyed by: an IPv4-mapped IPv6 address becomes
/// the IPv4 address it maps; any other address stays as it is.
pub open spec fn canonical_ip(ip: IpAddress) -> IpAddress {
    match ip {
        IpAddress::V6(x) => if x / V4_SPAN == V4_MAPPED_PREFIX {
            IpAddress::V4((x % V4_SPAN) as u32)
        } else {
            ip
        },
        IpAddress::V4(_) => ip,
    }
}

/// The canonical form of a transport address.
pub open spec fn canonical_addr(a: PeerAddr) -> PeerAddr {
    PeerAddr { ip: canonical_ip(a.ip), port: a.port }
}

impl PeerAddr {
    /// This address in canonical form, so that the address a keep-alive
    /// arrives from and the address a subscription names compare equal.
    pub fn canonical(&self) -> (r: PeerAddr)
        ensures
            r == canonical_addr(*self),
    {
        let ip = match self.ip {
            IpAddress::V6(x) => {
                if x / V4_SPAN == V4_MAPPED_PREFIX {
                    IpAddress::V4((x % V4_SPAN) as u32)
                } else {
                    IpAddress::V6(x)
                }
            },
            IpAddress::V4(x) => IpAddress::V4(x),
        };
        PeerAddr { ip, port: self.port }
    }
}

/// The character of a decimal digit.
pub open spec fn digit_char(d: nat) -> char {
    if d == 0 {
        '0'
    } else if d == 1 {
        '1'
    } else if d == 2 {
        '2'
    } else if d == 3 {
        '3'
    } else if d == 4 {
        '4'
    } else if d == 5 {
        '5'
    } else if d == 6 {
        '6'
    } else if d == 7 {
        '7'
    } else if d == 8 {
        '8'
    } else {
        '9'
    }
}

/// The decimal digits of `n`, most significant first, with no leading zero.
pub open spec fn decimal(n: nat) -> Seq<char>
    decreases n,
{
    if n < 10 {
        seq![digit_char(n)]
    } else {
        decimal(n / 10).push(digit_char(n % 10))
    }
}

/// The one-character text of a decimal digit.
fn digit_str(d: u16) -> (s: &'static str)
    requires
        d < 10,
    ensures
        s@ == seq![digit_char(d as nat)],
{
    proof {
        reveal_strlit("0");
        reveal_strlit("1");
        reveal_strlit("2");
        reveal_strlit("3");
        reveal_strlit("4");
        reveal_strlit("5");
        reveal_strlit("6");
        reveal_strlit("7");
        reveal_strlit("8");
        reveal_strlit("9");
    }
    match d {
        0 => "0",
        1 => "1",
        2 => "2",
        3 => "3",
        4 => "4",
        5 => "5",
        6 => "6",
        7 => "7",
        8 => "8",
        _ => "9",
    }
}

/// Appends the decimal digits of `n` to `s`.
fn append_decimal(s: &mut String, n: u16)
    ensures
        final(s)@ == old(s)@ + decimal(n as nat),
    decreases n,
{
    if n >= 10 {
        append_decimal(s, n / 10);
    }
    s.append(digit_str(n % 10));
    assert(n >= 10 ==> decimal(n as nat) == decimal((n / 10) as nat).push(digit_char((n % 10) as nat)));
}

/// The address `ip:port`, the port in decimal.
pub fn addr(ip: &str, port: u16) -> (r: String)
    ensures
        r@ == ip@ + seq![':'] + decimal(port as nat),
{
    let mut r = String::from_str(ip);
    proof {
        reveal_strlit(":");
    }
    r.append(":");
    append_decimal(&mut r, port);
    r
}

} // verus!
