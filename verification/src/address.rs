//! Socket addresses and backends as plain values.

use vstd::prelude::*;
use vstd::string::StringExecFns;

verus! {

/// What parsing an address text gave, told apart by kind of address.
#[derive(Clone, Copy, Debug, PartialEq, Eq)]
pub enum ParsedAddr {
    /// An IPv4 socket address; `ip` holds the four octets, the first one highest.
    V4 { ip: u32, port: u16 },
    /// An IPv6 socket address; `ip` holds the sixteen octets, the first one highest.
    V6 { ip: u128, port: u16, flowinfo: u32, scope_id: u32 },
    /// The text was taken for the path of a Unix domain socket.
    Unix,
    /// The text is no address at all.
    Invalid,
}

/// A backend as an item of an ordered set: address family (4 or 6), IP, port,
/// flow information, scope and weight. Tuples order field by field, so a set
/// of keys iterates in ascending address order, IPv4 before IPv6.
pub type BackendKey = (u8, u128, u16, u32, u32, usize);

/// The weight that discovery gives to every backend.
pub const DEFAULT_WEIGHT: usize = 1;

/// An upstream endpoint: an internet socket address and a weight.
#[derive(Clone, Copy, Debug, PartialEq, Eq)]
pub struct Backend {
    pub family: u8,
    pub ip: u128,
    pub port: u16,
    pub flowinfo: u32,
    pub scope_id: u32,
    pub weight: usize,
}

/// The address part of a key: everything but the weight.
pub open spec fn key_addr(k: BackendKey) -> (u8, u128, u16, u32, u32) {
    (k.0, k.1, k.2, k.3, k.4)
}

/// The key of the backend of weight 1 at a parsed address. Only internet
/// addresses name a backend: a Unix socket path and an invalid text give none.
pub open spec fn key_of(parsed: ParsedAddr) -> Option<BackendKey> {
    match parsed {
        ParsedAddr::V4 { ip, port } => Some((4u8, ip as u128, port, 0u32, 0u32, 1usize)),
        ParsedAddr::V6 { ip, port, flowinfo, scope_id } => Some(
            (6u8, ip, port, flowinfo, scope_id, 1usize),
        ),
        ParsedAddr::Unix => None,
        ParsedAddr::Invalid => None,
    }
}

/// The character of one decimal digit.
pub open spec fn digit_char(d: nat) -> char {
    if d == 0 {
        '0'
    } else if d == 1 {
        '1'
    } else if d == 2 {
        '2'
    } else if d == 3 {
        '3'
    } else if d == 4 {
        '4'
    } else if d == 5 {
        '5'
    } else if d == 6 {
        '6'
    } else if d == 7 {
        '7'
    } else if d == 8 {
        '8'
    } else {
        '9'
    }
}

/// A number in decimal, without sign or leading zeros.
pub open spec fn decimal(n: nat) -> Seq<char>
    decreases n,
{
    if n < 10 {
        seq![digit_char(n)]
    } else {
        decimal(n / 10).push(digit_char(n % 10))
    }
}

/// The text of an address: the host, a colon, the port in decimal.
pub open spec fn addr_text(host: Seq<char>, port: u16) -> Seq<char> {
    host + seq![':'] + decimal(port as nat)
}

impl Backend {
    /// This backend as an item of an ordered set.
    pub open spec fn spec_key(self) -> BackendKey {
        (self.family, self.ip, self.port, self.flowinfo, self.scope_id, self.weight)
    }

    /// This backend as an item of an ordered set.
    pub fn key(&self) -> (k: BackendKey)
        ensures
            k == self.spec_key(),
    {
        (self.family, self.ip, self.port, self.flowinfo, self.scope_id, self.weight)
    }

    /// The backend that a key stands for.
    pub fn from_key(k: BackendKey) -> (b: Backend)
        ensures
            b.spec_key() == k,
    {
        Backend { family: k.0, ip: k.1, port: k.2, flowinfo: k.3, scope_id: k.4, weight: k.5 }
    }

    /// The backend of weight 1 at a parsed address, if it is an internet address.
    pub fn from_parsed(parsed: ParsedAddr) -> (r: Option<Backend>)
        ensures
            match key_of(parsed) {
                Some(k) => r is Some && r.unwrap().spec_key() == k,
                None => r is None,
            },
    {
        match parsed {
            ParsedAddr::V4 { ip, port } => Some(
                Backend {
                    family: 4,
                    ip: ip as u128,
                    port,
                    flowinfo: 0,
                    scope_id: 0,
                    weight: DEFAULT_WEIGHT,
                },
            ),
            ParsedAddr::V6 { ip, port, flowinfo, scope_id } => Some(
                Backend { family: 6, ip, port, flowinfo, scope_id, weight: DEFAULT_WEIGHT },
            ),
            ParsedAddr::Unix => None,
            ParsedAddr::Invalid => None,
        }
    }
}

/// The text of one decimal digit.
fn digit_text(d: u16) -> (r: &'static str)
    requires
        d < 10,
    ensures
        r@ == seq![digit_char(d as nat)],
{
    proof {
        reveal_strlit("0");
        reveal_strlit("1");
        reveal_strlit("2");
        reveal_strlit("3");
        reveal_strlit("4");
        reveal_strlit("5");
        reveal_strlit("6");
        reveal_strlit("7");
        reveal_strlit("8");
        reveal_strlit("9");
    }
    let r = if d == 0 {
        "0"
    } else if d == 1 {
        "1"
    } else if d == 2 {
        "2"
    } else if d == 3 {
        "3"
    } else if d == 4 {
        "4"
    } else if d == 5 {
        "5"
    } else if d == 6 {
        "6"
    } else if d == 7 {
        "7"
    } else if d == 8 {
        "8"
    } else {
        "9"
    };
    assert(r@ =~= seq![digit_char(d as nat)]);
    r
}

/// A port in decimal.
pub fn port_text(port: u16) -> (r: String)
    ensures
        r@ == decimal(port as nat),
    decreases port,
{
    if port < 10 {
        String::from_str(digit_text(port))
    } else {
        let low = digit_text(port % 10);
        let r = port_text(port / 10).concat(low);
        assert(r@ =~= decimal((port / 10) as nat).push(digit_char((port % 10) as nat)));
        r
    }
}

/// The text of the address of a host and a port.
pub fn format_addr(host: &str, port: u16) -> (r: String)
    ensures
        r@ == addr_text(host@, port),
{
    proof {
        reveal_strlit(":");
    }
    let digits = port_text(port);
    let r = String::from_str(host).concat(":").concat(digits.as_str());
    assert(":"@ =~= seq![':']);
    r
}

} // verus!
