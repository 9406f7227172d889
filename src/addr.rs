use vstd::prelude::*;
use core::str::FromStr;

verus! {

/// An IP address: four octets, or the 128 bits of an IPv6 address.
#[derive(Clone, Copy, PartialEq, Eq, Structural, Debug)]
pub enum IpAddress {
    V4(u8, u8, u8, u8),
    V6(u128),
}

/// The decimal digit for `d < 10`.
pub open spec fn digit_char(d: nat) -> char {
    (('0' as u8) + (d % 10) as u8) as char
}

/// The decimal digits of `n`, without leading zeros.
pub open spec fn dec_text(n: nat) -> Seq<char>
    decreases n,
{
    if n < 10 {
        seq![digit_char(n)]
    } else {
        dec_text(n / 10).push(digit_char(n % 10))
    }
}

/// The decimal text of an integer, with a minus sign when negative.
pub open spec fn int_text(n: int) -> Seq<char> {
    if n < 0 {
        seq!['-'] + dec_text((-n) as nat)
    } else {
        dec_text(n as nat)
    }
}

/// Relies on the `Display` of `i128`: decimal digits, with a minus sign when
/// negative.
#[verifier::external_body]
pub(crate) fn decimal(n: i128) -> (r: String)
    ensures
        r@ == int_text(n as int),
{
    n.to_string()
}

/// Dot-decimal notation of four octets.
pub open spec fn v4_text(a: u8, b: u8, c: u8, d: u8) -> Seq<char> {
    dec_text(a as nat) + seq!['.'] + dec_text(b as nat) + seq!['.'] + dec_text(c as nat) + seq![
        '.',
    ] + dec_text(d as nat)
}

/// Whether `s` is the dot-decimal text of some four octets.
pub open spec fn is_v4_text(s: Seq<char>) -> bool {
    exists|o: (u8, u8, u8, u8)| s == v4_text(o.0, o.1, o.2, o.3)
}

/// The IPv6 address (as 128 bits) that a text denotes, if it denotes one.
pub uninterp spec fn v6_of_text(s: Seq<char>) -> Option<u128>;

/// The textual form of an IPv6 address.
pub uninterp spec fn v6_text(x: u128) -> Seq<char>;

/// The address a text denotes: four octets in dot-decimal notation, or an
/// IPv6 address.
pub open spec fn address_of_text(s: Seq<char>) -> Option<IpAddress> {
    if is_v4_text(s) {
        let o = choose|o: (u8, u8, u8, u8)| s == v4_text(o.0, o.1, o.2, o.3);
        Some(IpAddress::V4(o.0, o.1, o.2, o.3))
    } else {
        match v6_of_text(s) {
            Some(x) => Some(IpAddress::V6(x)),
            None => None,
        }
    }
}

/// The textual form of an address.
pub open spec fn address_text(a: IpAddress) -> Seq<char> {
    match a {
        IpAddress::V4(p, q, r, t) => v4_text(p, q, r, t),
        IpAddress::V6(x) => v6_text(x),
    }
}

/// Relies on `core::net::IpAddr::from_str`: dot-decimal text of four octets
/// (no leading zeros) gives an IPv4 address and no other text does; other
/// texts give an IPv6 address or fail, by the text alone.
#[verifier::external_body]
fn parse_address(s: &str) -> (r: Option<IpAddress>)
    ensures
        r == address_of_text(s@),
        !is_v4_text(s@) ==> r == match v6_of_text(s@) {
            Some(x) => Some(IpAddress::V6(x)),
            None => None,
        },
{
    match core::net::IpAddr::from_str(s) {
        Ok(core::net::IpAddr::V4(a)) => {
            let [p, q, r, t] = a.octets();
            Some(IpAddress::V4(p, q, r, t))
        },
        Ok(core::net::IpAddr::V6(a)) => Some(IpAddress::V6(a.to_bits())),
        Err(_) => None,
    }
}

/// Relies on the `Display` of `core::net::IpAddr`: dot-decimal notation for
/// IPv4, and a text that depends on the address alone for IPv6.
#[verifier::external_body]
fn render_address(a: &IpAddress) -> (r: String)
    ensures
        r@ == address_text(*a),
        forall|x: u128| *a == IpAddress::V6(x) ==> r@ == v6_text(x),
{
    match *a {
        IpAddress::V4(p, q, r, t) => core::net::IpAddr::from([p, q, r, t]).to_string(),
        IpAddress::V6(x) => core::net::IpAddr::from(core::net::Ipv6Addr::from_bits(x)).to_string(),
    }
}

impl IpAddress {
    /// Parses the textual form of an IPv4 or IPv6 address.
    pub fn parse(s: &str) -> (r: Option<IpAddress>)
        ensures
            r == address_of_text(s@),
    {
        parse_address(s)
    }

    /// The textual form of the address.
    pub fn to_string(&self) -> (r: String)
        ensures
            r@ == address_text(*self),
    {
        render_address(self)
    }

    /// Whether the address is an IPv4 address.
    pub fn is_ipv4(&self) -> (r: bool)
        ensures
            r == (*self is V4),
    {
        match self {
            IpAddress::V4(..) => true,
            IpAddress::V6(_) => false,
        }
    }

    /// The address of all zeros in IPv4.
    pub fn unspecified() -> (r: IpAddress)
        ensures
            r == IpAddress::V4(0, 0, 0, 0),
    {
        IpAddress::V4(0, 0, 0, 0)
    }
}

} // verus!
