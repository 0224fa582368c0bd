//! Addresses, URLs and identifiers, as the crates that read them write them.
use vstd::prelude::*;
use vstd::string::*;
use crate::text::{cat, decimal_text, opt_text};

verus! {

/// The normal form of the IPv4 address with prefix length that a text stands
/// for; none where it stands for no such address.
pub uninterp spec fn ipv4_inet_form(text: Seq<char>) -> Option<Seq<char>>;

/// The normal form of the IPv6 address with prefix length that a text stands
/// for; none where it stands for no such address.
pub uninterp spec fn ipv6_inet_form(text: Seq<char>) -> Option<Seq<char>>;

/// The normal form of the IPv4 network that a text stands for; none where it
/// stands for no network.
pub uninterp spec fn ipv4_cidr_form(text: Seq<char>) -> Option<Seq<char>>;

/// The serialization of the absolute URL that a text stands for; none where it
/// stands for no such URL.
pub uninterp spec fn url_form(text: Seq<char>) -> Option<Seq<char>>;

/// `<cidr::Ipv4Inet as FromStr>::from_str`: reads the text and hands the
/// address out as the text that its `Display` gives. Which texts are accepted
/// and what they give is named and not spelled out.
#[verifier::external_body]
pub(crate) fn parse_ipv4_inet(text: &str) -> (r: Option<String>)
    ensures
        opt_text(r) == ipv4_inet_form(text@),
{
    match text.parse::<cidr::Ipv4Inet>() {
        Ok(v) => Some(v.to_string()),
        Err(_) => None,
    }
}

/// `<cidr::Ipv6Inet as FromStr>::from_str`: reads the text and hands the
/// address out as the text that its `Display` gives. Which texts are accepted
/// and what they give is named and not spelled out.
#[verifier::external_body]
pub(crate) fn parse_ipv6_inet(text: &str) -> (r: Option<String>)
    ensures
        opt_text(r) == ipv6_inet_form(text@),
{
    match text.parse::<cidr::Ipv6Inet>() {
        Ok(v) => Some(v.to_string()),
        Err(_) => None,
    }
}

/// `<cidr::Ipv4Cidr as FromStr>::from_str`: reads the text and hands the
/// network out as the text that its `Display` gives. Which texts are accepted
/// and what they give is named and not spelled out.
#[verifier::external_body]
pub(crate) fn parse_ipv4_cidr(text: &str) -> (r: Option<String>)
    ensures
        opt_text(r) == ipv4_cidr_form(text@),
{
    match text.parse::<cidr::Ipv4Cidr>() {
        Ok(v) => Some(v.to_string()),
        Err(_) => None,
    }
}

/// The address of a port of the loopback interface.
pub open spec fn loopback_form(port: u16) -> Seq<char> {
    "127.0.0.1:"@ + crate::text::decimal(port as nat)
}

/// The URL of a TCP port of the loopback interface.
pub open spec fn loopback_url(port: u16) -> Seq<char> {
    "tcp://"@ + loopback_form(port)
}

/// `url::Url::parse`: reads the text and hands the URL out as its
/// serialization, by which `Url` compares and displays itself. The URL of a
/// loopback TCP port is its own serialization. What other texts give is named
/// and not spelled out.
#[verifier::external_body]
pub(crate) fn parse_url(text: &str) -> (r: Option<String>)
    ensures
        opt_text(r) == url_form(text@),
        forall|port: u16| text@ == #[trigger] loopback_url(port) ==> opt_text(r) == Some(text@),
{
    match url::Url::parse(text) {
        Ok(u) => Some(u.to_string()),
        Err(_) => None,
    }
}

/// The lower-case hexadecimal digit of a value below sixteen.
pub open spec fn hex_digit(d: nat) -> char {
    if d < 10 {
        (48 + d) as char
    } else {
        (87 + d) as char
    }
}

/// The `k`-th of the thirty-two hexadecimal digits of `v`, from the left.
pub open spec fn hex_digit_of(v: u128, k: int) -> char {
    hex_digit(((v as int / vstd::arithmetic::power::pow(16, (31 - k) as nat)) % 16) as nat)
}

/// The hyphenated form of an identifier: digits in groups of 8, 4, 4, 4 and 12.
pub open spec fn uuid_form(v: u128) -> Seq<char> {
    Seq::new(
        36,
        |i: int|
            if i < 8 {
                hex_digit_of(v, i)
            } else if i == 8 || i == 13 || i == 18 || i == 23 {
                '-'
            } else if i < 13 {
                hex_digit_of(v, i - 1)
            } else if i < 18 {
                hex_digit_of(v, i - 2)
            } else if i < 23 {
                hex_digit_of(v, i - 3)
            } else {
                hex_digit_of(v, i - 4)
            },
    )
}

/// `<uuid::Uuid as Display>::fmt` on the identifier with the given value:
/// thirty-two lower-case hexadecimal digits, most significant first, with
/// hyphens after the 8th, 12th, 16th and 20th.
#[verifier::external_body]
pub(crate) fn uuid_text(v: u128) -> (r: String)
    ensures
        r@ == uuid_form(v),
{
    uuid::Uuid::from_u128(v).to_string()
}

/// The address of a service on the loopback interface.
#[derive(Clone, Copy, PartialEq, Eq, Structural)]
pub struct RpcAddr {
    pub port: u16,
}

impl RpcAddr {
    /// The address as text.
    pub fn text(&self) -> (r: String)
        ensures
            r@ == loopback_form(self.port),
    {
        let digits = decimal_text(self.port as u64);
        cat("127.0.0.1:", digits.as_str())
    }

    /// The URL of the service.
    pub fn url(&self) -> (r: String)
        ensures
            r@ == loopback_url(self.port),
    {
        let addr = self.text();
        let text = cat("tcp://", addr.as_str());
        assert(text@ == loopback_url(self.port));
        parse_url(text.as_str()).unwrap()
    }
}

} // verus!
