//! What the crate takes on trust of `String`.

use vstd::prelude::*;
use crate::net::IpAddr;

verus! {

/// `String::push_str` appends the given text to the string.
pub assume_specification[ String::push_str ](text: &mut String, tail: &str)
    ensures
        final(text)@ == old(text)@ + tail@,
;

/// The text of the IPv4 address `bits`, as the standard library writes it:
/// four decimal numbers with dots between them.
pub uninterp spec fn ipv4_text_of(bits: u32) -> Seq<char>;

/// The text of the IPv6 address `bits`, as the standard library writes it:
/// groups of hexadecimal digits with colons between them, the longest run of
/// zero groups left out.
pub uninterp spec fn ipv6_text_of(bits: u128) -> Seq<char>;

/// The text of `ip`.
pub open spec fn ip_text_of(ip: IpAddr) -> Seq<char> {
    match ip {
        IpAddr::V4(bits) => ipv4_text_of(bits),
        IpAddr::V6(bits) => ipv6_text_of(bits),
    }
}

/// Calls `to_string` on the address as an `Ipv4Addr`.
#[verifier::external_body]
pub(crate) fn ipv4_text(bits: u32) -> (text: String)
    ensures
        text@ == ipv4_text_of(bits),
{
    core::net::Ipv4Addr::from_bits(bits).to_string()
}

/// Calls `to_string` on the address as an `Ipv6Addr`.
#[verifier::external_body]
pub(crate) fn ipv6_text(bits: u128) -> (text: String)
    ensures
        text@ == ipv6_text_of(bits),
{
    core::net::Ipv6Addr::from_bits(bits).to_string()
}

/// The text of `ip`.
pub fn ip_text(ip: IpAddr) -> (text: String)
    ensures
        text@ == ip_text_of(ip),
{
    match ip {
        IpAddr::V4(bits) => ipv4_text(bits),
        IpAddr::V6(bits) => ipv6_text(bits),
    }
}

} // verus!
