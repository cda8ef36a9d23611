//! Internet addresses as packets write them.
use crate::session::IpAddr;
use vstd::prelude::*;
use vstd::utf8::{decode_utf8, valid_utf8};

verus! {

/// The text of a string of bytes, with the replacement character for what is not UTF-8.
pub uninterp spec fn lossy(v: Seq<u8>) -> Seq<char>;

/// `String::from_utf8_lossy`: the text of a string of bytes. Of bytes that are UTF-8 it is the
/// text that they encode; how many replacement characters stand for others is not said.
#[verifier::external_body]
fn lossy_text(v: &[u8]) -> (r: String)
    ensures
        r@ == lossy(v@),
        valid_utf8(v@) ==> r@ == decode_utf8(v@),
{
    String::from_utf8_lossy(v).into_owned()
}

/// The Internet address that a text names, if it is one.
pub uninterp spec fn ip_named(text: Seq<char>) -> Option<IpAddr>;

/// `str::parse` for `core::net::IpAddr`: the Internet address that a text names, as a number, if
/// it is one. The outcome depends on the text alone; which texts are addresses is not said.
#[verifier::external_body]
fn parse_ip(text: &str) -> (r: Option<IpAddr>)
    ensures
        r == ip_named(text@),
{
    match text.parse::<core::net::IpAddr>() {
        Ok(core::net::IpAddr::V4(a)) => Some(IpAddr::V4(u32::from(a))),
        Ok(core::net::IpAddr::V6(a)) => Some(IpAddr::V6(u128::from(a))),
        Err(_) => None,
    }
}

/// The Internet address that a string of a packet names, if it is one.
pub open spec fn ip_in(address: Seq<u8>) -> Option<IpAddr> {
    ip_named(lossy(address))
}

/// The Internet address that a string of a packet names, if it is one.
pub fn read_ip(address: &[u8]) -> (r: Option<IpAddr>)
    ensures
        r == ip_in(address@),
{
    let text = lossy_text(address);
    parse_ip(text.as_str())
}

/// The address in a string is the one that its text names.
pub proof fn law_address_named(address: Seq<u8>)
    ensures
        ip_in(address) == ip_named(lossy(address)),
{
}

} // verus!
