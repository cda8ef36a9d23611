//! What can go wrong in a session.
use vstd::prelude::*;
use vstd::utf8::{decode_utf8, valid_utf8};

verus! {

/// The reasons for which a session is given up.
#[derive(Clone, Copy, Debug, PartialEq, Eq, Structural)]
pub enum Error {
    /// A packet that does not fit the state of the session.
    Inconsistent,
    /// A packet other than the expected one during a key exchange.
    Kex,
    /// The server allows no further authentication method.
    NoAuthMethod,
    /// The receiving half of a queue is gone.
    SendError,
    /// A packet for a channel that does not exist.
    WrongChannel,
    /// A packet that ends too early.
    IndexOutOfBounds,
    /// A text that is not UTF-8.
    Utf8,
}

#[verifier::external_type_specification]
#[verifier::external_body]
pub struct ExUtf8Error(core::str::Utf8Error);

/// `core::str::from_utf8`: the text that the bytes encode, if they are valid UTF-8.
pub assume_specification[ core::str::from_utf8 ](v: &[u8]) -> (r: Result<
    &str,
    core::str::Utf8Error,
>)
    ensures
        r is Ok == valid_utf8(v@),
        r is Ok ==> r->Ok_0@ == decode_utf8(v@),
;

/// The text that a string of bytes encodes.
pub open spec fn text_of(v: Seq<u8>) -> Result<Seq<char>, Error> {
    if valid_utf8(v) {
        Ok(decode_utf8(v))
    } else {
        Err(Error::Utf8)
    }
}

/// The text that a string of bytes encodes.
pub fn text<'a>(v: &'a [u8]) -> (r: Result<&'a str, Error>)
    ensures
        match r {
            Ok(s) => text_of(v@) == Ok::<Seq<char>, Error>(s@),
            Err(e) => text_of(v@) == Err::<Seq<char>, Error>(e),
        },
{
    match core::str::from_utf8(v) {
        Ok(s) => Ok(s),
        Err(_) => Err(Error::Utf8),
    }
}

/// A string of bytes is a text exactly if it is UTF-8, and the text is what it encodes.
pub proof fn law_text_is_utf8(v: Seq<u8>)
    ensures
        valid_utf8(v) ==> text_of(v) == Ok::<Seq<char>, Error>(decode_utf8(v)),
        !valid_utf8(v) ==> text_of(v) == Err::<Seq<char>, Error>(Error::Utf8),
{
}

} // verus!
