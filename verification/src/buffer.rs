//! The byte buffers of a session: `CryptoVec`, a vector of bytes that wipes its memory.
//!
//! The type comes from the `cryptovec` crate. What it holds is `contents`, and the
//! operations below are stated over that sequence.
use cryptovec::CryptoVec;
use vstd::prelude::*;

verus! {

#[verifier::external_type_specification]
#[verifier::external_body]
pub struct ExCryptoVec(CryptoVec);

/// The bytes that a buffer holds, first to last.
pub uninterp spec fn contents(v: CryptoVec) -> Seq<u8>;

/// The longest buffer that can be allocated: a buffer reserves the next power of two of its
/// length, and no allocation may exceed `isize::MAX` bytes.
pub open spec fn buffer_max() -> int {
    isize::MAX as int / 2 + 1
}

/// `CryptoVec::new`: an empty buffer.
pub assume_specification[ CryptoVec::new ]() -> (v: CryptoVec)
    ensures
        contents(v) == Seq::<u8>::empty(),
;

/// `CryptoVec::len`: the number of bytes held.
pub assume_specification[ CryptoVec::len ](v: &CryptoVec) -> (n: usize)
    ensures
        n == contents(*v).len(),
;

/// `CryptoVec::clear`: drops every byte.
pub assume_specification[ CryptoVec::clear ](v: &mut CryptoVec)
    ensures
        contents(*final(v)) == Seq::<u8>::empty(),
;

/// `CryptoVec::push`: appends one byte.
pub assume_specification[ CryptoVec::push ](v: &mut CryptoVec, s: u8)
    requires
        contents(*old(v)).len() + 1 <= buffer_max(),
    ensures
        contents(*final(v)) == contents(*old(v)).push(s),
;

/// `CryptoVec::push_u32_be`: appends the four bytes of an integer, most significant first.
pub assume_specification[ CryptoVec::push_u32_be ](v: &mut CryptoVec, s: u32)
    requires
        contents(*old(v)).len() + 4 <= buffer_max(),
    ensures
        contents(*final(v)) == contents(*old(v)) + be32(s),
;

/// `CryptoVec::extend`: appends a slice.
pub assume_specification[ CryptoVec::extend ](v: &mut CryptoVec, s: &[u8])
    requires
        contents(*old(v)).len() + s@.len() <= buffer_max(),
    ensures
        contents(*final(v)) == contents(*old(v)) + s@,
;

/// `CryptoVec`'s `AsRef<[u8]>`: the bytes held, as a slice.
#[verifier::external_body]
pub(crate) fn as_slice(v: &CryptoVec) -> (s: &[u8])
    ensures
        s@ == contents(*v),
{
    v.as_ref()
}

/// The byte of an integer at position `i` of its four, counted from the most significant one.
pub open spec fn byte_of(n: u32, i: int) -> u8 {
    if i == 0 {
        (n / 0x100_0000) as u8
    } else if i == 1 {
        (n / 0x1_0000 % 0x100) as u8
    } else if i == 2 {
        (n / 0x100 % 0x100) as u8
    } else {
        (n % 0x100) as u8
    }
}

/// The four bytes of an integer, most significant first.
pub open spec fn be32(n: u32) -> Seq<u8> {
    Seq::new(4, |i: int| byte_of(n, i))
}

/// `buffer_max` as a number.
pub fn longest() -> (n: usize)
    ensures
        n == buffer_max(),
{
    isize::MAX as usize / 2 + 1
}

/// A buffer that holds the bytes of a slice.
pub fn buffer_of(s: &[u8]) -> (v: CryptoVec)
    requires
        s@.len() <= buffer_max(),
    ensures
        contents(v) == s@,
{
    let mut v = CryptoVec::new();
    v.extend(s);
    assert(contents(v) =~= s@);
    v
}

} // verus!
