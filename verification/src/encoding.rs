//! The wire encoding: big-endian integers, length-prefixed strings, framed packets.
use crate::buffer::{as_slice, be32, buffer_max, contents};
use crate::error::Error;
use cryptovec::CryptoVec;
use vstd::prelude::*;
use vstd::slice::slice_subrange;

verus! {

/// The integer whose four big-endian bytes start at position `i`, if `b` holds them all.
pub open spec fn u32_at(b: Seq<u8>, i: int) -> Option<u32> {
    if 0 <= i && i + 4 <= b.len() {
        Some((b[i] * 0x100_0000 + b[i + 1] * 0x1_0000 + b[i + 2] * 0x100 + b[i + 3]) as u32)
    } else {
        None
    }
}

/// The string at position `i`: a length on four bytes, then as many bytes, if `b` holds them all.
pub open spec fn string_at(b: Seq<u8>, i: int) -> Option<Seq<u8>> {
    match u32_at(b, i) {
        Some(n) => if i + 4 + n <= b.len() {
            Some(b.subrange(i + 4, i + 4 + n))
        } else {
            None
        },
        None => None,
    }
}

/// The byte at position `i`, if there is one.
pub open spec fn byte_at(b: Seq<u8>, i: int) -> Option<u8> {
    if 0 <= i < b.len() {
        Some(b[i])
    } else {
        None
    }
}

/// The encoding of a string: its length on four bytes, then its bytes.
pub open spec fn ssh_string(s: Seq<u8>) -> Seq<u8> {
    be32(s.len() as u32) + s
}

/// The framing of a packet: its length on four bytes, then its bytes.
pub open spec fn packet(body: Seq<u8>) -> Seq<u8> {
    be32(body.len() as u32) + body
}

/// A cursor over a packet.
pub struct Position<'a> {
    pub s: &'a [u8],
    pub position: usize,
}

impl<'a> Position<'a> {
    /// The cursor stands inside the packet or at its end.
    pub open spec fn inv(self) -> bool {
        self.position <= self.s@.len()
    }

    /// Reads four bytes as an integer.
    pub fn read_u32(&mut self) -> (r: Result<u32, Error>)
        requires
            old(self).inv(),
        ensures
            final(self).inv(),
            final(self).s == old(self).s,
            r == (match u32_at(old(self).s@, old(self).position as int) {
                Some(n) => Ok::<u32, Error>(n),
                None => Err::<u32, Error>(Error::IndexOutOfBounds),
            }),
            r is Ok ==> final(self).position == old(self).position + 4,
            r is Err ==> final(self).position == old(self).position,
    {
        if self.s.len() - self.position >= 4 {
            let i: usize = self.position;
            let n: u32 = self.s[i] as u32 * 0x100_0000 + self.s[i + 1] as u32 * 0x1_0000
                + self.s[i + 2] as u32 * 0x100 + self.s[i + 3] as u32;
            self.position = i + 4;
            Ok(n)
        } else {
            Err(Error::IndexOutOfBounds)
        }
    }

    /// Reads a string.
    pub fn read_string(&mut self) -> (r: Result<&'a [u8], Error>)
        requires
            old(self).inv(),
        ensures
            final(self).inv(),
            final(self).s == old(self).s,
            match string_at(old(self).s@, old(self).position as int) {
                Some(t) => r is Ok && r->Ok_0@ == t && final(self).position
                    == old(self).position + 4 + t.len(),
                None => r == Err::<&'a [u8], Error>(Error::IndexOutOfBounds) && final(self).position
                    == old(self).position + (if u32_at(
                    old(self).s@,
                    old(self).position as int,
                ) is Some {
                    4int
                } else {
                    0int
                }),
            },
    {
        let n: u32 = self.read_u32()?;
        if self.s.len() - self.position >= n as usize {
            let i: usize = self.position;
            self.position = i + n as usize;
            Ok(slice_subrange(self.s, i, i + n as usize))
        } else {
            Err(Error::IndexOutOfBounds)
        }
    }

    /// Reads one byte.
    pub fn read_byte(&mut self) -> (r: Result<u8, Error>)
        requires
            old(self).inv(),
        ensures
            final(self).inv(),
            final(self).s == old(self).s,
            r == (match byte_at(old(self).s@, old(self).position as int) {
                Some(n) => Ok::<u8, Error>(n),
                None => Err::<u8, Error>(Error::IndexOutOfBounds),
            }),
            r is Ok ==> final(self).position == old(self).position + 1,
            r is Err ==> final(self).position == old(self).position,
    {
        if self.position < self.s.len() {
            let n: u8 = self.s[self.position];
            self.position = self.position + 1;
            Ok(n)
        } else {
            Err(Error::IndexOutOfBounds)
        }
    }
}

/// A cursor at position `starting_at`.
pub fn reader<'a>(s: &'a [u8], starting_at: usize) -> (p: Position<'a>)
    requires
        starting_at <= s@.len(),
    ensures
        p.inv(),
        p.s == s,
        p.position == starting_at,
{
    Position { s, position: starting_at }
}

/// Appends the encoding of a string.
pub fn extend_ssh_string(buffer: &mut CryptoVec, s: &[u8])
    requires
        contents(*old(buffer)).len() + 4 + s@.len() <= buffer_max(),
    ensures
        contents(*final(buffer)) == contents(*old(buffer)) + ssh_string(s@),
{
    buffer.push_u32_be(s.len() as u32);
    buffer.extend(s);
    assert(contents(*buffer) =~= contents(*old(buffer)) + ssh_string(s@));
}

/// Appends a packet with its length in front.
pub fn push_packet(buffer: &mut CryptoVec, body: &CryptoVec)
    requires
        contents(*old(buffer)).len() + 4 + contents(*body).len() <= buffer_max(),
    ensures
        contents(*final(buffer)) == contents(*old(buffer)) + packet(contents(*body)),
{
    buffer.push_u32_be(body.len() as u32);
    buffer.extend(as_slice(body));
    assert(contents(*buffer) =~= contents(*old(buffer)) + packet(contents(*body)));
}

/// Whether two slices hold the same bytes.
pub fn same_bytes(a: &[u8], b: &[u8]) -> (r: bool)
    ensures
        r == (a@ == b@),
{
    if a.len() != b.len() {
        return false;
    }
    let mut i: usize = 0;
    while i < a.len()
        invariant
            i <= a.len(),
            a@.len() == b@.len(),
            forall|j: int| 0 <= j < i ==> a@[j] == b@[j],
        decreases a.len() - i,
    {
        if a[i] != b[i] {
            return false;
        }
        i = i + 1;
    }
    assert(a@ =~= b@);
    true
}

/// Reading an integer gives back the integer that was written.
pub proof fn law_u32_read_back(n: u32, before: Seq<u8>, after: Seq<u8>)
    ensures
        u32_at(before + be32(n) + after, before.len() as int) == Some(n),
{
    let b = before + be32(n) + after;
    let i = before.len() as int;
    assert(b[i] == be32(n)[0] && b[i + 1] == be32(n)[1] && b[i + 2] == be32(n)[2] && b[i + 3]
        == be32(n)[3]);
}

/// Reading a string gives back the string that was written, for every string whose length
/// fits the four bytes of its prefix.
pub proof fn law_string_read_back(s: Seq<u8>, before: Seq<u8>, after: Seq<u8>)
    requires
        s.len() <= u32::MAX,
    ensures
        string_at(before + ssh_string(s) + after, before.len() as int) == Some(s),
{
    let b = before + ssh_string(s) + after;
    assert(b =~= before + be32(s.len() as u32) + (s + after));
    law_u32_read_back(s.len() as u32, before, s + after);
    assert(b.subrange(before.len() as int + 4, before.len() as int + 4 + s.len()) =~= s);
}

/// An integer is read exactly where four bytes are left, and it is the one whose four bytes stand
/// there.
pub proof fn law_u32_read(b: Seq<u8>, i: int)
    requires
        0 <= i,
    ensures
        u32_at(b, i) is Some <==> i + 4 <= b.len(),
        u32_at(b, i) matches Some(n) ==> be32(n) == b.subrange(i, i + 4),
{
    if i + 4 <= b.len() {
        let n = u32_at(b, i)->Some_0;
        let (b0, b1, b2, b3) = (b[i], b[i + 1], b[i + 2], b[i + 3]);
        assert(n == b0 * 0x100_0000 + b1 * 0x1_0000 + b2 * 0x100 + b3);
        assert(n / 0x100_0000 == b0);
        assert(n / 0x1_0000 % 0x100 == b1);
        assert(n / 0x100 % 0x100 == b2);
        assert(n % 0x100 == b3);
        assert(be32(n) =~= b.subrange(i, i + 4));
    }
}

/// A string is read exactly where it is there whole, and it is the one whose encoding stands there.
pub proof fn law_string_read(b: Seq<u8>, i: int)
    requires
        0 <= i,
    ensures
        string_at(b, i) matches Some(s) ==> s.len() <= u32::MAX && i + 4 + s.len() <= b.len()
            && b.subrange(i, i + 4 + s.len()) == be32(s.len() as u32) + s,
        string_at(b, i) is None ==> forall|s: Seq<u8>|
            s.len() <= u32::MAX && i + 4 + s.len() <= b.len() ==> b.subrange(i, i + 4 + s.len())
                != #[trigger] ssh_string(s),
{
    law_u32_read(b, i);
    if let Some(s) = string_at(b, i) {
        assert(b.subrange(i, i + 4 + s.len()) =~= be32(s.len() as u32) + s);
    } else {
        assert forall|s: Seq<u8>|
            s.len() <= u32::MAX && i + 4 + s.len() <= b.len() implies b.subrange(
            i,
            i + 4 + s.len(),
        ) != #[trigger] ssh_string(s) by {
            if b.subrange(i, i + 4 + s.len()) == ssh_string(s) {
                let (before, after) = (b.take(i), b.skip(i + 4 + s.len()));
                assert(b =~= before + ssh_string(s) + after);
                law_string_read_back(s, before, after);
            }
        }
    }
}

/// A byte is read exactly where there is one, and it is that byte.
pub proof fn law_byte_read(b: Seq<u8>, i: int)
    requires
        0 <= i,
    ensures
        byte_at(b, i) is Some <==> i < b.len(),
        byte_at(b, i) matches Some(n) ==> n == b[i],
{
}

/// A string and a packet are written as their length and their bytes.
pub proof fn law_written_with_length(s: Seq<u8>)
    ensures
        ssh_string(s).take(4) == be32(s.len() as u32),
        ssh_string(s).skip(4) == s,
        packet(s).take(4) == be32(s.len() as u32),
        packet(s).skip(4) == s,
{
    assert(ssh_string(s).take(4) =~= be32(s.len() as u32));
    assert(ssh_string(s).skip(4) =~= s);
    assert(packet(s).take(4) =~= be32(s.len() as u32));
    assert(packet(s).skip(4) =~= s);
}

} // verus!
