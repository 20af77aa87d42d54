//! Big- and little-endian primitives over byte slices and byte buffers.
//!
//! Readers take the unread input and hand back what is left of it together
//! with the value read; writers append to a buffer.

use crate::errors::Error;
use vstd::prelude::*;
use vstd::array::array_fill_for_copy_types;
use vstd::slice::slice_subrange;
use vstd::string::*;
use vstd::utf8::{decode_utf8, encode_utf8, valid_utf8};

verus! {

/// What a reader returns: the input that is left, and the value read.
pub type RTMPResult<'a, T> = Result<(&'a [u8], T), Error>;

/// The value of the two bytes at the front of `s`, most significant first.
pub open spec fn spec_u16_be(s: Seq<u8>) -> int
    recommends
        s.len() >= 2,
{
    s[0] as int * 0x100 + s[1] as int
}

/// The value of the three bytes at the front of `s`, most significant first.
pub open spec fn spec_u24_be(s: Seq<u8>) -> int
    recommends
        s.len() >= 3,
{
    s[0] as int * 0x1_0000 + s[1] as int * 0x100 + s[2] as int
}

/// The value of the four bytes at the front of `s`, most significant first.
pub open spec fn spec_u32_be(s: Seq<u8>) -> int
    recommends
        s.len() >= 4,
{
    s[0] as int * 0x100_0000 + s[1] as int * 0x1_0000 + s[2] as int * 0x100 + s[3] as int
}

/// The value of the four bytes at the front of `s`, least significant first.
pub open spec fn spec_u32_le(s: Seq<u8>) -> int
    recommends
        s.len() >= 4,
{
    s[3] as int * 0x100_0000 + s[2] as int * 0x1_0000 + s[1] as int * 0x100 + s[0] as int
}

/// The two bytes of `v`, most significant first.
pub open spec fn u16_be_bytes(v: u16) -> Seq<u8> {
    seq![(v / 0x100) as u8, (v % 0x100) as u8]
}

/// The three low bytes of `v`, most significant first.
pub open spec fn u24_be_bytes(v: u32) -> Seq<u8> {
    seq![((v / 0x1_0000) % 0x100) as u8, ((v / 0x100) % 0x100) as u8, (v % 0x100) as u8]
}

/// The four bytes of `v`, most significant first.
pub open spec fn u32_be_bytes(v: u32) -> Seq<u8> {
    seq![
        (v / 0x100_0000) as u8,
        ((v / 0x1_0000) % 0x100) as u8,
        ((v / 0x100) % 0x100) as u8,
        (v % 0x100) as u8,
    ]
}

/// The four bytes of `v`, least significant first.
pub open spec fn u32_le_bytes(v: u32) -> Seq<u8> {
    seq![
        (v % 0x100) as u8,
        ((v / 0x100) % 0x100) as u8,
        ((v / 0x1_0000) % 0x100) as u8,
        (v / 0x100_0000) as u8,
    ]
}

/// Reading back what `u16_be_bytes` wrote gives the value again.
pub proof fn lemma_u16_be_roundtrip(v: u16)
    ensures
        u16_be_bytes(v).len() == 2,
        spec_u16_be(u16_be_bytes(v)) == v,
{
    assert((v / 0x100) * 0x100 + v % 0x100 == v) by (bit_vector);
}

/// Reading back what `u24_be_bytes` wrote gives the low 24 bits again.
pub proof fn lemma_u24_be_roundtrip(v: u32)
    ensures
        u24_be_bytes(v).len() == 3,
        spec_u24_be(u24_be_bytes(v)) == v % 0x100_0000,
{
    assert(((v / 0x1_0000) % 0x100) * 0x1_0000 + ((v / 0x100) % 0x100) * 0x100 + v % 0x100 == v
        % 0x100_0000) by (bit_vector);
}

/// The four bytes of `v` make up `v`.
proof fn lemma_u32_of_its_bytes(v: u32)
    ensures
        (v / 0x100_0000) * 0x100_0000 + ((v / 0x1_0000) % 0x100) * 0x1_0000 + ((v / 0x100)
            % 0x100) * 0x100 + v % 0x100 == v,
        v / 0x100_0000 < 0x100,
{
    assert((v / 0x100_0000) * 0x100_0000 + ((v / 0x1_0000) % 0x100) * 0x1_0000 + ((v / 0x100)
        % 0x100) * 0x100 + v % 0x100 == v) by (bit_vector);
    assert(v / 0x100_0000 < 0x100) by (bit_vector);
}

/// Reading back what `u32_be_bytes` wrote gives the value again.
pub proof fn lemma_u32_be_roundtrip(v: u32)
    ensures
        u32_be_bytes(v).len() == 4,
        spec_u32_be(u32_be_bytes(v)) == v,
{
    lemma_u32_of_its_bytes(v);
}

/// Reading back what `u32_le_bytes` wrote gives the value again.
pub proof fn lemma_u32_le_roundtrip(v: u32)
    ensures
        u32_le_bytes(v).len() == 4,
        spec_u32_le(u32_le_bytes(v)) == v,
{
    lemma_u32_of_its_bytes(v);
}

/// Writing what four bytes read as gives the four bytes again.
pub proof fn lemma_u32_be_bytes_of_value(s: Seq<u8>)
    requires
        s.len() >= 4,
    ensures
        u32_be_bytes(spec_u32_be(s) as u32) == s.take(4),
{
    let (a, b, c, d) = (s[0], s[1], s[2], s[3]);
    let v: u32 = (a as u32 * 0x100_0000 + b as u32 * 0x1_0000 + c as u32 * 0x100 + d as u32) as u32;
    assert(v == spec_u32_be(s));
    assert(v / 0x100_0000 == a);
    assert((v / 0x1_0000) % 0x100 == b);
    assert((v / 0x100) % 0x100 == c);
    assert(v % 0x100 == d);
    assert(u32_be_bytes(v) =~= s.take(4));
}

/// A sequence that starts with the bytes of `v` reads as `v`.
pub proof fn lemma_u16_be_of_prefix(v: u16, s: Seq<u8>)
    requires
        s.len() >= 2,
        s.take(2) == u16_be_bytes(v),
    ensures
        spec_u16_be(s) == v,
{
    lemma_u16_be_roundtrip(v);
    let t = s.take(2);
    assert(s[0] == t[0] && s[1] == t[1]);
    assert(spec_u16_be(s) == spec_u16_be(t));
}

/// A sequence that starts with the three low bytes of `v` reads as the low
/// 24 bits of `v`.
pub proof fn lemma_u24_be_of_prefix(v: u32, s: Seq<u8>)
    requires
        s.len() >= 3,
        s.take(3) == u24_be_bytes(v),
    ensures
        spec_u24_be(s) == v % 0x100_0000,
{
    lemma_u24_be_roundtrip(v);
    let t = s.take(3);
    assert(s[0] == t[0] && s[1] == t[1] && s[2] == t[2]);
    assert(spec_u24_be(s) == spec_u24_be(t));
}

/// A sequence that starts with the big-endian bytes of `v` reads as `v`.
pub proof fn lemma_u32_be_of_prefix(v: u32, s: Seq<u8>)
    requires
        s.len() >= 4,
        s.take(4) == u32_be_bytes(v),
    ensures
        spec_u32_be(s) == v,
{
    lemma_u32_be_roundtrip(v);
    let t = s.take(4);
    assert(s[0] == t[0] && s[1] == t[1] && s[2] == t[2] && s[3] == t[3]);
    assert(spec_u32_be(s) == spec_u32_be(t));
}

/// A sequence that starts with the little-endian bytes of `v` reads as `v`.
pub proof fn lemma_u32_le_of_prefix(v: u32, s: Seq<u8>)
    requires
        s.len() >= 4,
        s.take(4) == u32_le_bytes(v),
    ensures
        spec_u32_le(s) == v,
{
    lemma_u32_le_roundtrip(v);
    let t = s.take(4);
    assert(s[0] == t[0] && s[1] == t[1] && s[2] == t[2] && s[3] == t[3]);
    assert(spec_u32_le(s) == spec_u32_le(t));
}

/// Splits `count` bytes off the front of `input`.
pub fn take<'a>(input: &'a [u8], count: usize) -> (r: RTMPResult<'a, &'a [u8]>)
    ensures
        match r {
            Ok((rest, head)) => count <= input@.len() && head@ == input@.take(count as int)
                && rest@ == input@.skip(count as int),
            Err(e) => count > input@.len() && e == (Error::Incomplete { needed: count }),
        },
{
    if input.len() < count {
        return Err(Error::Incomplete { needed: count });
    }
    let head = slice_subrange(input, 0, count);
    let rest = slice_subrange(input, count, input.len());
    Ok((rest, head))
}

/// Reads one byte.
pub fn be_u8<'a>(input: &'a [u8]) -> (r: RTMPResult<'a, u8>)
    ensures
        match r {
            Ok((rest, v)) => input@.len() >= 1 && v == input@[0] && rest@ == input@.skip(1),
            Err(e) => input@.len() < 1 && e == (Error::Incomplete { needed: 1 }),
        },
{
    if input.len() < 1 {
        return Err(Error::Incomplete { needed: 1 });
    }
    let rest = slice_subrange(input, 1, input.len());
    Ok((rest, input[0]))
}

/// Reads a 16-bit big-endian integer.
pub fn be_u16<'a>(input: &'a [u8]) -> (r: RTMPResult<'a, u16>)
    ensures
        match r {
            Ok((rest, v)) => input@.len() >= 2 && v == spec_u16_be(input@) && rest@
                == input@.skip(2),
            Err(e) => input@.len() < 2 && e == (Error::Incomplete { needed: 2 }),
        },
{
    if input.len() < 2 {
        return Err(Error::Incomplete { needed: 2 });
    }
    let v: u16 = input[0] as u16 * 0x100 + input[1] as u16;
    let rest = slice_subrange(input, 2, input.len());
    Ok((rest, v))
}

/// Reads a 24-bit big-endian integer.
pub fn be_u24<'a>(input: &'a [u8]) -> (r: RTMPResult<'a, u32>)
    ensures
        match r {
            Ok((rest, v)) => input@.len() >= 3 && v == spec_u24_be(input@) && rest@
                == input@.skip(3),
            Err(e) => input@.len() < 3 && e == (Error::Incomplete { needed: 3 }),
        },
{
    if input.len() < 3 {
        return Err(Error::Incomplete { needed: 3 });
    }
    let v: u32 = input[0] as u32 * 0x1_0000 + input[1] as u32 * 0x100 + input[2] as u32;
    let rest = slice_subrange(input, 3, input.len());
    Ok((rest, v))
}

/// Reads a 32-bit big-endian integer.
pub fn be_u32<'a>(input: &'a [u8]) -> (r: RTMPResult<'a, u32>)
    ensures
        match r {
            Ok((rest, v)) => input@.len() >= 4 && v == spec_u32_be(input@) && rest@
                == input@.skip(4),
            Err(e) => input@.len() < 4 && e == (Error::Incomplete { needed: 4 }),
        },
{
    if input.len() < 4 {
        return Err(Error::Incomplete { needed: 4 });
    }
    let v: u32 = input[0] as u32 * 0x100_0000 + input[1] as u32 * 0x1_0000 + input[2] as u32
        * 0x100 + input[3] as u32;
    let rest = slice_subrange(input, 4, input.len());
    Ok((rest, v))
}

/// Reads a 32-bit little-endian integer.
pub fn le_u32<'a>(input: &'a [u8]) -> (r: RTMPResult<'a, u32>)
    ensures
        match r {
            Ok((rest, v)) => input@.len() >= 4 && v == spec_u32_le(input@) && rest@
                == input@.skip(4),
            Err(e) => input@.len() < 4 && e == (Error::Incomplete { needed: 4 }),
        },
{
    if input.len() < 4 {
        return Err(Error::Incomplete { needed: 4 });
    }
    let v: u32 = input[3] as u32 * 0x100_0000 + input[2] as u32 * 0x1_0000 + input[1] as u32
        * 0x100 + input[0] as u32;
    let rest = slice_subrange(input, 4, input.len());
    Ok((rest, v))
}

/// Copies a slice of exactly `N` bytes into an array.
pub fn array_from_slice<const N: usize>(bytes: &[u8]) -> (r: [u8; N])
    requires
        bytes@.len() == N,
    ensures
        r@ == bytes@,
{
    let mut out: [u8; N] = array_fill_for_copy_types(0u8);
    let mut i: usize = 0;
    while i < N
        invariant
            i <= N,
            bytes@.len() == N,
            out@.len() == N,
            forall|j: int| 0 <= j < i ==> out@[j] == bytes@[j],
        decreases N - i,
    {
        out[i] = bytes[i];
        i += 1;
    }
    assert(out@ =~= bytes@);
    out
}

/// Appends every byte of `bytes` to `buffer`.
pub fn put_slice(buffer: &mut Vec<u8>, bytes: &[u8])
    ensures
        final(buffer)@ == old(buffer)@ + bytes@,
{
    let mut i: usize = 0;
    while i < bytes.len()
        invariant
            i <= bytes@.len(),
            buffer@ == old(buffer)@ + bytes@.take(i as int),
        decreases bytes@.len() - i,
    {
        buffer.push(bytes[i]);
        i += 1;
        assert(bytes@.take(i as int) =~= bytes@.take(i as int - 1).push(bytes@[i as int - 1]));
    }
    assert(bytes@.take(i as int) =~= bytes@);
}

/// Appends `v` as two bytes, most significant first.
pub fn put_u16_be(buffer: &mut Vec<u8>, v: u16)
    ensures
        final(buffer)@ == old(buffer)@ + u16_be_bytes(v),
{
    buffer.push((v / 0x100) as u8);
    buffer.push((v % 0x100) as u8);
    assert(buffer@ =~= old(buffer)@ + u16_be_bytes(v));
}

/// Appends the three low bytes of `v`, most significant first.
pub fn put_u24_be(buffer: &mut Vec<u8>, v: u32)
    ensures
        final(buffer)@ == old(buffer)@ + u24_be_bytes(v),
{
    buffer.push(((v / 0x1_0000) % 0x100) as u8);
    buffer.push(((v / 0x100) % 0x100) as u8);
    buffer.push((v % 0x100) as u8);
    assert(buffer@ =~= old(buffer)@ + u24_be_bytes(v));
}

/// Appends `v` as four bytes, most significant first.
pub fn put_u32_be(buffer: &mut Vec<u8>, v: u32)
    ensures
        final(buffer)@ == old(buffer)@ + u32_be_bytes(v),
{
    buffer.push((v / 0x100_0000) as u8);
    buffer.push(((v / 0x1_0000) % 0x100) as u8);
    buffer.push(((v / 0x100) % 0x100) as u8);
    buffer.push((v % 0x100) as u8);
    assert(buffer@ =~= old(buffer)@ + u32_be_bytes(v));
}

/// Appends `v` as four bytes, least significant first.
pub fn put_u32_le(buffer: &mut Vec<u8>, v: u32)
    ensures
        final(buffer)@ == old(buffer)@ + u32_le_bytes(v),
{
    buffer.push((v % 0x100) as u8);
    buffer.push(((v / 0x100) % 0x100) as u8);
    buffer.push(((v / 0x1_0000) % 0x100) as u8);
    buffer.push((v / 0x100_0000) as u8);
    assert(buffer@ =~= old(buffer)@ + u32_le_bytes(v));
}

/// Makes a string of bytes that are UTF-8, with std's `String::from_utf8`,
/// which refuses exactly the byte sequences that are not UTF-8.
#[verifier::external_body]
fn string_from_utf8(bytes: &[u8]) -> (r: Option<String>)
    ensures
        match r {
            Some(s) => valid_utf8(bytes@) && s@ == decode_utf8(bytes@),
            None => !valid_utf8(bytes@),
        },
{
    String::from_utf8(bytes.to_vec()).ok()
}

/// Reads a string of `length` bytes of UTF-8.
pub fn _take_str<'a>(i: &'a [u8], length: u16) -> (r: RTMPResult<'a, String>)
    ensures
        match r {
            Ok((rest, s)) => length <= i@.len() && valid_utf8(i@.take(length as int)) && s@
                == decode_utf8(i@.take(length as int)) && rest@ == i@.skip(length as int),
            Err(e) => if length > i@.len() {
                e == (Error::Incomplete { needed: length as usize })
            } else {
                !valid_utf8(i@.take(length as int)) && e == Error::InvalidUtf8
            },
        },
{
    let (rest, head) = take(i, length as usize)?;
    match string_from_utf8(head) {
        Some(s) => Ok((rest, s)),
        None => Err(Error::InvalidUtf8),
    }
}

/// A string on the wire: the length of its UTF-8 bytes, 16 bits big-endian,
/// then the bytes.
pub open spec fn spec_string_bytes(s: Seq<char>) -> Seq<u8> {
    u16_be_bytes(encode_utf8(s).len() as u16) + encode_utf8(s)
}

/// What reading a length-prefixed string from the front of `b` gives: the
/// bytes left over and the string, or the reason there is none.
pub open spec fn spec_read_string(b: Seq<u8>) -> Result<(Seq<u8>, Seq<char>), Error> {
    if b.len() < 2 {
        Err(Error::Incomplete { needed: 2 })
    } else {
        let length = spec_u16_be(b);
        let body = b.skip(2);
        if body.len() < length {
            Err(Error::Incomplete { needed: length as usize })
        } else if !valid_utf8(body.take(length)) {
            Err(Error::InvalidUtf8)
        } else {
            Ok((body.skip(length), decode_utf8(body.take(length))))
        }
    }
}

/// A string of at most 65535 bytes is read back from its own wire form,
/// whatever follows it.
pub proof fn lemma_string_roundtrip(s: Seq<char>, tail: Seq<u8>)
    requires
        encode_utf8(s).len() <= 0xFFFF,
    ensures
        spec_read_string(spec_string_bytes(s) + tail) == Ok::<(Seq<u8>, Seq<char>), Error>(
            (tail, s),
        ),
{
    let b = spec_string_bytes(s) + tail;
    let length = encode_utf8(s).len() as u16;
    assert(b.take(2) =~= u16_be_bytes(length));
    lemma_u16_be_of_prefix(length, b);
    assert(b.skip(2).take(length as int) =~= encode_utf8(s));
    assert(b.skip(2).skip(length as int) =~= tail);
    vstd::utf8::encode_utf8_valid_utf8(s);
    vstd::utf8::encode_utf8_decode_utf8(s);
}

/// Reads a length-prefixed string.
pub fn read_string<'a>(payload: &'a [u8]) -> (r: RTMPResult<'a, String>)
    ensures
        match r {
            Ok((rest, s)) => spec_read_string(payload@) == Ok::<(Seq<u8>, Seq<char>), Error>(
                (rest@, s@),
            ),
            Err(e) => spec_read_string(payload@) == Err::<(Seq<u8>, Seq<char>), Error>(e),
        },
{
    let (i, length) = be_u16(payload)?;
    _take_str(i, length)
}

/// Appends a length-prefixed string, unless it is longer than 65535 bytes.
pub fn put_string(buffer: &mut Vec<u8>, s: &str) -> (r: Result<(), Error>)
    ensures
        match r {
            Ok(()) => encode_utf8(s@).len() <= 0xFFFF && final(buffer)@ == old(buffer)@
                + spec_string_bytes(s@),
            Err(e) => encode_utf8(s@).len() > 0xFFFF && e == Error::StringTooLong
                && final(buffer)@ == old(buffer)@,
        },
{
    let bytes = s.as_bytes();
    if bytes.len() > 0xFFFF {
        return Err(Error::StringTooLong);
    }
    put_u16_be(buffer, bytes.len() as u16);
    put_slice(buffer, bytes);
    assert(buffer@ =~= old(buffer)@ + spec_string_bytes(s@));
    Ok(())
}

/// Whether two strings are the same text.
pub fn str_eq(a: &str, b: &str) -> (r: bool)
    ensures
        r == (a@ == b@),
{
    let x = a.as_bytes();
    let y = b.as_bytes();
    proof {
        vstd::utf8::encode_utf8_decode_utf8(a@);
        vstd::utf8::encode_utf8_decode_utf8(b@);
    }
    if x.len() != y.len() {
        return false;
    }
    let mut i: usize = 0;
    while i < x.len()
        invariant
            i <= x@.len(),
            x@.len() == y@.len(),
            x@ == encode_utf8(a@),
            y@ == encode_utf8(b@),
            forall|j: int| 0 <= j < i ==> x@[j] == y@[j],
        decreases x@.len() - i,
    {
        if x[i] != y[i] {
            return false;
        }
        i += 1;
    }
    assert(x@ =~= y@);
    true
}

} // verus!
