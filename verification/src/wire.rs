//! Encodings of the wire format: signed 32-bit integers in little-endian order, and text
//! as UTF-8.
use byteorder::{ByteOrder, LittleEndian};
use vstd::arithmetic::div_mod::lemma_fundamental_div_mod_converse;
use vstd::prelude::*;
use vstd::utf8::*;

verus! {

/// The value of the 32 bits of `n`, read as an unsigned number (two's complement).
pub open spec fn bit_pattern(n: i32) -> int {
    if n >= 0 {
        n as int
    } else {
        n + 0x1_0000_0000
    }
}

/// The four bytes that stand for `n` on the wire, least significant first.
pub open spec fn le_bytes(n: i32) -> Seq<u8> {
    let u = bit_pattern(n);
    seq![
        (u % 0x100) as u8,
        ((u / 0x100) % 0x100) as u8,
        ((u / 0x1_0000) % 0x100) as u8,
        (u / 0x100_0000) as u8,
    ]
}

/// The integer that the first four bytes of `bytes` stand for, least significant first.
pub open spec fn le_value(bytes: Seq<u8>) -> i32
    recommends
        bytes.len() >= 4,
{
    let u = bytes[0] + 0x100 * bytes[1] + 0x1_0000 * bytes[2] + 0x100_0000 * bytes[3];
    if u < 0x8000_0000 {
        u as i32
    } else {
        (u - 0x1_0000_0000) as i32
    }
}

/// Decoding undoes encoding, whatever follows the four bytes.
pub proof fn lemma_le_value_of_le_bytes(n: i32, rest: Seq<u8>)
    ensures
        le_bytes(n).len() == 4,
        le_value(le_bytes(n) + rest) == n,
{
    let u = bit_pattern(n);
    let b = le_bytes(n) + rest;
    assert(0 <= u < 0x1_0000_0000);
    assert(b[0] == le_bytes(n)[0]);
    assert(b[1] == le_bytes(n)[1]);
    assert(b[2] == le_bytes(n)[2]);
    assert(b[3] == le_bytes(n)[3]);
    assert(b[0] + 0x100 * b[1] + 0x1_0000 * b[2] + 0x100_0000 * b[3] == u);
}

/// Encoding undoes decoding: four bytes are the encoding of the integer they stand for.
pub proof fn lemma_le_bytes_of_le_value(bytes: Seq<u8>)
    requires
        bytes.len() >= 4,
    ensures
        le_bytes(le_value(bytes)) == bytes.subrange(0, 4),
{
    let b0 = bytes[0] as int;
    let b1 = bytes[1] as int;
    let b2 = bytes[2] as int;
    let b3 = bytes[3] as int;
    let u = b0 + 0x100 * b1 + 0x1_0000 * b2 + 0x100_0000 * b3;
    assert(bit_pattern(le_value(bytes)) == u);
    lemma_fundamental_div_mod_converse(u, 0x100, b1 + 0x100 * b2 + 0x1_0000 * b3, b0);
    lemma_fundamental_div_mod_converse(u / 0x100, 0x100, b2 + 0x100 * b3, b1);
    lemma_fundamental_div_mod_converse(u, 0x1_0000, b2 + 0x100 * b3, b0 + 0x100 * b1);
    lemma_fundamental_div_mod_converse(u / 0x1_0000, 0x100, b3, b2);
    lemma_fundamental_div_mod_converse(u, 0x100_0000, b3, b0 + 0x100 * b1 + 0x1_0000 * b2);
    assert(le_bytes(le_value(bytes)) =~= bytes.subrange(0, 4));
}

/// Calls `byteorder::LittleEndian::write_i32` on a buffer of four bytes. That function
/// stores the bits of `n` as `u32::to_le_bytes` gives them; the contract states those four
/// bytes.
#[verifier::external_body]
pub(crate) fn i32_to_le(n: i32) -> (out: [u8; 4])
    ensures
        out@ == le_bytes(n),
{
    let mut buf = [0u8; 4];
    LittleEndian::write_i32(&mut buf, n);
    buf
}

/// Calls `byteorder::LittleEndian::read_i32`, which reads the first four bytes of `buf`
/// with `u32::from_le_bytes`, takes the bits as an `i32`, and panics on a shorter buffer.
#[verifier::external_body]
pub(crate) fn i32_from_le(buf: &[u8]) -> (n: i32)
    requires
        buf@.len() >= 4,
    ensures
        n == le_value(buf@),
{
    LittleEndian::read_i32(buf)
}

/// The error of `String::from_utf8`. Nothing is read from it.
#[verifier::external_type_specification]
#[verifier::external_body]
pub struct ExFromUtf8Error(std::string::FromUtf8Error);

/// `String::from_utf8` succeeds exactly on well-formed UTF-8, and the string it gives is
/// made of the bytes it was handed.
pub assume_specification[ String::from_utf8 ](vec: Vec<u8>) -> (r: Result<
    String,
    std::string::FromUtf8Error,
>)
    ensures
        r is Ok <==> valid_utf8(vec@),
        r is Ok ==> encode_utf8(r->Ok_0@) == vec@,
;

/// Appends the little-endian encoding of `n` to `out`.
pub fn push_i32(out: &mut Vec<u8>, n: i32)
    ensures
        final(out)@ == old(out)@ + le_bytes(n),
{
    let buf = i32_to_le(n);
    out.extend_from_slice(buf.as_slice());
    assert(final(out)@ =~= old(out)@ + le_bytes(n));
}

} // verus!
