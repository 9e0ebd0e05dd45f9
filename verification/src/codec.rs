//! The byte-level facts the decoder rests on: little-endian numbers, as read
//! and written by `byteorder`, and UTF-8 text, as checked by `std`.
use byteorder::{ByteOrder, LittleEndian, WriteBytesExt};
use vstd::prelude::*;
use vstd::utf8::{decode_utf8, valid_utf8};

verus! {

/// The unsigned number that the first `n` bytes of `s` encode, least
/// significant byte first.
pub open spec fn le_value(s: Seq<u8>, n: nat) -> nat
    decreases n,
{
    if n == 0 {
        0
    } else {
        s[0] as nat + 256 * le_value(s.drop_first(), (n - 1) as nat)
    }
}

/// `u`, an unsigned number below `2^bits`, read as a two's complement number
/// of `bits` bits.
pub open spec fn twos_complement(u: nat, bits: nat) -> int {
    if u >= vstd::arithmetic::power2::pow2((bits - 1) as nat) {
        u - vstd::arithmetic::power2::pow2(bits)
    } else {
        u as int
    }
}

/// The four bytes of `u`, least significant first.
pub open spec fn le_bytes_u32(u: u32) -> Seq<u8> {
    seq![(u % 256) as u8, (u / 256 % 256) as u8, (u / 65536 % 256) as u8, (u / 16777216) as u8]
}

/// The two bytes of `u`, least significant first.
pub open spec fn le_bytes_u16(u: u16) -> Seq<u8> {
    seq![(u % 256) as u8, (u / 256) as u8]
}

/// The eight bytes of `u`, least significant first: the four bytes of its
/// low half, then those of its high half.
pub open spec fn le_bytes_u64(u: u64) -> Seq<u8> {
    le_bytes_u32((u % 0x1_0000_0000) as u32) + le_bytes_u32((u / 0x1_0000_0000) as u32)
}

/// The message that `std` gives for bytes that are not UTF-8.
pub uninterp spec fn utf8_error_text(bytes: Seq<u8>) -> Seq<char>;

/// `LittleEndian::read_u16` of `byteorder`: the number in the first two bytes,
/// least significant first; it panics on fewer than two bytes.
#[verifier::external_body]
pub(crate) fn read_u16(buf: &[u8]) -> (r: u16)
    requires
        buf@.len() >= 2,
    ensures
        r == le_value(buf@, 2),
{
    LittleEndian::read_u16(buf)
}

/// `LittleEndian::read_u32` of `byteorder`: the number in the first four
/// bytes, least significant first; it panics on fewer than four bytes.
#[verifier::external_body]
pub(crate) fn read_u32(buf: &[u8]) -> (r: u32)
    requires
        buf@.len() >= 4,
    ensures
        r == le_value(buf@, 4),
{
    LittleEndian::read_u32(buf)
}

/// `LittleEndian::read_u64` of `byteorder`: the number in the first eight
/// bytes, least significant first; it panics on fewer than eight bytes.
#[verifier::external_body]
pub(crate) fn read_u64(buf: &[u8]) -> (r: u64)
    requires
        buf@.len() >= 8,
    ensures
        r == le_value(buf@, 8),
{
    LittleEndian::read_u64(buf)
}

/// `LittleEndian::read_i16` of `byteorder`: the first two bytes as a
/// two's complement number, least significant byte first.
#[verifier::external_body]
pub(crate) fn read_i16(buf: &[u8]) -> (r: i16)
    requires
        buf@.len() >= 2,
    ensures
        r == twos_complement(le_value(buf@, 2), 16),
{
    LittleEndian::read_i16(buf)
}

/// `LittleEndian::read_i32` of `byteorder`: the first four bytes as a
/// two's complement number, least significant byte first.
#[verifier::external_body]
pub(crate) fn read_i32(buf: &[u8]) -> (r: i32)
    requires
        buf@.len() >= 4,
    ensures
        r == twos_complement(le_value(buf@, 4), 32),
{
    LittleEndian::read_i32(buf)
}

/// `LittleEndian::read_i64` of `byteorder`: the first eight bytes as a
/// two's complement number, least significant byte first.
#[verifier::external_body]
pub(crate) fn read_i64(buf: &[u8]) -> (r: i64)
    requires
        buf@.len() >= 8,
    ensures
        r == twos_complement(le_value(buf@, 8), 64),
{
    LittleEndian::read_i64(buf)
}

/// `WriteBytesExt::write_i32::<LittleEndian>` of `byteorder` on an empty
/// vector: it appends the four bytes of `v` in two's complement, least
/// significant first; writing to a vector does not fail.
#[verifier::external_body]
pub(crate) fn i32_le_bytes(v: i32) -> (b: Vec<u8>)
    ensures
        b@ == le_bytes_u32(v as u32),
{
    let mut b: Vec<u8> = Vec::new();
    b.write_i32::<LittleEndian>(v).expect("Error parsing value to byte array");
    b
}

/// `WriteBytesExt::write_u16::<LittleEndian>` of `byteorder` on an empty
/// vector: it appends the two bytes of `v`, least significant first.
#[verifier::external_body]
pub(crate) fn u16_le_bytes(v: u16) -> (b: Vec<u8>)
    ensures
        b@ == le_bytes_u16(v),
{
    let mut b: Vec<u8> = Vec::new();
    b.write_u16::<LittleEndian>(v).expect("Error parsing value to byte array");
    b
}

/// `WriteBytesExt::write_i16::<LittleEndian>` of `byteorder` on an empty
/// vector: it appends the two bytes of `v` in two's complement, least
/// significant first.
#[verifier::external_body]
pub(crate) fn i16_le_bytes(v: i16) -> (b: Vec<u8>)
    ensures
        b@ == le_bytes_u16(v as u16),
{
    let mut b: Vec<u8> = Vec::new();
    b.write_i16::<LittleEndian>(v).expect("Error parsing value to byte array");
    b
}

/// `WriteBytesExt::write_u32::<LittleEndian>` of `byteorder` on an empty
/// vector: it appends the four bytes of `v`, least significant first.
#[verifier::external_body]
pub(crate) fn u32_le_bytes(v: u32) -> (b: Vec<u8>)
    ensures
        b@ == le_bytes_u32(v),
{
    let mut b: Vec<u8> = Vec::new();
    b.write_u32::<LittleEndian>(v).expect("Error parsing value to byte array");
    b
}

/// `WriteBytesExt::write_u64::<LittleEndian>` of `byteorder` on an empty
/// vector: it appends the eight bytes of `v`, least significant first.
#[verifier::external_body]
pub(crate) fn u64_le_bytes(v: u64) -> (b: Vec<u8>)
    ensures
        b@ == le_bytes_u64(v),
{
    let mut b: Vec<u8> = Vec::new();
    b.write_u64::<LittleEndian>(v).expect("Error parsing value to byte array");
    b
}

/// `WriteBytesExt::write_i64::<LittleEndian>` of `byteorder` on an empty
/// vector: it appends the eight bytes of `v` in two's complement, least
/// significant first.
#[verifier::external_body]
pub(crate) fn i64_le_bytes(v: i64) -> (b: Vec<u8>)
    ensures
        b@ == le_bytes_u64(v as u64),
{
    let mut b: Vec<u8> = Vec::new();
    b.write_i64::<LittleEndian>(v).expect("Error parsing value to byte array");
    b
}

/// `std::str::from_utf8`, its text owned and its error shown as text: it
/// succeeds exactly on UTF-8, with the characters the bytes encode.
#[verifier::external_body]
pub(crate) fn from_utf8(bytes: &[u8]) -> (r: Result<String, String>)
    ensures
        r is Ok <==> valid_utf8(bytes@),
        r matches Ok(s) ==> s@ == decode_utf8(bytes@),
        r matches Err(m) ==> m@ == utf8_error_text(bytes@),
{
    match std::str::from_utf8(bytes) {
        Ok(s) => Ok(s.to_owned()),
        Err(e) => Err(format!("{}", e)),
    }
}

} // verus!
