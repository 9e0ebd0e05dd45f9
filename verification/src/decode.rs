//! Turning what the kernel hands back into typed values: the format reply,
//! the value bytes (temperatures among them), the description and the OID.
use crate::codec::{
    from_utf8, i16_le_bytes, i32_le_bytes, i64_le_bytes, le_bytes_u16, le_bytes_u32, le_bytes_u64,
    u16_le_bytes, u32_le_bytes, u64_le_bytes, le_value, read_i16, read_i32, read_i64, read_u16, read_u32, read_u64,
    twos_complement, utf8_error_text,
};
use crate::temperature::Temperature;
use crate::types::{CtlInfo, CtlType, CtlValue, SpecCtlInfo, SpecCtlValue};
use vstd::arithmetic::power::pow;
use vstd::prelude::*;
use vstd::slice::{slice_subrange, slice_to_vec};
use vstd::utf8::{decode_utf8, encode_utf8, is_char_boundary, valid_utf8};

verus! {

broadcast use {vstd::utf8::encode_utf8_valid_utf8, vstd::utf8::encode_utf8_decode_utf8};

/// The error text for a value whose type has no reading.
pub open spec fn no_match_text() -> Seq<char> {
    "No matching type for value"@
}

/// The error text for a string value that is not UTF-8.
pub open spec fn bad_string_text() -> Seq<char> {
    "Error parsing string"@
}

/// A result of decoding, with the value and the error text by their views.
pub open spec fn value_result(r: Result<CtlValue, String>) -> Result<SpecCtlValue, Seq<char>> {
    match r {
        Ok(v) => Ok(v@),
        Err(e) => Err(e@),
    }
}

/// A result holding a format, by the views.
pub open spec fn info_result(r: Result<CtlInfo, String>) -> Result<SpecCtlInfo, Seq<char>> {
    match r {
        Ok(info) => Ok(info@),
        Err(e) => Err(e@),
    }
}

/// A result holding text, by the characters.
pub open spec fn text_result(r: Result<String, String>) -> Result<Seq<char>, Seq<char>> {
    match r {
        Ok(s) => Ok(s@),
        Err(e) => Err(e@),
    }
}

/// The bytes of the format string.
pub open spec fn fmt_bytes(info: SpecCtlInfo) -> Seq<u8> {
    encode_utf8(info.fmt)
}

/// The format string starts with the two bytes `IK`, which mark a
/// temperature.
pub open spec fn names_temperature(info: SpecCtlInfo) -> bool {
    fmt_bytes(info)[0] == 73u8 && fmt_bytes(info)[1] == 75u8
}

/// The number of decimal places of a temperature: the digit in the third
/// byte of the format string, or one when there is no digit there.
pub open spec fn precision(fmt: Seq<u8>) -> nat {
    if fmt.len() > 2 && 48 <= fmt[2] <= 57 {
        (fmt[2] - 48) as nat
    } else {
        1
    }
}

/// The number of bytes that a temperature of type `t` is read from.
pub open spec fn temperature_width(t: CtlType) -> nat {
    match t {
        CtlType::Int | CtlType::Uint | CtlType::S32 | CtlType::U32 => 4,
        CtlType::S64 | CtlType::Long | CtlType::Ulong | CtlType::U64 => 8,
        CtlType::U16 | CtlType::S16 => 2,
        CtlType::U8 | CtlType::S8 => 1,
        _ => 0,
    }
}

/// The number of bytes that a value of type `t` is read from; a string has
/// at least its terminating byte.
pub open spec fn value_width(t: CtlType) -> nat {
    match t {
        CtlType::String => 1,
        _ => temperature_width(t),
    }
}

/// The number that a temperature of type `t` reports, read from `val`; none
/// for the types that hold no number.
pub open spec fn temperature_reading(t: CtlType, val: Seq<u8>) -> Option<int> {
    match t {
        CtlType::Int | CtlType::S32 => Some(twos_complement(le_value(val, 4), 32)),
        CtlType::Uint | CtlType::U32 => Some(le_value(val, 4) as int),
        CtlType::Long => Some(twos_complement(le_value(val, 8), 64)),
        CtlType::S64 | CtlType::Ulong | CtlType::U64 => Some(le_value(val, 8) as int),
        CtlType::U16 => Some(le_value(val, 2) as int),
        CtlType::S16 => Some(twos_complement(le_value(val, 2), 16)),
        CtlType::U8 => Some(val[0] as int),
        CtlType::S8 => Some((val[0] as i8) as int),
        _ => None,
    }
}

/// The inputs on which reading a temperature does not panic: the format's
/// third byte, if any, must be a character of its own, and the value must
/// hold the bytes of its type.
pub open spec fn temperature_admissible(info: SpecCtlInfo, val: Seq<u8>) -> bool {
    &&& fmt_bytes(info).len() > 2 ==> is_char_boundary(fmt_bytes(info), 2) && is_char_boundary(
        fmt_bytes(info),
        3,
    )
    &&& val.len() >= temperature_width(info.ctl_type)
}

/// A temperature read from `val`: the reported number in units of
/// `10^-precision` Kelvin.
pub open spec fn spec_temperature(info: SpecCtlInfo, val: Seq<u8>) -> Result<SpecCtlValue, Seq<char>> {
    match temperature_reading(info.ctl_type, val) {
        Some(units) => Ok(SpecCtlValue::Temperature(units, pow(10, precision(fmt_bytes(info))) as nat)),
        None => Err(no_match_text()),
    }
}

/// The inputs on which decoding a value does not panic.
pub open spec fn decode_admissible(info: SpecCtlInfo, val: Seq<u8>) -> bool {
    &&& is_char_boundary(fmt_bytes(info), 2)
    &&& if names_temperature(info) {
        temperature_admissible(info, val)
    } else {
        val.len() >= value_width(info.ctl_type)
    }
}

/// The value that the bytes `val` of a sysctl with format `info` stand for.
pub open spec fn spec_decode(info: SpecCtlInfo, val: Seq<u8>) -> Result<SpecCtlValue, Seq<char>> {
    if names_temperature(info) {
        spec_temperature(info, val)
    } else {
        match info.ctl_type {
            CtlType::Node => Ok(SpecCtlValue::Node(val)),
            CtlType::Int => Ok(SpecCtlValue::Int(twos_complement(le_value(val, 4), 32) as i32)),
            CtlType::String => {
                let text = val.take(val.len() - 1);
                if valid_utf8(text) {
                    Ok(SpecCtlValue::String(decode_utf8(text)))
                } else {
                    Err(bad_string_text())
                }
            },
            CtlType::S64 => Ok(SpecCtlValue::S64(le_value(val, 8) as u64)),
            CtlType::Struct => Ok(SpecCtlValue::Struct(val)),
            CtlType::Uint => Ok(SpecCtlValue::Uint(le_value(val, 4) as u32)),
            CtlType::Long => Ok(SpecCtlValue::Long(twos_complement(le_value(val, 8), 64) as i64)),
            CtlType::Ulong => Ok(SpecCtlValue::Ulong(le_value(val, 8) as u64)),
            CtlType::U64 => Ok(SpecCtlValue::U64(le_value(val, 8) as u64)),
            CtlType::U8 => Ok(SpecCtlValue::U8(val[0])),
            CtlType::U16 => Ok(SpecCtlValue::U16(le_value(val, 2) as u16)),
            CtlType::S8 => Ok(SpecCtlValue::S8(val[0] as i8)),
            CtlType::S16 => Ok(SpecCtlValue::S16(twos_complement(le_value(val, 2), 16) as i16)),
            CtlType::S32 => Ok(SpecCtlValue::S32(twos_complement(le_value(val, 4), 32) as i32)),
            CtlType::U32 => Ok(SpecCtlValue::U32(le_value(val, 4) as u32)),
            CtlType::Temperature => Err(no_match_text()),
        }
    }
}

/// `10^p`.
fn ten_to_the(p: u32) -> (r: u32)
    requires
        p <= 9,
    ensures
        r == pow(10, p as nat),
        1 <= r <= 1_000_000_000,
{
    proof {
        reveal_with_fuel(pow, 10);
    }
    match p {
        0 => 1,
        1 => 10,
        2 => 100,
        3 => 1_000,
        4 => 10_000,
        5 => 100_000,
        6 => 1_000_000,
        7 => 10_000_000,
        8 => 100_000_000,
        _ => 1_000_000_000,
    }
}

impl CtlInfo {
    /// The format string starts with `IK`: the sysctl is a temperature.
    pub fn is_temperature(&self) -> (b: bool)
        requires
            is_char_boundary(fmt_bytes(self@), 2),
        ensures
            b == names_temperature(self@),
    {
        let bytes = self.fmt.as_str().as_bytes();
        bytes[0] == 73u8 && bytes[1] == 75u8
    }
}

/// Reads a temperature from the bytes of a sysctl whose format starts with
/// `IK`: the number that its type holds, in units of `10^-p` Kelvin, where
/// `p` is the digit after `IK` (one without a digit).
pub fn temperature(info: &CtlInfo, val: &Vec<u8>) -> (r: Result<CtlValue, String>)
    requires
        temperature_admissible(info@, val@),
    ensures
        value_result(r) == spec_temperature(info@, val@),
{
    let bytes = info.fmt.as_str().as_bytes();
    let prec: u32 = if bytes.len() > 2 {
        let d: u8 = bytes[2];
        if 48 <= d && d <= 57 {
            (d - 48) as u32
        } else {
            1
        }
    } else {
        1
    };
    let base: u32 = ten_to_the(prec);
    let v = val.as_slice();
    let units: i128 = match info.ctl_type {
        CtlType::Int => read_i32(v) as i128,
        CtlType::S64 => read_u64(v) as i128,
        CtlType::Uint => read_u32(v) as i128,
        CtlType::Long => read_i64(v) as i128,
        CtlType::Ulong => read_u64(v) as i128,
        CtlType::U64 => read_u64(v) as i128,
        CtlType::U8 => v[0] as i128,
        CtlType::U16 => read_u16(v) as i128,
        CtlType::S8 => (v[0] as i8) as i128,
        CtlType::S16 => read_i16(v) as i128,
        CtlType::S32 => read_i32(v) as i128,
        CtlType::U32 => read_u32(v) as i128,
        _ => {
            return Err("No matching type for value".to_owned());
        },
    };
    Ok(CtlValue::Temperature(Temperature::new(units, base)))
}

/// Wraps the bytes of a sysctl in the variant of its type: numbers are read
/// little-endian, a string loses its terminating byte and must be UTF-8, and a
/// format starting with `IK` makes the value a temperature.
pub fn decode_value(info: &CtlInfo, val: Vec<u8>) -> (r: Result<CtlValue, String>)
    requires
        decode_admissible(info@, val@),
    ensures
        value_result(r) == spec_decode(info@, val@),
{
    if info.is_temperature() {
        return temperature(info, &val);
    }
    let v = val.as_slice();
    match info.ctl_type {
        CtlType::Node => Ok(CtlValue::Node(val)),
        CtlType::Int => Ok(CtlValue::Int(read_i32(v))),
        CtlType::String => {
            let text = slice_subrange(v, 0, v.len() - 1);
            match from_utf8(text) {
                Ok(s) => Ok(CtlValue::String(s)),
                Err(_) => Err("Error parsing string".to_owned()),
            }
        },
        CtlType::S64 => Ok(CtlValue::S64(read_u64(v))),
        CtlType::Struct => Ok(CtlValue::Struct(val)),
        CtlType::Uint => Ok(CtlValue::Uint(read_u32(v))),
        CtlType::Long => Ok(CtlValue::Long(read_i64(v))),
        CtlType::Ulong => Ok(CtlValue::Ulong(read_u64(v))),
        CtlType::U64 => Ok(CtlValue::U64(read_u64(v))),
        CtlType::U8 => Ok(CtlValue::U8(v[0])),
        CtlType::U16 => Ok(CtlValue::U16(read_u16(v))),
        CtlType::S8 => Ok(CtlValue::S8(v[0] as i8)),
        CtlType::S16 => Ok(CtlValue::S16(read_i16(v))),
        CtlType::S32 => Ok(CtlValue::S32(read_i32(v))),
        CtlType::U32 => Ok(CtlValue::U32(read_u32(v))),
        CtlType::Temperature => Err("No matching type for value".to_owned()),
    }
}

/// The kind word of a format reply: the first four bytes, little-endian.
pub open spec fn kind_word(buf: Seq<u8>) -> u32 {
    le_value(buf, 4) as u32
}

/// The inputs on which reading a format reply does not panic: the reply
/// holds the kind word and the reported length lies within the buffer, and a
/// reply whose text is UTF-8 names a type (its low four bits are not zero).
pub open spec fn oidfmt_admissible(buf: Seq<u8>, len: nat) -> bool {
    &&& 4 <= len <= buf.len()
    &&& valid_utf8(buf.subrange(4, len as int)) ==> kind_word(buf) % 16 != 0
}

/// What a format reply of `len` bytes says: the type in the low four bits of
/// the kind word, the flags in the whole word, and the format string after
/// it, which must be UTF-8.
pub open spec fn spec_oidfmt(buf: Seq<u8>, len: nat) -> Result<SpecCtlInfo, Seq<char>> {
    let text = buf.subrange(4, len as int);
    if valid_utf8(text) {
        Ok(
            SpecCtlInfo {
                ctl_type: CtlType::with_code(kind_word(buf) % 16),
                fmt: decode_utf8(text),
                flags: kind_word(buf),
            },
        )
    } else {
        Err(utf8_error_text(text))
    }
}

/// Reads the reply to a format query, of which `len` bytes were filled.
pub fn oidfmt(buf: &[u8], len: usize) -> (r: Result<CtlInfo, String>)
    requires
        oidfmt_admissible(buf@, len as nat),
    ensures
        info_result(r) == spec_oidfmt(buf@, len as nat),
{
    let kind: u32 = read_u32(buf);
    let ctltype_val: u32 = kind & 0xf;
    assert(ctltype_val == kind % 16) by (bit_vector)
        requires
            ctltype_val == kind & 0xf,
    ;
    let fmt = match from_utf8(slice_subrange(buf, 4, len)) {
        Ok(x) => x,
        Err(e) => {
            return Err(e);
        },
    };
    Ok(CtlInfo { ctl_type: CtlType::from_code(ctltype_val), fmt, flags: kind })
}

/// The text of a description reply of `len` bytes, without its terminating
/// byte; it must be UTF-8.
pub open spec fn spec_description(buf: Seq<u8>, len: nat) -> Result<Seq<char>, Seq<char>> {
    let text = buf.subrange(0, len - 1);
    if valid_utf8(text) {
        Ok(decode_utf8(text))
    } else {
        Err(utf8_error_text(text))
    }
}

/// Reads the reply to a description query, of which `len` bytes were filled.
pub fn description_text(buf: &[u8], len: usize) -> (r: Result<String, String>)
    requires
        1 <= len <= buf@.len(),
    ensures
        text_result(r) == spec_description(buf@, len as nat),
{
    from_utf8(slice_subrange(buf, 0, len - 1))
}

/// The OID that a name lookup returns: the integers that its `len` bytes
/// fill, four bytes to an integer.
pub open spec fn spec_trim_oid(res: Seq<i32>, len: nat) -> Seq<i32> {
    if len / 4 <= res.len() {
        res.take((len / 4) as int)
    } else {
        res
    }
}

/// Cuts the result of a name lookup to the integers that were filled.
pub fn trim_oid(res: Vec<i32>, len: usize) -> (oid: Vec<i32>)
    ensures
        oid@ == spec_trim_oid(res@, len as nat),
{
    let mut res = res;
    res.truncate(len / 4);
    res
}

/// The number of bytes that a temperature of type `t` is read from.
pub(crate) fn temperature_width_of(t: CtlType) -> (w: usize)
    ensures
        w == temperature_width(t),
{
    match t {
        CtlType::Int | CtlType::Uint | CtlType::S32 | CtlType::U32 => 4,
        CtlType::S64 | CtlType::Long | CtlType::Ulong | CtlType::U64 => 8,
        CtlType::U16 | CtlType::S16 => 2,
        CtlType::U8 | CtlType::S8 => 1,
        _ => 0,
    }
}

/// The number of bytes that a value of type `t` is read from.
pub(crate) fn value_width_of(t: CtlType) -> (w: usize)
    ensures
        w == value_width(t),
{
    match t {
        CtlType::String => 1,
        _ => temperature_width_of(t),
    }
}

/// Whether decoding `val` as a value of format `info` is free of panics.
pub fn decode_admits(info: &CtlInfo, val: &Vec<u8>) -> (b: bool)
    ensures
        b == decode_admissible(info@, val@),
{
    let fmt = info.fmt.as_str();
    if !fmt.is_char_boundary(2) {
        return false;
    }
    if info.is_temperature() {
        let n = fmt.as_bytes().len();
        if n > 2 && !fmt.is_char_boundary(3) {
            return false;
        }
        val.len() >= temperature_width_of(info.ctl_type)
    } else {
        val.len() >= value_width_of(info.ctl_type)
    }
}

/// Whether reading the format reply `buf` of `len` bytes is free of panics.
pub fn oidfmt_admits(buf: &[u8], len: usize) -> (b: bool)
    ensures
        b == oidfmt_admissible(buf@, len as nat),
{
    if len < 4 || len > buf.len() {
        return false;
    }
    let kind: u32 = read_u32(buf);
    let ctltype_val: u32 = kind & 0xf;
    assert(ctltype_val == kind % 16) by (bit_vector)
        requires
            ctltype_val == kind & 0xf,
    ;
    if ctltype_val != 0 {
        return true;
    }
    match from_utf8(slice_subrange(buf, 4, len)) {
        Ok(_) => false,
        Err(_) => true,
    }
}

/// The bytes that set a sysctl to `v`: numbers little-endian in two's
/// complement, in the width of their type; a string as its UTF-8 bytes,
/// without a terminating byte; a node or struct as its bytes. A temperature
/// is no type that the kernel reports, and has no bytes.
pub open spec fn value_bytes(v: SpecCtlValue) -> Seq<u8> {
    match v {
        SpecCtlValue::Node(b) => b,
        SpecCtlValue::Struct(b) => b,
        SpecCtlValue::Int(x) => le_bytes_u32(x as u32),
        SpecCtlValue::S32(x) => le_bytes_u32(x as u32),
        SpecCtlValue::String(t) => encode_utf8(t),
        SpecCtlValue::S64(x) => le_bytes_u64(x),
        SpecCtlValue::Ulong(x) => le_bytes_u64(x),
        SpecCtlValue::U64(x) => le_bytes_u64(x),
        SpecCtlValue::Uint(x) => le_bytes_u32(x),
        SpecCtlValue::U32(x) => le_bytes_u32(x),
        SpecCtlValue::Long(x) => le_bytes_u64(x as u64),
        SpecCtlValue::U8(x) => seq![x],
        SpecCtlValue::S8(x) => seq![x as u8],
        SpecCtlValue::U16(x) => le_bytes_u16(x),
        SpecCtlValue::S16(x) => le_bytes_u16(x as u16),
        SpecCtlValue::Temperature(_, _) => Seq::empty(),
    }
}

/// The bytes that are written to set a sysctl to `value`.
pub fn encode_value(value: &CtlValue) -> (b: Vec<u8>)
    ensures
        b@ == value_bytes(value@),
{
    match value {
        CtlValue::Node(b) => b.clone(),
        CtlValue::Struct(b) => b.clone(),
        CtlValue::Int(x) => i32_le_bytes(*x),
        CtlValue::S32(x) => i32_le_bytes(*x),
        CtlValue::String(t) => slice_to_vec(t.as_str().as_bytes()),
        CtlValue::S64(x) => u64_le_bytes(*x),
        CtlValue::Ulong(x) => u64_le_bytes(*x),
        CtlValue::U64(x) => u64_le_bytes(*x),
        CtlValue::Uint(x) => u32_le_bytes(*x),
        CtlValue::U32(x) => u32_le_bytes(*x),
        CtlValue::Long(x) => i64_le_bytes(*x),
        CtlValue::U8(x) => vec![*x],
        CtlValue::S8(x) => vec![*x as u8],
        CtlValue::U16(x) => u16_le_bytes(*x),
        CtlValue::S16(x) => i16_le_bytes(*x),
        CtlValue::Temperature(_) => Vec::new(),
    }
}

} // verus!
