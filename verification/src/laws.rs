//! What holds of the library as a whole: how the queries relate to each
//! other, what a write reads back as, and that every query comes to an end.
use crate::codec::{le_bytes_u16, le_bytes_u32, le_bytes_u64, le_value, twos_complement};
use crate::consts::{
    CTLTYPE_INT, CTLTYPE_LONG, CTLTYPE_NODE, CTLTYPE_S16, CTLTYPE_S32, CTLTYPE_S64, CTLTYPE_S8,
    CTLTYPE_STRING, CTLTYPE_STRUCT, CTLTYPE_U16, CTLTYPE_U32, CTLTYPE_U64, CTLTYPE_U8, CTLTYPE_UINT,
    CTLTYPE_ULONG,
};
use crate::decode::{
    bad_string_text, decode_admissible, fmt_bytes, kind_word, names_temperature, no_match_text,
    oidfmt_admissible, spec_decode, spec_description, spec_oidfmt, spec_temperature,
    spec_trim_oid, value_bytes,
};
use crate::query::{
    admits, next, not_raw_text, spec_description_query, raw_answer, value_answer, spec_set_value, spec_value, spec_value_as,
    spec_value_oid, spec_value_oid_as, SpecAnswer, SpecGoal, SpecQuery, SpecReply, SpecStage,
};
use crate::rounding::round_to_single;
use crate::temperature::{single_order, Temperature};
use crate::types::{CtlType, SpecCtlInfo, SpecCtlValue};
use vstd::std_specs::cmp::{PartialEqSpec, PartialOrdSpec};
use vstd::arithmetic::power::pow;
use vstd::prelude::*;
use vstd::utf8::{decode_utf8, encode_utf8, is_char_boundary, valid_utf8};

verus! {

/// A failed system call ends any query that is not done yet, with the errno
/// text of the call as its error.
pub proof fn lemma_failed_call_is_the_answer(q: SpecQuery, e: Seq<char>)
    requires
        !(q.stage is Done),
    ensures
        admits(q, SpecReply::Failed(e)),
        next(q, SpecReply::Failed(e)) == (SpecQuery { goal: q.goal, stage: SpecStage::Done(Err(e)) }),
{
}

/// Reading a value by name is looking up its OID and then reading the value
/// by that OID.
pub proof fn lemma_value_is_value_oid_of_lookup(name: Seq<char>, res: Seq<i32>, len: nat)
    ensures
        admits(spec_value(name), SpecReply::Oid(res, len)),
        next(spec_value(name), SpecReply::Oid(res, len)) == spec_value_oid(spec_trim_oid(res, len)),
{
}

/// Reading a struct by name is looking up its OID and then reading the
/// struct by that OID.
pub proof fn lemma_value_as_is_value_oid_as_of_lookup(
    name: Seq<char>,
    size: nat,
    res: Seq<i32>,
    len: nat,
)
    ensures
        admits(spec_value_as(name, size), SpecReply::Oid(res, len)),
        next(spec_value_as(name, size), SpecReply::Oid(res, len)) == spec_value_oid_as(
            spec_trim_oid(res, len),
            size,
        ),
{
}

/// The type numbers name the types one to one.
pub proof fn lemma_type_codes_are_one_to_one(t: CtlType, code: u32)
    ensures
        CtlType::with_code(t.code()) == t,
        1 <= code <= 16 ==> CtlType::with_code(code).code() == code,
{
}

/// A value that is not a temperature is decoded into the variant of the type
/// that the kernel reports; a temperature, into the temperature variant.
pub proof fn lemma_decoded_variant_is_reported_type(info: SpecCtlInfo, val: Seq<u8>)
    requires
        spec_decode(info, val) is Ok,
    ensures
        !names_temperature(info) ==> spec_decode(info, val)->Ok_0.ctl_type() == info.ctl_type,
        names_temperature(info) ==> spec_decode(info, val)->Ok_0.ctl_type() == CtlType::Temperature,
{
}

/// The bytes of a struct query come only from a struct or opaque value.
pub proof fn lemma_raw_answer_is_struct_or_node(d: Result<SpecCtlValue, Seq<char>>)
    ensures
        raw_answer(d) is Ok <==> (d matches Ok(v) && (v is Struct || v is Node)),
        raw_answer(d) matches Ok(SpecAnswer::Raw(b)) ==> (d == Ok::<SpecCtlValue, Seq<char>>(
            SpecCtlValue::Struct(b),
        ) || d == Ok::<SpecCtlValue, Seq<char>>(SpecCtlValue::Node(b))),
{
}

/// The number in `n + k` bytes is that of the first `n` and `256^n` times
/// that of the next `k`.
pub proof fn lemma_le_value_concat(a: Seq<u8>, b: Seq<u8>, n: nat, k: nat)
    requires
        a.len() == n,
    ensures
        le_value(a + b, n + k) == le_value(a, n) + pow(256, n) * le_value(b, k),
    decreases n,
{
    if n == 0 {
        assert(a + b =~= b);
        reveal(pow);
    } else {
        assert((a + b).drop_first() =~= a.drop_first() + b);
        lemma_le_value_concat(a.drop_first(), b, (n - 1) as nat, k);
        reveal(pow);
        let x = le_value(a.drop_first(), (n - 1) as nat);
        let p = pow(256, (n - 1) as nat);
        let y = le_value(b, k);
        assert(256 * (x + p * y) == 256 * x + (256 * p) * y) by (nonlinear_arith);
    }
}

/// The four bytes of a `u32`, least significant first, read back as that
/// number.
pub proof fn lemma_le_bytes_read_back(u: u32)
    ensures
        le_bytes_u32(u).len() == 4,
        le_value(le_bytes_u32(u), 4) == u,
{
    let b = le_bytes_u32(u);
    reveal_with_fuel(le_value, 5);
    assert(b.drop_first().drop_first().drop_first() =~= seq![(u / 16777216) as u8]);
    assert(b.drop_first().drop_first() =~= seq![(u / 65536 % 256) as u8, (u / 16777216) as u8]);
    assert(b.drop_first() =~= seq![(u / 256 % 256) as u8, (u / 65536 % 256) as u8, (u / 16777216) as u8]);
    let x = u as int;
    assert(x % 256 + 256 * (x / 256 % 256 + 256 * (x / 65536 % 256 + 256 * (x / 16777216))) == x)
        by (nonlinear_arith)
        requires
            0 <= x < 0x1_0000_0000,
    ;
}

/// The two bytes of a `u16`, least significant first, read back as that
/// number.
pub proof fn lemma_le_bytes_u16_read_back(u: u16)
    ensures
        le_bytes_u16(u).len() == 2,
        le_value(le_bytes_u16(u), 2) == u,
{
    let b = le_bytes_u16(u);
    reveal_with_fuel(le_value, 3);
    assert(b.drop_first() =~= seq![(u / 256) as u8]);
}

/// The eight bytes of a `u64`, least significant first, read back as that
/// number.
pub proof fn lemma_le_bytes_u64_read_back(u: u64)
    ensures
        le_bytes_u64(u).len() == 8,
        le_value(le_bytes_u64(u), 8) == u,
{
    let lo = (u % 0x1_0000_0000) as u32;
    let hi = (u / 0x1_0000_0000) as u32;
    lemma_le_bytes_read_back(lo);
    lemma_le_bytes_read_back(hi);
    lemma_le_value_concat(le_bytes_u32(lo), le_bytes_u32(hi), 4, 4);
    assert(pow(256, 4) == 0x1_0000_0000) by {
        reveal_with_fuel(pow, 5);
    }
}

/// A number written as its bytes in two's complement reads back as the same
/// number, in each width.
pub proof fn lemma_signed_bytes_read_back(a: i16, b: i32, c: i64, d: i8)
    ensures
        twos_complement(le_value(le_bytes_u16(a as u16), 2), 16) == a,
        twos_complement(le_value(le_bytes_u32(b as u32), 4), 32) == b,
        twos_complement(le_value(le_bytes_u64(c as u64), 8), 64) == c,
        (d as u8) as i8 == d,
{
    lemma_le_bytes_u16_read_back(a as u16);
    lemma_le_bytes_read_back(b as u32);
    lemma_le_bytes_u64_read_back(c as u64);
    vstd::arithmetic::power2::lemma2_to64();
    vstd::arithmetic::power2::lemma2_to64_rest();
    assert((a as u16) as int == if a < 0 { a + 0x1_0000 } else { a as int }) by (bit_vector);
    assert((b as u32) as int == if b < 0 { b + 0x1_0000_0000 } else { b as int }) by (bit_vector);
    assert((c as u64) as int == if c < 0 { c + 0x1_0000_0000_0000_0000 } else { c as int })
        by (bit_vector);
    assert((d as u8) as i8 == d) by (bit_vector);
}

/// The bytes that the kernel hands back for a sysctl set to `v`: those
/// written, and for a string the terminating byte that it keeps after it.
pub open spec fn read_back_bytes(v: SpecCtlValue) -> Seq<u8> {
    if v is String {
        value_bytes(v).push(0u8)
    } else {
        value_bytes(v)
    }
}

/// A value of the type of a sysctl that is no temperature, written as its
/// bytes, reads back as the same value.
pub proof fn lemma_written_value_reads_back(info: SpecCtlInfo, v: SpecCtlValue)
    requires
        info.ctl_type == v.ctl_type(),
        !(v is Temperature),
        !names_temperature(info),
    ensures
        spec_decode(info, read_back_bytes(v)) == Ok::<SpecCtlValue, Seq<char>>(v),
{
    broadcast use vstd::utf8::encode_utf8_valid_utf8, vstd::utf8::encode_utf8_decode_utf8;

    match v {
        SpecCtlValue::Int(x) => lemma_signed_bytes_read_back(0, x, 0, 0),
        SpecCtlValue::S32(x) => lemma_signed_bytes_read_back(0, x, 0, 0),
        SpecCtlValue::Long(x) => lemma_signed_bytes_read_back(0, 0, x, 0),
        SpecCtlValue::S16(x) => lemma_signed_bytes_read_back(x, 0, 0, 0),
        SpecCtlValue::S8(x) => lemma_signed_bytes_read_back(0, 0, 0, x),
        SpecCtlValue::Uint(x) => lemma_le_bytes_read_back(x),
        SpecCtlValue::U32(x) => lemma_le_bytes_read_back(x),
        SpecCtlValue::S64(x) => lemma_le_bytes_u64_read_back(x),
        SpecCtlValue::Ulong(x) => lemma_le_bytes_u64_read_back(x),
        SpecCtlValue::U64(x) => lemma_le_bytes_u64_read_back(x),
        SpecCtlValue::U16(x) => lemma_le_bytes_u16_read_back(x),
        SpecCtlValue::String(t) => {
            let b = read_back_bytes(v);
            assert(b.take(b.len() - 1) =~= vstd::utf8::encode_utf8(t));
        },
        _ => {},
    }
}

/// Setting a sysctl looks up its OID, checks its format, writes the bytes of
/// the value, and then reads the sysctl again by name, as `value` does.
pub proof fn lemma_set_value_writes_then_reads(
    name: Seq<char>,
    value: SpecCtlValue,
    res: Seq<i32>,
    len: nat,
    buf: Seq<u8>,
    buf_len: nat,
)
    requires
        spec_oidfmt(buf, buf_len) is Ok,
    ensures
        ({
            let after_lookup = next(spec_set_value(name, value), SpecReply::Oid(res, len));
            let oid = spec_trim_oid(res, len);
            let after_format = next(after_lookup, SpecReply::Buffer(buf, buf_len));
            &&& after_lookup.stage == SpecStage::Format(oid)
            &&& after_format.stage == SpecStage::Store(name, oid, value_bytes(value))
            &&& next(after_format, SpecReply::Stored) == spec_value(name)
        }),
{
}

/// Once a value is written, the query of `set_value` answers the value that
/// the sysctl holds: when the kernel hands back the bytes written, that is
/// the value set.
pub proof fn lemma_set_value_answers_written_value(
    name: Seq<char>,
    oid: Seq<i32>,
    value: SpecCtlValue,
    res: Seq<i32>,
    len: nat,
    buf: Seq<u8>,
    buf_len: nat,
    size: nat,
)
    requires
        spec_oidfmt(buf, buf_len) is Ok,
        spec_oidfmt(buf, buf_len)->Ok_0.ctl_type == value.ctl_type(),
        !names_temperature(spec_oidfmt(buf, buf_len)->Ok_0),
        !(value is Temperature),
    ensures
        ({
            let stored = SpecQuery {
                goal: SpecGoal::Write(name, value),
                stage: SpecStage::Store(name, oid, value_bytes(value)),
            };
            let q1 = next(stored, SpecReply::Stored);
            let q2 = next(q1, SpecReply::Oid(res, len));
            let q3 = next(q2, SpecReply::Buffer(buf, buf_len));
            let q4 = next(q3, SpecReply::Size(size));
            let q5 = next(q4, SpecReply::Buffer(read_back_bytes(value), size));
            q5.stage == SpecStage::Done(Ok(SpecAnswer::Value(value)))
        }),
{
    lemma_written_value_reads_back(spec_oidfmt(buf, buf_len)->Ok_0, value);
}

/// Reading a value by name answers, when every call succeeds, the value that
/// the bytes of the last call stand for under the format of the second.
pub proof fn lemma_value_answers_decoded_bytes(
    name: Seq<char>,
    res: Seq<i32>,
    len: nat,
    buf: Seq<u8>,
    buf_len: nat,
    size: nat,
    val: Seq<u8>,
    val_len: nat,
)
    requires
        spec_oidfmt(buf, buf_len) is Ok,
    ensures
        ({
            let q1 = next(spec_value(name), SpecReply::Oid(res, len));
            let q2 = next(q1, SpecReply::Buffer(buf, buf_len));
            let q3 = next(q2, SpecReply::Size(size));
            let q4 = next(q3, SpecReply::Buffer(val, val_len));
            &&& q3.stage == SpecStage::Fetch(spec_trim_oid(res, len), spec_oidfmt(buf, buf_len)->Ok_0, size)
            &&& q4.stage == SpecStage::Done(value_answer(spec_decode(spec_oidfmt(buf, buf_len)->Ok_0, val)))
        }),
{
}

/// How far a query is from its answer, in replies at most.
pub open spec fn remaining_steps(q: SpecQuery) -> nat {
    match q.stage {
        SpecStage::Done(_) => 0,
        SpecStage::Describe(_) => 1,
        SpecStage::Fetch(_, _, _) => 1,
        SpecStage::Size(_, _) => 2,
        SpecStage::Format(_) => if q.goal is Write {
            6
        } else {
            3
        },
        SpecStage::Store(_, _, _) => 5,
        SpecStage::Resolve(_) => match q.goal {
            SpecGoal::Write(_, _) => 7,
            SpecGoal::Describe => 2,
            _ => 4,
        },
    }
}

/// Every reply that a query takes brings it closer to its answer, so that
/// every query is done after at most seven replies.
pub proof fn lemma_every_reply_makes_progress(q: SpecQuery, r: SpecReply)
    requires
        admits(q, r),
    ensures
        remaining_steps(next(q, r)) < remaining_steps(q),
        remaining_steps(q) <= 7,
{
}

/// A query that is done takes no further reply.
pub proof fn lemma_done_query_takes_no_reply(q: SpecQuery, r: SpecReply)
    requires
        q.stage is Done,
    ensures
        !admits(q, r),
        next(q, r) == q,
{
}

/// Two temperatures compare as their values in single precision Kelvin do:
/// equal exactly when the order says so, the same read from either side, and
/// always ordered.
pub proof fn lemma_temperature_order_is_single_order(a: Temperature, b: Temperature)
    ensures
        a.eq_spec(&b) <==> single_order(a.single_kelvin(), b.single_kelvin()) == core::cmp::Ordering::Equal,
        a.eq_spec(&b) <==> a.partial_cmp_spec(&b) == Some(core::cmp::Ordering::Equal),
        a.eq_spec(&b) <==> b.eq_spec(&a),
        a.partial_cmp_spec(&b) == Some(core::cmp::Ordering::Less) <==> b.partial_cmp_spec(&a)
            == Some(core::cmp::Ordering::Greater),
        a.partial_cmp_spec(&b) is Some,
{
}

/// Each type's number is the kernel's `CTLTYPE_` constant for it.
pub proof fn lemma_type_codes_are_kernel_numbers()
    ensures
        CtlType::Node.code() == CTLTYPE_NODE,
        CtlType::Int.code() == CTLTYPE_INT,
        CtlType::String.code() == CTLTYPE_STRING,
        CtlType::S64.code() == CTLTYPE_S64,
        CtlType::Struct.code() == CTLTYPE_STRUCT,
        CtlType::Uint.code() == CTLTYPE_UINT,
        CtlType::Long.code() == CTLTYPE_LONG,
        CtlType::Ulong.code() == CTLTYPE_ULONG,
        CtlType::U64.code() == CTLTYPE_U64,
        CtlType::U8.code() == CTLTYPE_U8,
        CtlType::U16.code() == CTLTYPE_U16,
        CtlType::S8.code() == CTLTYPE_S8,
        CtlType::S16.code() == CTLTYPE_S16,
        CtlType::S32.code() == CTLTYPE_S32,
        CtlType::U32.code() == CTLTYPE_U32,
{
}

/// A format reply is read as the kernel writes it: the type is the one whose
/// kernel number is the low four bits of the kind word, the flags are the
/// whole kind word, and the format string is the UTF-8 text after the word;
/// text that is not UTF-8 is refused.
pub proof fn lemma_format_reply_is_kind_word_and_text(buf: Seq<u8>, len: nat)
    requires
        oidfmt_admissible(buf, len),
    ensures
        spec_oidfmt(buf, len) is Ok <==> valid_utf8(buf.subrange(4, len as int)),
        spec_oidfmt(buf, len) is Ok ==> {
            let info = spec_oidfmt(buf, len)->Ok_0;
            &&& info.ctl_type.code() == kind_word(buf) % 16
            &&& info.ctl_type.code() == kind_word(buf) & CTLTYPE_U32
            &&& info.flags == kind_word(buf)
            &&& kind_word(buf) == le_value(buf, 4)
            &&& info.fmt == decode_utf8(buf.subrange(4, len as int))
        },
{
    let k = kind_word(buf);
    assert(k & 15 == k % 16) by (bit_vector);
    assert(le_value(buf, 4) < 0x1_0000_0000) by {
        reveal_with_fuel(le_value, 5);
    }
}

/// A temperature is read for every integer type that the kernel reports:
/// its units are the number in the value bytes, little-endian (two's
/// complement for a signed type), and its scale is ten to the digit after
/// `IK` in the format, or ten without one. A node, string, struct or
/// temperature type has no number to read.
pub proof fn lemma_temperature_reads_every_integer_type(info: SpecCtlInfo, val: Seq<u8>)
    ensures
        ({
            let fb = fmt_bytes(info);
            let scale: int = if fb.len() > 2 && 48 <= fb[2] <= 57 {
                pow(10, (fb[2] - 48) as nat)
            } else {
                10
            };
            let units: Option<int> = match info.ctl_type {
                CtlType::Int => Some(twos_complement(le_value(val, 4), 32)),
                CtlType::S32 => Some(twos_complement(le_value(val, 4), 32)),
                CtlType::Uint => Some(le_value(val, 4) as int),
                CtlType::U32 => Some(le_value(val, 4) as int),
                CtlType::Long => Some(twos_complement(le_value(val, 8), 64)),
                CtlType::S64 => Some(le_value(val, 8) as int),
                CtlType::Ulong => Some(le_value(val, 8) as int),
                CtlType::U64 => Some(le_value(val, 8) as int),
                CtlType::S16 => Some(twos_complement(le_value(val, 2), 16)),
                CtlType::U16 => Some(le_value(val, 2) as int),
                CtlType::S8 => Some(twos_complement(val[0] as nat, 8)),
                CtlType::U8 => Some(val[0] as int),
                _ => None,
            };
            match units {
                Some(u) => spec_temperature(info, val) == Ok::<SpecCtlValue, Seq<char>>(
                    SpecCtlValue::Temperature(u, scale as nat),
                ),
                None => spec_temperature(info, val) == Err::<SpecCtlValue, Seq<char>>(no_match_text()),
            }
        }),
{
    vstd::arithmetic::power2::lemma2_to64();
    reveal_with_fuel(pow, 2);
    let b = val[0];
    assert((b as i8) as int == if b >= 128 { b - 256 } else { b as int }) by (bit_vector);
}

/// A number that is not a temperature is read from its value bytes
/// little-endian, two's complement for a signed type; so the little-endian
/// bytes of a number read back as that number.
pub proof fn lemma_numbers_are_little_endian(info: SpecCtlInfo, val: Seq<u8>, w: u16, x: u32, y: u64)
    requires
        !names_temperature(info),
    ensures
        info.ctl_type == CtlType::Int ==> spec_decode(info, val) == Ok::<SpecCtlValue, Seq<char>>(
            SpecCtlValue::Int(twos_complement(le_value(val, 4), 32) as i32),
        ),
        info.ctl_type == CtlType::S32 ==> spec_decode(info, val) == Ok::<SpecCtlValue, Seq<char>>(
            SpecCtlValue::S32(twos_complement(le_value(val, 4), 32) as i32),
        ),
        info.ctl_type == CtlType::Uint ==> spec_decode(info, val) == Ok::<SpecCtlValue, Seq<char>>(
            SpecCtlValue::Uint(le_value(val, 4) as u32),
        ),
        info.ctl_type == CtlType::U32 ==> spec_decode(info, val) == Ok::<SpecCtlValue, Seq<char>>(
            SpecCtlValue::U32(le_value(val, 4) as u32),
        ),
        info.ctl_type == CtlType::S64 ==> spec_decode(info, val) == Ok::<SpecCtlValue, Seq<char>>(
            SpecCtlValue::S64(le_value(val, 8) as u64),
        ),
        info.ctl_type == CtlType::U64 ==> spec_decode(info, val) == Ok::<SpecCtlValue, Seq<char>>(
            SpecCtlValue::U64(le_value(val, 8) as u64),
        ),
        info.ctl_type == CtlType::Ulong ==> spec_decode(info, val) == Ok::<SpecCtlValue, Seq<char>>(
            SpecCtlValue::Ulong(le_value(val, 8) as u64),
        ),
        info.ctl_type == CtlType::Long ==> spec_decode(info, val) == Ok::<SpecCtlValue, Seq<char>>(
            SpecCtlValue::Long(twos_complement(le_value(val, 8), 64) as i64),
        ),
        info.ctl_type == CtlType::U16 ==> spec_decode(info, val) == Ok::<SpecCtlValue, Seq<char>>(
            SpecCtlValue::U16(le_value(val, 2) as u16),
        ),
        info.ctl_type == CtlType::S16 ==> spec_decode(info, val) == Ok::<SpecCtlValue, Seq<char>>(
            SpecCtlValue::S16(twos_complement(le_value(val, 2), 16) as i16),
        ),
        info.ctl_type == CtlType::U8 ==> spec_decode(info, val) == Ok::<SpecCtlValue, Seq<char>>(
            SpecCtlValue::U8(val[0]),
        ),
        info.ctl_type == CtlType::S8 ==> spec_decode(info, val) == Ok::<SpecCtlValue, Seq<char>>(
            SpecCtlValue::S8(val[0] as i8),
        ),
        info.ctl_type == CtlType::U16 ==> spec_decode(info, le_bytes_u16(w)) == Ok::<SpecCtlValue, Seq<char>>(
            SpecCtlValue::U16(w),
        ),
        info.ctl_type == CtlType::Uint ==> spec_decode(info, le_bytes_u32(x)) == Ok::<SpecCtlValue, Seq<char>>(
            SpecCtlValue::Uint(x),
        ),
        info.ctl_type == CtlType::U32 ==> spec_decode(info, le_bytes_u32(x)) == Ok::<SpecCtlValue, Seq<char>>(
            SpecCtlValue::U32(x),
        ),
        info.ctl_type == CtlType::S64 ==> spec_decode(info, le_bytes_u64(y)) == Ok::<SpecCtlValue, Seq<char>>(
            SpecCtlValue::S64(y),
        ),
        info.ctl_type == CtlType::U64 ==> spec_decode(info, le_bytes_u64(y)) == Ok::<SpecCtlValue, Seq<char>>(
            SpecCtlValue::U64(y),
        ),
        info.ctl_type == CtlType::Ulong ==> spec_decode(info, le_bytes_u64(y)) == Ok::<SpecCtlValue, Seq<char>>(
            SpecCtlValue::Ulong(y),
        ),
{
    lemma_le_bytes_u16_read_back(w);
    lemma_le_bytes_read_back(x);
    lemma_le_bytes_u64_read_back(y);
}

/// Setting a number writes its bytes little-endian, in the width of its type
/// (two's complement for a signed type).
pub proof fn lemma_numbers_are_written_little_endian(v: SpecCtlValue)
    ensures
        v matches SpecCtlValue::Int(x) ==> value_bytes(v) == le_bytes_u32(x as u32),
        v matches SpecCtlValue::S32(x) ==> value_bytes(v) == le_bytes_u32(x as u32),
        v matches SpecCtlValue::Uint(x) ==> value_bytes(v) == le_bytes_u32(x),
        v matches SpecCtlValue::U32(x) ==> value_bytes(v) == le_bytes_u32(x),
        v matches SpecCtlValue::S64(x) ==> value_bytes(v) == le_bytes_u64(x),
        v matches SpecCtlValue::U64(x) ==> value_bytes(v) == le_bytes_u64(x),
        v matches SpecCtlValue::Ulong(x) ==> value_bytes(v) == le_bytes_u64(x),
        v matches SpecCtlValue::Long(x) ==> value_bytes(v) == le_bytes_u64(x as u64),
        v matches SpecCtlValue::U16(x) ==> value_bytes(v) == le_bytes_u16(x),
        v matches SpecCtlValue::S16(x) ==> value_bytes(v) == le_bytes_u16(x as u16),
        v matches SpecCtlValue::U8(x) ==> value_bytes(v) == seq![x],
        v matches SpecCtlValue::S8(x) ==> value_bytes(v) == seq![x as u8],
        v matches SpecCtlValue::String(t) ==> value_bytes(v) == encode_utf8(t),
        v matches SpecCtlValue::Node(b) ==> value_bytes(v) == b,
        v matches SpecCtlValue::Struct(b) ==> value_bytes(v) == b,
{
}

/// The OID of a name lookup is the integers that the kernel filled: the
/// first `len / 4` of the result, all of it when it holds fewer.
pub proof fn lemma_lookup_keeps_filled_integers(res: Seq<i32>, len: nat)
    ensures
        len / 4 <= res.len() ==> spec_trim_oid(res, len).len() == len / 4,
        len / 4 > res.len() ==> spec_trim_oid(res, len) == res,
        forall|i: int|
            0 <= i < spec_trim_oid(res, len).len() ==> #[trigger] spec_trim_oid(res, len)[i] == res[i],
{
}

/// A description is asked for the same OID that reading the value of the
/// name would use: the integers that the lookup filled.
pub proof fn lemma_description_uses_looked_up_oid(name: Seq<char>, res: Seq<i32>, len: nat)
    ensures
        admits(spec_description_query(name), SpecReply::Oid(res, len)),
        next(spec_description_query(name), SpecReply::Oid(res, len)).stage == SpecStage::Describe(
            spec_trim_oid(res, len),
        ),
        next(spec_value(name), SpecReply::Oid(res, len)).stage == SpecStage::Format(
            next(spec_description_query(name), SpecReply::Oid(res, len)).stage->Describe_0,
        ),
{
}

/// A format whose bytes start with `IK` makes a temperature, and no other.
pub proof fn lemma_ik_names_a_temperature(info: SpecCtlInfo)
    ensures
        names_temperature(info) <==> (fmt_bytes(info)[0] == 73u8 && fmt_bytes(info)[1] == 75u8),
{
}

/// A value that is not a temperature and not a number keeps its bytes: a
/// node or a struct as they are, a string as the UTF-8 text before the
/// terminating byte (an error when that is not UTF-8); a temperature type
/// has no reading.
pub proof fn lemma_bytes_and_strings_are_kept(info: SpecCtlInfo, val: Seq<u8>)
    requires
        !names_temperature(info),
    ensures
        info.ctl_type == CtlType::Node ==> spec_decode(info, val) == Ok::<SpecCtlValue, Seq<char>>(
            SpecCtlValue::Node(val),
        ),
        info.ctl_type == CtlType::Struct ==> spec_decode(info, val) == Ok::<SpecCtlValue, Seq<char>>(
            SpecCtlValue::Struct(val),
        ),
        info.ctl_type == CtlType::Temperature ==> spec_decode(info, val) == Err::<SpecCtlValue, Seq<char>>(
            no_match_text(),
        ),
        info.ctl_type == CtlType::String && val.len() >= 1 ==> {
            let text = val.subrange(0, val.len() - 1);
            &&& spec_decode(info, val) is Ok <==> valid_utf8(text)
            &&& spec_decode(info, val) matches Ok(SpecCtlValue::String(t)) ==> encode_utf8(t) == text
            &&& !valid_utf8(text) ==> spec_decode(info, val) == Err::<SpecCtlValue, Seq<char>>(
                bad_string_text(),
            )
        },
{
    broadcast use vstd::utf8::decode_utf8_encode_utf8;

    assert(val.take(val.len() - 1) =~= val.subrange(0, val.len() - 1));
}

/// A description is the UTF-8 text before the terminating byte of the
/// reply; a reply that is not UTF-8 there is refused.
pub proof fn lemma_description_is_text_before_terminator(buf: Seq<u8>, len: nat)
    requires
        1 <= len <= buf.len(),
    ensures
        spec_description(buf, len) is Ok <==> valid_utf8(buf.subrange(0, len - 1)),
        spec_description(buf, len) matches Ok(t) ==> encode_utf8(t) == buf.subrange(0, len - 1),
{
    broadcast use vstd::utf8::decode_utf8_encode_utf8;

}

/// A reply is taken only when it is complete: a format reply holds the kind
/// word within the buffer, a value reply fills exactly the size that was
/// asked for, a description reply holds its terminating byte, and a value
/// that is set has the type that the kernel reports.
pub proof fn lemma_admitted_replies_are_complete(q: SpecQuery, r: SpecReply)
    requires
        admits(q, r),
    ensures
        q.stage is Format && r is Buffer ==> 4 <= r->Buffer_1 <= r->Buffer_0.len(),
        q.stage is Format && q.goal is Write && r is Buffer && spec_oidfmt(r->Buffer_0, r->Buffer_1) is Ok
            ==> spec_oidfmt(r->Buffer_0, r->Buffer_1)->Ok_0.ctl_type == q.goal->Write_1.ctl_type(),
        q.stage is Fetch && r is Buffer ==> {
            &&& r->Buffer_0.len() == q.stage->Fetch_2
            &&& r->Buffer_1 == q.stage->Fetch_2
            &&& decode_admissible(q.stage->Fetch_1, r->Buffer_0)
        },
        q.stage is Describe && r is Buffer ==> 1 <= r->Buffer_1 <= r->Buffer_0.len(),
        q.stage is Done ==> false,
{
}

/// A whole number below `2^24` is a single precision number: rounding it
/// changes nothing.
pub proof fn lemma_small_numbers_round_exactly(n: nat)
    requires
        1 <= n < 0x100_0000,
    ensures
        ({
            let (m, t) = round_to_single(n, 1);
            m * vstd::arithmetic::power2::pow2(64) == n * vstd::arithmetic::power2::pow2(t)
        }),
{
    crate::rounding::lemma_rounds_small_numbers_exactly(n);
}

/// A struct query answers the bytes of a struct or node sysctl as they
/// came, and refuses any other value (a number, a string, a temperature)
/// with its own error; an error in decoding is passed on.
pub proof fn lemma_struct_query_answers_bytes(
    oid: Seq<i32>,
    info: SpecCtlInfo,
    n: nat,
    size: nat,
    val: Seq<u8>,
    len: nat,
)
    ensures
        ({
            let q = SpecQuery { goal: SpecGoal::ReadRaw(size), stage: SpecStage::Fetch(oid, info, n) };
            let after = next(q, SpecReply::Buffer(val, len)).stage;
            &&& !names_temperature(info) && (info.ctl_type == CtlType::Struct || info.ctl_type
                == CtlType::Node) ==> after == SpecStage::Done(Ok(SpecAnswer::Raw(val)))
            &&& (spec_decode(info, val) is Ok && !(spec_decode(info, val)->Ok_0 is Struct
                || spec_decode(info, val)->Ok_0 is Node)) ==> after == SpecStage::Done(
                Err(not_raw_text()),
            )
            &&& spec_decode(info, val) is Err ==> after == SpecStage::Done(
                Err(spec_decode(info, val)->Err_0),
            )
        }),
{
}

/// A description query answers the text before the terminating byte of the
/// reply.
pub proof fn lemma_description_query_answers_text(oid: Seq<i32>, buf: Seq<u8>, len: nat)
    requires
        1 <= len <= buf.len(),
        valid_utf8(buf.subrange(0, len - 1)),
    ensures
        ({
            let q = SpecQuery { goal: SpecGoal::Describe, stage: SpecStage::Describe(oid) };
            let after = next(q, SpecReply::Buffer(buf, len)).stage;
            &&& after is Done
            &&& after->Done_0 is Ok
            &&& after->Done_0->Ok_0 is Text
            &&& encode_utf8(after->Done_0->Ok_0->Text_0) == buf.subrange(0, len - 1)
        }),
{
    lemma_description_is_text_before_terminator(buf, len);
}

/// Kelvin are Kelvin at any scale: a reading of `k * scale` units equals, and
/// is ordered the same as, the reading `k` at scale one, when the reading is
/// a whole single precision number (below `2^24` in magnitude).
pub proof fn lemma_temperature_scale_divides_reading(a: Temperature, b: Temperature, k: int)
    requires
        1 <= a.scale_spec() <= 1_000_000_000,
        a.units_spec() == k * a.scale_spec(),
        b.units_spec() == k,
        b.scale_spec() == 1,
        -0x100_0000 < k * a.scale_spec() < 0x100_0000,
    ensures
        a.eq_spec(&b),
        a.partial_cmp_spec(&b) == Some(core::cmp::Ordering::Equal),
{
    crate::temperature::lemma_whole_kelvin_ignores_scale(a, b, k);
}

/// Whole numbers of Kelvin below `2^24`, read at scale one, compare as the
/// numbers do.
pub proof fn lemma_whole_kelvin_compare_as_numbers(a: Temperature, b: Temperature)
    requires
        a.scale_spec() == 1,
        b.scale_spec() == 1,
        -0x100_0000 < a.units_spec() < 0x100_0000,
        -0x100_0000 < b.units_spec() < 0x100_0000,
    ensures
        a.units_spec() < b.units_spec() <==> a.partial_cmp_spec(&b) == Some(core::cmp::Ordering::Less),
        a.units_spec() == b.units_spec() <==> a.eq_spec(&b),
        a.units_spec() > b.units_spec() <==> a.partial_cmp_spec(&b) == Some(core::cmp::Ordering::Greater),
{
    crate::temperature::lemma_whole_kelvin_order(a, b);
}

/// A value reply is taken whenever it fills the size asked for and holds the
/// bytes of its type: four for a 32-bit number, eight for a 64-bit one, two
/// for a 16-bit one, one for a byte or for a string's terminator, none for a
/// node or struct (a temperature format needs its digit to stand alone).
pub proof fn lemma_full_value_reply_is_taken(
    goal: SpecGoal,
    oid: Seq<i32>,
    info: SpecCtlInfo,
    val: Seq<u8>,
)
    requires
        goal is Read,
        is_char_boundary(fmt_bytes(info), 2),
        fmt_bytes(info).len() > 2 ==> is_char_boundary(fmt_bytes(info), 3),
        match info.ctl_type {
            CtlType::Int | CtlType::Uint | CtlType::S32 | CtlType::U32 => val.len() >= 4,
            CtlType::S64 | CtlType::Long | CtlType::Ulong | CtlType::U64 => val.len() >= 8,
            CtlType::U16 | CtlType::S16 => val.len() >= 2,
            CtlType::U8 | CtlType::S8 | CtlType::String => val.len() >= 1,
            _ => true,
        },
    ensures
        admits(
            SpecQuery { goal, stage: SpecStage::Fetch(oid, info, val.len()) },
            SpecReply::Buffer(val, val.len()),
        ),
{
}

/// A format reply is taken whenever it holds the kind word within the buffer
/// and names a type, and a description reply whenever it holds its
/// terminating byte.
pub proof fn lemma_complete_replies_are_taken(
    goal: SpecGoal,
    oid: Seq<i32>,
    buf: Seq<u8>,
    len: nat,
)
    requires
        !(goal is Write),
        1 <= len <= buf.len(),
    ensures
        4 <= len && kind_word(buf) % 16 != 0 ==> admits(
            SpecQuery { goal, stage: SpecStage::Format(oid) },
            SpecReply::Buffer(buf, len),
        ),
        admits(SpecQuery { goal, stage: SpecStage::Describe(oid) }, SpecReply::Buffer(buf, len)),
{
}

} // verus!
