use crate::temperature::Temperature;
use vstd::prelude::*;

verus! {

/// The type of a sysctl, as the kernel reports it in the low bits of the
/// kind word, plus `Temperature` for the temperature format.
#[derive(Debug, Copy, Clone, PartialEq, Eq, Structural)]
pub enum CtlType {
    Node,
    Int,
    String,
    S64,
    Struct,
    Uint,
    Long,
    Ulong,
    U64,
    U8,
    U16,
    S8,
    S16,
    S32,
    U32,
    Temperature,
}

impl CtlType {
    /// The kernel's number for this type.
    pub open spec fn code(self) -> u32 {
        match self {
            CtlType::Node => 1,
            CtlType::Int => 2,
            CtlType::String => 3,
            CtlType::S64 => 4,
            CtlType::Struct => 5,
            CtlType::Uint => 6,
            CtlType::Long => 7,
            CtlType::Ulong => 8,
            CtlType::U64 => 9,
            CtlType::U8 => 10,
            CtlType::U16 => 11,
            CtlType::S8 => 12,
            CtlType::S16 => 13,
            CtlType::S32 => 14,
            CtlType::U32 => 15,
            CtlType::Temperature => 16,
        }
    }

    /// The type whose number is `code`, for `code` from 1 to 16.
    pub open spec fn with_code(code: u32) -> CtlType {
        if code == 1 {
            CtlType::Node
        } else if code == 2 {
            CtlType::Int
        } else if code == 3 {
            CtlType::String
        } else if code == 4 {
            CtlType::S64
        } else if code == 5 {
            CtlType::Struct
        } else if code == 6 {
            CtlType::Uint
        } else if code == 7 {
            CtlType::Long
        } else if code == 8 {
            CtlType::Ulong
        } else if code == 9 {
            CtlType::U64
        } else if code == 10 {
            CtlType::U8
        } else if code == 11 {
            CtlType::U16
        } else if code == 12 {
            CtlType::S8
        } else if code == 13 {
            CtlType::S16
        } else if code == 14 {
            CtlType::S32
        } else if code == 15 {
            CtlType::U32
        } else {
            CtlType::Temperature
        }
    }

    /// The type whose number is `code`; the numbers run from 1 to 16.
    pub fn from_code(code: u32) -> (t: CtlType)
        requires
            1 <= code <= 16,
        ensures
            t.code() == code,
            t == CtlType::with_code(code),
    {
        match code {
            1 => CtlType::Node,
            2 => CtlType::Int,
            3 => CtlType::String,
            4 => CtlType::S64,
            5 => CtlType::Struct,
            6 => CtlType::Uint,
            7 => CtlType::Long,
            8 => CtlType::Ulong,
            9 => CtlType::U64,
            10 => CtlType::U8,
            11 => CtlType::U16,
            12 => CtlType::S8,
            13 => CtlType::S16,
            14 => CtlType::S32,
            15 => CtlType::U32,
            _ => CtlType::Temperature,
        }
    }
}

} // verus!

verus! {

/// A value read from a sysctl, in the variant of its type.
#[derive(Debug, PartialEq, PartialOrd)]
pub enum CtlValue {
    Node(Vec<u8>),
    Int(i32),
    String(String),
    S64(u64),
    Struct(Vec<u8>),
    Uint(u32),
    Long(i64),
    Ulong(u64),
    U64(u64),
    U8(u8),
    U16(u16),
    S8(i8),
    S16(i16),
    S32(i32),
    U32(u32),
    Temperature(Temperature),
}

/// What a `CtlValue` holds: bytes as a sequence, text as its characters, a
/// temperature as the fraction `units / scale` Kelvin.
pub enum SpecCtlValue {
    Node(Seq<u8>),
    Int(i32),
    String(Seq<char>),
    S64(u64),
    Struct(Seq<u8>),
    Uint(u32),
    Long(i64),
    Ulong(u64),
    U64(u64),
    U8(u8),
    U16(u16),
    S8(i8),
    S16(i16),
    S32(i32),
    U32(u32),
    Temperature(int, nat),
}

impl SpecCtlValue {
    /// The type whose variant this value is.
    pub open spec fn ctl_type(self) -> CtlType {
        match self {
            SpecCtlValue::Node(_) => CtlType::Node,
            SpecCtlValue::Int(_) => CtlType::Int,
            SpecCtlValue::String(_) => CtlType::String,
            SpecCtlValue::S64(_) => CtlType::S64,
            SpecCtlValue::Struct(_) => CtlType::Struct,
            SpecCtlValue::Uint(_) => CtlType::Uint,
            SpecCtlValue::Long(_) => CtlType::Long,
            SpecCtlValue::Ulong(_) => CtlType::Ulong,
            SpecCtlValue::U64(_) => CtlType::U64,
            SpecCtlValue::U8(_) => CtlType::U8,
            SpecCtlValue::U16(_) => CtlType::U16,
            SpecCtlValue::S8(_) => CtlType::S8,
            SpecCtlValue::S16(_) => CtlType::S16,
            SpecCtlValue::S32(_) => CtlType::S32,
            SpecCtlValue::U32(_) => CtlType::U32,
            SpecCtlValue::Temperature(_, _) => CtlType::Temperature,
        }
    }
}

impl View for CtlValue {
    type V = SpecCtlValue;

    open spec fn view(&self) -> SpecCtlValue {
        match self {
            CtlValue::Node(v) => SpecCtlValue::Node(v@),
            CtlValue::Int(x) => SpecCtlValue::Int(*x),
            CtlValue::String(s) => SpecCtlValue::String(s@),
            CtlValue::S64(x) => SpecCtlValue::S64(*x),
            CtlValue::Struct(v) => SpecCtlValue::Struct(v@),
            CtlValue::Uint(x) => SpecCtlValue::Uint(*x),
            CtlValue::Long(x) => SpecCtlValue::Long(*x),
            CtlValue::Ulong(x) => SpecCtlValue::Ulong(*x),
            CtlValue::U64(x) => SpecCtlValue::U64(*x),
            CtlValue::U8(x) => SpecCtlValue::U8(*x),
            CtlValue::U16(x) => SpecCtlValue::U16(*x),
            CtlValue::S8(x) => SpecCtlValue::S8(*x),
            CtlValue::S16(x) => SpecCtlValue::S16(*x),
            CtlValue::S32(x) => SpecCtlValue::S32(*x),
            CtlValue::U32(x) => SpecCtlValue::U32(*x),
            CtlValue::Temperature(t) => SpecCtlValue::Temperature(t.units_spec(), t.scale_spec()),
        }
    }
}

impl<'a> From<&'a CtlValue> for CtlType {
    fn from(t: &'a CtlValue) -> (r: CtlType) {
        match t {
            CtlValue::Node(_) => CtlType::Node,
            CtlValue::Int(_) => CtlType::Int,
            CtlValue::String(_) => CtlType::String,
            CtlValue::S64(_) => CtlType::S64,
            CtlValue::Struct(_) => CtlType::Struct,
            CtlValue::Uint(_) => CtlType::Uint,
            CtlValue::Long(_) => CtlType::Long,
            CtlValue::Ulong(_) => CtlType::Ulong,
            CtlValue::U64(_) => CtlType::U64,
            CtlValue::U8(_) => CtlType::U8,
            CtlValue::U16(_) => CtlType::U16,
            CtlValue::S8(_) => CtlType::S8,
            CtlValue::S16(_) => CtlType::S16,
            CtlValue::S32(_) => CtlType::S32,
            CtlValue::U32(_) => CtlType::U32,
            CtlValue::Temperature(_) => CtlType::Temperature,
        }
    }
}

impl<'a> vstd::std_specs::convert::FromSpecImpl<&'a CtlValue> for CtlType {
    open spec fn obeys_from_spec() -> bool {
        true
    }

    open spec fn from_spec(t: &'a CtlValue) -> CtlType {
        t@.ctl_type()
    }
}

/// What the kernel reports of a sysctl's format: its type, its format
/// string and its flags (the whole kind word).
#[derive(Debug, PartialEq)]
pub struct CtlInfo {
    pub ctl_type: CtlType,
    pub fmt: String,
    pub flags: u32,
}

/// What a `CtlInfo` holds, its format string as characters.
pub struct SpecCtlInfo {
    pub ctl_type: CtlType,
    pub fmt: Seq<char>,
    pub flags: u32,
}

impl View for CtlInfo {
    type V = SpecCtlInfo;

    open spec fn view(&self) -> SpecCtlInfo {
        SpecCtlInfo { ctl_type: self.ctl_type, fmt: self.fmt@, flags: self.flags }
    }
}

} // verus!
