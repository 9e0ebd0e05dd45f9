//! The sysctl protocol as a state machine. A query says which system call it
//! needs next (its stage); the caller makes the call and hands back the
//! reply; `Query::step` decides what follows, until the query is done.
use crate::decode::{
    decode_admissible, decode_admits, encode_value, oidfmt_admits, value_bytes, decode_value, description_text, oidfmt, oidfmt_admissible, spec_decode,
    spec_description, spec_oidfmt, spec_trim_oid, trim_oid,
};
use crate::types::{CtlInfo, CtlType, CtlValue, SpecCtlInfo, SpecCtlValue};
use vstd::prelude::*;

verus! {

/// What a query is after.
#[derive(Debug, PartialEq)]
pub enum Goal {
    /// The value of the sysctl.
    Read,
    /// The bytes of a struct or opaque sysctl, which must be this many.
    ReadRaw(usize),
    /// To set the sysctl of this name to this value, of its type, then read
    /// it again.
    Write(String, CtlValue),
    /// The description of the sysctl.
    Describe,
}

/// The view of a `Goal`.
pub enum SpecGoal {
    Read,
    ReadRaw(nat),
    Write(Seq<char>, SpecCtlValue),
    Describe,
}

/// What a finished query hands back.
#[derive(Debug, PartialEq)]
pub enum Answer {
    /// A value, in the variant of its type.
    Value(CtlValue),
    /// The bytes of a struct or opaque sysctl.
    Raw(Vec<u8>),
    /// A description.
    Text(String),
}

/// The view of an `Answer`.
pub enum SpecAnswer {
    Value(SpecCtlValue),
    Raw(Seq<u8>),
    Text(Seq<char>),
}

/// Where a query stands: each stage but the last names the system call that
/// the query waits for.
#[derive(Debug, PartialEq)]
pub enum Stage {
    /// Look up the OID of this name.
    Resolve(String),
    /// Ask for the format of this OID.
    Format(Vec<i32>),
    /// Ask for the size of the value of this OID, whose format is known.
    Size(Vec<i32>, CtlInfo),
    /// Read the value of this OID, into a buffer of this many bytes.
    Fetch(Vec<i32>, CtlInfo, usize),
    /// Write these bytes to this OID, then read the sysctl of this name.
    Store(String, Vec<i32>, Vec<u8>),
    /// Ask for the description of this OID.
    Describe(Vec<i32>),
    /// The query is done, with this result.
    Done(Result<Answer, String>),
}

/// The view of a `Stage`.
pub enum SpecStage {
    Resolve(Seq<char>),
    Format(Seq<i32>),
    Size(Seq<i32>, SpecCtlInfo),
    Fetch(Seq<i32>, SpecCtlInfo, nat),
    Store(Seq<char>, Seq<i32>, Seq<u8>),
    Describe(Seq<i32>),
    Done(Result<SpecAnswer, Seq<char>>),
}

/// What the system call of a stage gave back.
#[derive(Debug, PartialEq)]
pub enum Reply {
    /// The call failed; the text of its errno.
    Failed(String),
    /// A name lookup: the integers of the result buffer, and the number of
    /// bytes the kernel filled.
    Oid(Vec<i32>, usize),
    /// A format, value or description: the buffer, and the number of bytes
    /// the kernel reported.
    Buffer(Vec<u8>, usize),
    /// The size of a value, in bytes.
    Size(usize),
    /// The write went through.
    Stored,
}

/// The view of a `Reply`.
pub enum SpecReply {
    Failed(Seq<char>),
    Oid(Seq<i32>, nat),
    Buffer(Seq<u8>, nat),
    Size(nat),
    Stored,
}

/// A query: what it is after, and where it stands.
#[derive(Debug, PartialEq)]
pub struct Query {
    pub goal: Goal,
    pub stage: Stage,
}

/// The view of a `Query`.
pub struct SpecQuery {
    pub goal: SpecGoal,
    pub stage: SpecStage,
}

impl View for Goal {
    type V = SpecGoal;

    open spec fn view(&self) -> SpecGoal {
        match self {
            Goal::Read => SpecGoal::Read,
            Goal::ReadRaw(n) => SpecGoal::ReadRaw(*n as nat),
            Goal::Write(name, v) => SpecGoal::Write(name@, v@),
            Goal::Describe => SpecGoal::Describe,
        }
    }
}

impl View for Answer {
    type V = SpecAnswer;

    open spec fn view(&self) -> SpecAnswer {
        match self {
            Answer::Value(v) => SpecAnswer::Value(v@),
            Answer::Raw(b) => SpecAnswer::Raw(b@),
            Answer::Text(s) => SpecAnswer::Text(s@),
        }
    }
}

/// A result holding an answer, by the views.
pub open spec fn answer_result(r: Result<Answer, String>) -> Result<SpecAnswer, Seq<char>> {
    match r {
        Ok(a) => Ok(a@),
        Err(e) => Err(e@),
    }
}

impl View for Stage {
    type V = SpecStage;

    open spec fn view(&self) -> SpecStage {
        match self {
            Stage::Resolve(name) => SpecStage::Resolve(name@),
            Stage::Format(oid) => SpecStage::Format(oid@),
            Stage::Size(oid, info) => SpecStage::Size(oid@, info@),
            Stage::Fetch(oid, info, n) => SpecStage::Fetch(oid@, info@, *n as nat),
            Stage::Store(name, oid, bytes) => SpecStage::Store(name@, oid@, bytes@),
            Stage::Describe(oid) => SpecStage::Describe(oid@),
            Stage::Done(r) => SpecStage::Done(answer_result(*r)),
        }
    }
}

impl View for Reply {
    type V = SpecReply;

    open spec fn view(&self) -> SpecReply {
        match self {
            Reply::Failed(e) => SpecReply::Failed(e@),
            Reply::Oid(res, len) => SpecReply::Oid(res@, *len as nat),
            Reply::Buffer(buf, len) => SpecReply::Buffer(buf@, *len as nat),
            Reply::Size(n) => SpecReply::Size(*n as nat),
            Reply::Stored => SpecReply::Stored,
        }
    }
}

impl View for Query {
    type V = SpecQuery;

    open spec fn view(&self) -> SpecQuery {
        SpecQuery { goal: self.goal@, stage: self.stage@ }
    }
}

/// The error text for a value that is neither a struct nor opaque.
pub open spec fn not_raw_text() -> Seq<char> {
    "Error extracting value"@
}

/// The bytes of a decoded struct or node; an error for any other value.
pub open spec fn raw_answer(d: Result<SpecCtlValue, Seq<char>>) -> Result<SpecAnswer, Seq<char>> {
    match d {
        Ok(SpecCtlValue::Struct(b)) => Ok(SpecAnswer::Raw(b)),
        Ok(SpecCtlValue::Node(b)) => Ok(SpecAnswer::Raw(b)),
        Ok(_) => Err(not_raw_text()),
        Err(e) => Err(e),
    }
}

/// A decoded value as an answer.
pub open spec fn value_answer(d: Result<SpecCtlValue, Seq<char>>) -> Result<SpecAnswer, Seq<char>> {
    match d {
        Ok(v) => Ok(SpecAnswer::Value(v)),
        Err(e) => Err(e),
    }
}

/// The query after a format reply that says `info`.
pub open spec fn after_format(goal: SpecGoal, oid: Seq<i32>, info: SpecCtlInfo) -> SpecQuery {
    match goal {
        SpecGoal::Write(name, v) => SpecQuery { goal, stage: SpecStage::Store(name, oid, value_bytes(v)) },
        _ => SpecQuery { goal, stage: SpecStage::Size(oid, info) },
    }
}

/// The query after the value bytes `val` of a sysctl with format `info`.
pub open spec fn after_fetch(goal: SpecGoal, info: SpecCtlInfo, val: Seq<u8>) -> SpecQuery {
    let d = spec_decode(info, val);
    match goal {
        SpecGoal::ReadRaw(_) => SpecQuery { goal, stage: SpecStage::Done(raw_answer(d)) },
        _ => SpecQuery { goal, stage: SpecStage::Done(value_answer(d)) },
    }
}

/// The query that follows `q` on the reply `r`. A failed call ends the query
/// with its errno text; a reply that does not fit the stage leaves it as it
/// is.
pub open spec fn next(q: SpecQuery, r: SpecReply) -> SpecQuery {
    match (q.stage, r) {
        (SpecStage::Done(_), _) => q,
        (_, SpecReply::Failed(e)) => SpecQuery { goal: q.goal, stage: SpecStage::Done(Err(e)) },
        (SpecStage::Resolve(_), SpecReply::Oid(res, len)) => {
            let oid = spec_trim_oid(res, len);
            match q.goal {
                SpecGoal::Describe => SpecQuery { goal: q.goal, stage: SpecStage::Describe(oid) },
                _ => SpecQuery { goal: q.goal, stage: SpecStage::Format(oid) },
            }
        },
        (SpecStage::Format(oid), SpecReply::Buffer(buf, len)) => match spec_oidfmt(buf, len) {
            Ok(info) => after_format(q.goal, oid, info),
            Err(e) => SpecQuery { goal: q.goal, stage: SpecStage::Done(Err(e)) },
        },
        (SpecStage::Size(oid, info), SpecReply::Size(n)) => SpecQuery {
            goal: q.goal,
            stage: SpecStage::Fetch(oid, info, n),
        },
        (SpecStage::Fetch(_, info, _), SpecReply::Buffer(val, _)) => after_fetch(q.goal, info, val),
        (SpecStage::Store(name, _, _), SpecReply::Stored) => SpecQuery {
            goal: SpecGoal::Read,
            stage: SpecStage::Resolve(name),
        },
        (SpecStage::Describe(_), SpecReply::Buffer(buf, len)) => SpecQuery {
            goal: q.goal,
            stage: SpecStage::Done(
                match spec_description(buf, len) {
                    Ok(t) => Ok(SpecAnswer::Text(t)),
                    Err(e) => Err(e),
                },
            ),
        },
        _ => q,
    }
}

/// The struct or node that a value decodes to has the size the caller asked
/// for.
pub open spec fn raw_size_fits(d: Result<SpecCtlValue, Seq<char>>, size: nat) -> bool {
    match d {
        Ok(SpecCtlValue::Struct(b)) => b.len() == size,
        Ok(SpecCtlValue::Node(b)) => b.len() == size,
        _ => true,
    }
}

/// The replies that `q` takes: one that fits its stage, on which reading
/// does not panic (a failed call fits every stage but the last).
pub open spec fn admits(q: SpecQuery, r: SpecReply) -> bool {
    match (q.stage, r) {
        (SpecStage::Done(_), _) => false,
        (_, SpecReply::Failed(_)) => true,
        (SpecStage::Resolve(_), SpecReply::Oid(_, _)) => true,
        (SpecStage::Format(_), SpecReply::Buffer(buf, len)) => {
            &&& oidfmt_admissible(buf, len)
            &&& q.goal is Write && spec_oidfmt(buf, len) is Ok ==> spec_oidfmt(buf, len)->Ok_0.ctl_type
                == q.goal->Write_1.ctl_type()
        },
        (SpecStage::Size(_, _), SpecReply::Size(_)) => true,
        (SpecStage::Fetch(_, info, n), SpecReply::Buffer(val, len)) => {
            &&& val.len() == n
            &&& len == n
            &&& decode_admissible(info, val)
            &&& q.goal is ReadRaw ==> raw_size_fits(spec_decode(info, val), q.goal->ReadRaw_0)
        },
        (SpecStage::Store(_, _, _), SpecReply::Stored) => true,
        (SpecStage::Describe(_), SpecReply::Buffer(buf, len)) => 1 <= len <= buf.len(),
        _ => false,
    }
}

impl Query {
    /// Takes the reply to the system call of the current stage and moves the
    /// query on, as `next` says.
    pub fn step(self, reply: Reply) -> (q: Query)
        requires
            admits(self@, reply@),
        ensures
            q@ == next(self@, reply@),
    {
        let Query { goal, stage } = self;
        match (stage, reply) {
            (Stage::Done(r), _) => Query { goal, stage: Stage::Done(r) },
            (_, Reply::Failed(e)) => Query { goal, stage: Stage::Done(Err(e)) },
            (Stage::Resolve(_), Reply::Oid(res, len)) => {
                let oid = trim_oid(res, len);
                match goal {
                    Goal::Describe => Query { goal: Goal::Describe, stage: Stage::Describe(oid) },
                    g => Query { goal: g, stage: Stage::Format(oid) },
                }
            },
            (Stage::Format(oid), Reply::Buffer(buf, len)) => match oidfmt(buf.as_slice(), len) {
                Err(e) => Query { goal, stage: Stage::Done(Err(e)) },
                Ok(info) => match goal {
                    Goal::Write(name, v) => {
                        let bytes = encode_value(&v);
                        let n = name.clone();
                        Query { goal: Goal::Write(n, v), stage: Stage::Store(name, oid, bytes) }
                    },
                    g => Query { goal: g, stage: Stage::Size(oid, info) },
                },
            },
            (Stage::Size(oid, info), Reply::Size(n)) => Query { goal, stage: Stage::Fetch(oid, info, n) },
            (Stage::Fetch(_, info, _), Reply::Buffer(val, _)) => {
                let d = decode_value(&info, val);
                match goal {
                    Goal::ReadRaw(size) => {
                        let r = match d {
                            Ok(CtlValue::Struct(b)) => Ok(Answer::Raw(b)),
                            Ok(CtlValue::Node(b)) => Ok(Answer::Raw(b)),
                            Ok(_) => Err("Error extracting value".to_owned()),
                            Err(e) => Err(e),
                        };
                        Query { goal: Goal::ReadRaw(size), stage: Stage::Done(r) }
                    },
                    g => {
                        let r = match d {
                            Ok(v) => Ok(Answer::Value(v)),
                            Err(e) => Err(e),
                        };
                        Query { goal: g, stage: Stage::Done(r) }
                    },
                }
            },
            (Stage::Store(name, _, _), Reply::Stored) => Query { goal: Goal::Read, stage: Stage::Resolve(name) },
            (Stage::Describe(_), Reply::Buffer(buf, len)) => {
                let r = match description_text(buf.as_slice(), len) {
                    Ok(t) => Ok(Answer::Text(t)),
                    Err(e) => Err(e),
                };
                Query { goal, stage: Stage::Done(r) }
            },
            (stage, _) => Query { goal, stage },
        }
    }
}

/// The query that reads the value of the sysctl named `name`.
pub open spec fn spec_value(name: Seq<char>) -> SpecQuery {
    SpecQuery { goal: SpecGoal::Read, stage: SpecStage::Resolve(name) }
}

/// The query that reads the value of the sysctl with OID `oid`.
pub open spec fn spec_value_oid(oid: Seq<i32>) -> SpecQuery {
    SpecQuery { goal: SpecGoal::Read, stage: SpecStage::Format(oid) }
}

/// The query that reads the `size` bytes of the struct sysctl named `name`.
pub open spec fn spec_value_as(name: Seq<char>, size: nat) -> SpecQuery {
    SpecQuery { goal: SpecGoal::ReadRaw(size), stage: SpecStage::Resolve(name) }
}

/// The query that reads the `size` bytes of the struct sysctl with OID `oid`.
pub open spec fn spec_value_oid_as(oid: Seq<i32>, size: nat) -> SpecQuery {
    SpecQuery { goal: SpecGoal::ReadRaw(size), stage: SpecStage::Format(oid) }
}

/// The query that sets the sysctl named `name` to `value` and reads it back.
pub open spec fn spec_set_value(name: Seq<char>, value: SpecCtlValue) -> SpecQuery {
    SpecQuery { goal: SpecGoal::Write(name, value), stage: SpecStage::Resolve(name) }
}

/// The query that reads the description of the sysctl named `name`.
pub open spec fn spec_description_query(name: Seq<char>) -> SpecQuery {
    SpecQuery { goal: SpecGoal::Describe, stage: SpecStage::Resolve(name) }
}

/// Reads the value of the sysctl named `name`: looks up its OID, then goes on
/// as `value_oid`.
pub fn value(name: &str) -> (q: Query)
    ensures
        q@ == spec_value(name@),
{
    Query { goal: Goal::Read, stage: Stage::Resolve(name.to_owned()) }
}

/// Reads the value of the sysctl with OID `oid`: asks for its format, then
/// for the size of its value, then for the value, and decodes it.
pub fn value_oid(oid: &Vec<i32>) -> (q: Query)
    ensures
        q@ == spec_value_oid(oid@),
{
    Query { goal: Goal::Read, stage: Stage::Format(oid.clone()) }
}

/// Reads the struct or opaque sysctl named `name`, whose bytes must be as
/// many as a `T` takes.
pub fn value_as<T>(name: &str) -> (q: Query)
    ensures
        q@ == spec_value_as(name@, vstd::layout::size_of::<T>()),
{
    Query { goal: Goal::ReadRaw(core::mem::size_of::<T>()), stage: Stage::Resolve(name.to_owned()) }
}

/// Reads the struct or opaque sysctl with OID `oid`, whose bytes must be as
/// many as a `T` takes.
pub fn value_oid_as<T>(oid: &Vec<i32>) -> (q: Query)
    ensures
        q@ == spec_value_oid_as(oid@, vstd::layout::size_of::<T>()),
{
    Query { goal: Goal::ReadRaw(core::mem::size_of::<T>()), stage: Stage::Format(oid.clone()) }
}

/// Sets the sysctl named `name` to `value`, which must be of its type: looks
/// up its OID, checks its format, writes the bytes of `value`, then reads its
/// value again by name.
pub fn set_value(name: &str, value: CtlValue) -> (q: Query)
    ensures
        q@ == spec_set_value(name@, value@),
{
    Query { goal: Goal::Write(name.to_owned(), value), stage: Stage::Resolve(name.to_owned()) }
}

/// Reads the description of the sysctl named `name`.
pub fn description(name: &str) -> (q: Query)
    ensures
        q@ == spec_description_query(name@),
{
    Query { goal: Goal::Describe, stage: Stage::Resolve(name.to_owned()) }
}

impl Query {
    /// Whether `step` takes `reply` in the current stage: the reply fits the
    /// stage, and reading it does not hit a case on which the kernel's
    /// answer cannot be taken (a format without a type, a value of the wrong
    /// size, a type other than the one being set).
    pub fn admits(&self, reply: &Reply) -> (b: bool)
        ensures
            b == admits(self@, reply@),
    {
        match (&self.stage, reply) {
            (Stage::Done(_), _) => false,
            (_, Reply::Failed(_)) => true,
            (Stage::Resolve(_), Reply::Oid(_, _)) => true,
            (Stage::Format(_), Reply::Buffer(buf, len)) => {
                if !oidfmt_admits(buf.as_slice(), *len) {
                    return false;
                }
                match &self.goal {
                    Goal::Write(_, v) => match oidfmt(buf.as_slice(), *len) {
                        Ok(info) => info.ctl_type == CtlType::from(v),
                        Err(_) => true,
                    },
                    _ => true,
                }
            },
            (Stage::Size(_, _), Reply::Size(_)) => true,
            (Stage::Fetch(_, info, n), Reply::Buffer(val, len)) => {
                if val.len() != *n || *len != *n || !decode_admits(info, val) {
                    return false;
                }
                match &self.goal {
                    Goal::ReadRaw(size) => {
                        if info.is_temperature() {
                            true
                        } else {
                            match info.ctl_type {
                                CtlType::Node | CtlType::Struct => val.len() == *size,
                                _ => true,
                            }
                        }
                    },
                    _ => true,
                }
            },
            (Stage::Store(_, _, _), Reply::Stored) => true,
            (Stage::Describe(_), Reply::Buffer(buf, len)) => 1 <= *len && *len <= buf.len(),
            _ => false,
        }
    }
}

} // verus!
