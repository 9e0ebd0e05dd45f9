//! A verified model of the FreeBSD `sysctl` interface: the decoding of the
//! kernel's replies into typed values, and the query protocol that drives the
//! system calls, one reply at a time.
//!
//! A query (`value`, `value_oid`, `value_as`, `value_oid_as`, `set_value`,
//! `description`) names in its `stage` the system call that it needs next;
//! the caller makes that call and hands the reply to `Query::step`, until the
//! stage is `Stage::Done`.
pub mod codec;
pub mod consts;
pub mod decode;
pub mod laws;
pub mod query;
pub mod rounding;
pub mod temperature;
pub mod types;

pub use decode::{decode_value, description_text, encode_value, oidfmt, temperature, trim_oid};
pub use query::{
    description, set_value, value, value_as, value_oid, value_oid_as, Answer, Goal, Query, Reply,
    Stage,
};
pub use temperature::Temperature;
pub use types::{CtlInfo, CtlType, CtlValue};
