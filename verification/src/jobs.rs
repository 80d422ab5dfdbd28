//! Payloads placed on the Redis streams, the events published back out for live
//! updates, and the names of the channels they travel on. Identifiers are UUIDs held as
//! their 128-bit value.

use vstd::prelude::*;

use crate::status::{ExecStatus, KemRunMode, ResultStatus};
use crate::text::concat;

verus! {

pub const STREAM_PROBE: &'static str = "jobs:probe";

pub const STREAM_KEM: &'static str = "jobs:kem";

pub const CONSUMER_GROUP: &'static str = "workers";

/// Lowercase hexadecimal digit of a value below 16.
pub open spec fn hex_digit(d: nat) -> char {
    if d < 10 {
        (0x30 + d) as char
    } else {
        (0x57 + d) as char
    }
}

/// The `k`-th of the 32 hexadecimal digits of `v`, most significant first.
pub open spec fn nibble(v: u128, k: int) -> nat {
    ((v >> ((124 - 4 * k) as u128)) & 0xf) as nat
}

/// Digit positions skip the hyphens after the 8th, 12th, 16th and 20th digit.
pub open spec fn digit_at(i: int) -> int {
    if i < 8 {
        i
    } else if i < 13 {
        i - 1
    } else if i < 18 {
        i - 2
    } else if i < 23 {
        i - 3
    } else {
        i - 4
    }
}

/// The hyphenated lowercase form of a UUID, `xxxxxxxx-xxxx-xxxx-xxxx-xxxxxxxxxxxx`, with
/// the 128-bit value's digits most significant first.
pub open spec fn uuid_text(v: u128) -> Seq<char> {
    Seq::new(
        36,
        |i: int|
            if i == 8 || i == 13 || i == 18 || i == 23 {
                '-'
            } else {
                hex_digit(nibble(v, digit_at(i)))
            },
    )
}

/// `uuid::Uuid::from_u128(id).hyphenated().to_string()`: the crate documents
/// `from_u128` as taking the value's big-endian bytes and the hyphenated form as
/// lowercase hex in 8-4-4-4-12 groups, which `uuid_text` states.
#[verifier::external_body]
fn uuid_hyphenated(id: u128) -> (res: String)
    ensures
        res@ == uuid_text(id),
{
    uuid::Uuid::from_u128(id).hyphenated().to_string()
}

/// The pub/sub channel a test's live events are published on.
pub fn test_channel(test_id: u128) -> (res: String)
    ensures
        res@ == "events:test:"@ + uuid_text(test_id),
{
    let id = uuid_hyphenated(test_id);
    concat("events:test:", id.as_str())
}

/// The pub/sub channel a KEM run's live events are published on.
pub fn kem_channel(run_id: u128) -> (res: String)
    ensures
        res@ == "events:kem:"@ + uuid_text(run_id),
{
    let id = uuid_hyphenated(run_id);
    concat("events:kem:", id.as_str())
}

/// One subtask handed to a worker: a single handshake against one target.
#[derive(Clone, Debug)]
pub struct ProbeJob {
    pub test_id: u128,
    pub subtask_id: u128,
    pub host: String,
    pub port: u16,
    pub http_path: String,
    pub adapter: String,
    pub group_name: String,
    pub sig_alg: String,
    pub timeout_ms: u64,
}

/// A KEM DEMO run; the worker expands it into many handshakes itself because the modes
/// need sequential decisions.
#[derive(Clone, Debug)]
pub struct KemJob {
    pub run_id: u128,
    pub mode: KemRunMode,
    pub host: String,
    pub port: u16,
    pub kem_groups: Vec<String>,
}

#[derive(Clone, Debug)]
pub enum TestEvent {
    SubtaskUpdated {
        subtask_id: u128,
        exec_status: ExecStatus,
        result_status: ResultStatus,
        group_name: String,
        sig_alg: String,
    },
    TestFinished { test_id: u128, passed: u32, failed: u32 },
}

#[derive(Clone, Debug)]
pub enum KemEvent {
    Log { seq: i32, at: String, level: String, message: String },
    Cell { kem: String, adapter: String, verdict: ResultStatus, detail: Option<String> },
    Finished { run_id: u128 },
}

} // verus!
