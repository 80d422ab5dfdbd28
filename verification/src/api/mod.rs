//! API settings and the errors its handlers answer with.

use vstd::prelude::*;

verus! {

/// Everything the API needs, sourced from the environment.
#[derive(Clone, Debug)]
pub struct Config {
    pub database_url: String,
    pub redis_url: String,
    pub bind: String,
    pub db_max_connections: u32,
    /// Upper bound on a single test task.
    pub max_subtasks_per_test: usize,
    pub probe_timeout_ms: u64,
    /// Which adapter a `tool/plugin` pair resolves to when the request does not say.
    pub default_adapter: String,
    pub cors_allow_origin: String,
    pub seed_dir: String,
}

/// The span of `secs` seconds.
pub uninterp spec fn seconds_duration(secs: nat) -> std::time::Duration;

/// `Duration::from_secs`; its result is named by `seconds_duration`.
#[verifier::external_body]
fn duration_from_secs(secs: u64) -> (res: std::time::Duration)
    ensures
        res == seconds_duration(secs as nat),
{
    std::time::Duration::from_secs(secs)
}

impl Config {
    /// Requests other than the event streams are cut off after thirty seconds.
    pub fn request_timeout(&self) -> (res: std::time::Duration)
        ensures
            res == seconds_duration(30),
    {
        duration_from_secs(30)
    }
}

/// What a handler refuses a request with.
#[derive(Clone, Debug)]
pub enum ApiError {
    /// 400, with a message for the user.
    BadRequest(String),
    /// 404, naming what was not found.
    NotFound(String),
    /// 409, with a message for the user.
    Conflict(String),
}

} // verus!
