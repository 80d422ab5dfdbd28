//! Records as they cross the API boundary. Identifiers are UUIDs held as their 128-bit
//! value and instants as their RFC 3339 text, which is how they appear on the wire.

use vstd::prelude::*;

use crate::routes::health::signed_decimal;
use crate::routes::tests::target_label;
use crate::status::TaskStatus;

verus! {

/// One entry of the seeded algorithm catalog. A disabled entry is rendered greyed out,
/// which is how the KEM DEMO screen shows algorithms the lab has not turned on.
#[derive(Clone, Debug)]
pub struct Algorithm {
    pub id: i32,
    /// `kem_group` or `sig_alg`.
    pub kind: String,
    pub name: String,
    pub display_name: String,
    pub family: Option<String>,
    pub enabled: bool,
    pub sort_order: i32,
}

/// A test task as stored and listed.
#[derive(Clone, Debug)]
pub struct Test {
    pub id: u128,
    pub host: String,
    pub port: i32,
    pub http_path: String,
    pub method: String,
    pub tool: String,
    pub plugin: String,
    pub status: TaskStatus,
    pub group_count: i32,
    pub sig_alg_count: i32,
    pub subtask_count: i32,
    pub created_at: String,
    pub started_at: Option<String>,
    pub finished_at: Option<String>,
}

impl Test {
    /// The `host:port` string used as the page title and breadcrumb leaf.
    pub fn display_target(&self) -> (res: String)
        ensures
            res@ == self.host@ + ":"@ + signed_decimal(self.port as int),
    {
        target_label(self.host.as_str(), self.port)
    }
}

} // verus!
