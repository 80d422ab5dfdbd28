//! KEM DEMO runs as the API accepts them.

use vstd::prelude::*;

use crate::api::ApiError;
use crate::status::KemRunMode;
use crate::text::{concat, owned};

verus! {

/// A KEM DEMO run as submitted.
#[derive(Clone, Debug)]
pub struct NewKemRun {
    pub mode: KemRunMode,
    /// Endpoint slug from the target dropdown.
    pub endpoint: String,
    /// Selected key_share groups; the priority mode decides its own offers.
    pub kem_groups: Vec<String>,
}

/// Paging of the run list.
#[derive(Clone, Copy, Debug, PartialEq, Eq, Structural)]
pub struct ListQuery {
    pub limit: i64,
}

pub fn default_limit() -> (res: i64)
    ensures
        res == 25,
{
    25
}

impl ListQuery {
    /// The requested page size, kept between 1 and 100.
    pub fn effective_limit(&self) -> (res: i64)
        ensures
            res == if self.limit < 1 {
                1
            } else if self.limit > 100 {
                100
            } else {
                self.limit
            },
    {
        if self.limit < 1 {
            1
        } else if self.limit > 100 {
            100
        } else {
            self.limit
        }
    }
}

/// A run is refused on a disabled endpoint, and a group handshake needs at least one
/// group.
pub fn check_run(body: &NewKemRun, endpoint_slug: &str, endpoint_enabled: bool) -> (res: Result<
    (),
    ApiError,
>)
    ensures
        !endpoint_enabled ==> (res matches Err(ApiError::Conflict(m)) && m@ == "endpoint "@
            + endpoint_slug@ + " is disabled"@),
        endpoint_enabled && body.mode == KemRunMode::GroupCompat && body.kem_groups@.len() == 0
            ==> (res matches Err(ApiError::BadRequest(m)) && m@
            == "select at least one key_share group"@),
        endpoint_enabled && !(body.mode == KemRunMode::GroupCompat && body.kem_groups@.len() == 0)
            ==> res is Ok,
{
    if !endpoint_enabled {
        let mut m = concat("endpoint ", endpoint_slug);
        m.append(" is disabled");
        return Err(ApiError::Conflict(m));
    }
    if body.mode == KemRunMode::GroupCompat && body.kem_groups.len() == 0 {
        return Err(ApiError::BadRequest(owned("select at least one key_share group")));
    }
    Ok(())
}

} // verus!
