//! The seeded catalog: algorithm queries and lab endpoints.

use vstd::prelude::*;

use crate::api::ApiError;
use crate::text::{chars_of, concat, owned, str_eq, trim, trimmed};

verus! {

/// Which algorithms to list.
#[derive(Clone, Debug)]
pub struct AlgorithmQuery {
    /// `kem_group` or `sig_alg`; none for both.
    pub kind: Option<String>,
    /// Include algorithms the lab has switched off (rendered greyed out).
    pub include_disabled: bool,
}

/// Disabled algorithms are listed unless the query says otherwise.
pub fn default_true() -> (res: bool)
    ensures
        res,
{
    true
}

/// A kind filter must name one of the two kinds.
pub fn check_algorithm_kind(kind: &Option<String>) -> (res: Result<(), ApiError>)
    ensures
        match kind {
            Some(k) => if k@ == "kem_group"@ || k@ == "sig_alg"@ {
                res is Ok
            } else {
                res matches Err(ApiError::BadRequest(m)) && m@ == "unknown algorithm kind "@ + k@
            },
            None => res is Ok,
        },
{
    match kind {
        Some(k) => {
            if !str_eq(k.as_str(), "kem_group") && !str_eq(k.as_str(), "sig_alg") {
                return Err(ApiError::BadRequest(concat("unknown algorithm kind ", k.as_str())));
            }
            Ok(())
        },
        None => Ok(()),
    }
}

/// A lab endpoint as submitted.
#[derive(Clone, Debug)]
pub struct NewEndpoint {
    pub slug: String,
    pub label: String,
    pub label_zh: String,
    pub host: String,
    pub port: i32,
    pub notes: Option<String>,
}

/// An endpoint needs a slug and a port in 1-65535.
pub fn check_endpoint(body: &NewEndpoint) -> (res: Result<(), ApiError>)
    ensures
        trim(body.slug@).len() == 0 ==> (res matches Err(ApiError::BadRequest(m)) && m@
            == "slug is required"@),
        trim(body.slug@).len() > 0 && !(1 <= body.port <= 65535) ==> (res matches Err(
            ApiError::BadRequest(m),
        ) && m@ == "port must be 1-65535"@),
        trim(body.slug@).len() > 0 && 1 <= body.port <= 65535 ==> res is Ok,
{
    let slug = trimmed(&chars_of(body.slug.as_str()));
    if slug.len() == 0 {
        return Err(ApiError::BadRequest(owned("slug is required")));
    }
    if !(1 <= body.port && body.port <= 65535) {
        return Err(ApiError::BadRequest(owned("port must be 1-65535")));
    }
    Ok(())
}

} // verus!
