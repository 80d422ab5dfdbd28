//! CAVP question packs and sessions as the API exchanges them.

use vstd::prelude::*;

use crate::status::Capability;

verus! {

/// A question pack in the pack list.
#[derive(Clone, Debug)]
pub struct PackSummary {
    pub slug: String,
    pub capability: Capability,
    pub parameter_set: String,
    pub vs_id: i64,
}

/// A request to start a session on a pack.
#[derive(Clone, Debug)]
pub struct NewSession {
    pub slug: String,
}

/// Submitted results, as text, so a malformed payload can be reported to the student.
#[derive(Clone, Debug)]
pub struct Submission {
    pub results: String,
}

/// Which case of an answer key ships pre-filled as the worked example: the first whose
/// `tcId` is 1 (`tc_ids` holds each case's `tcId`, where it has an integer one). Only that
/// case of the key is ever shown.
pub fn example_case(tc_ids: &[Option<i64>]) -> (res: Option<usize>)
    ensures
        match res {
            Some(i) => i < tc_ids@.len() && tc_ids@[i as int] == Some(1i64) && forall|j: int|
                0 <= j < i ==> tc_ids@[j] != Some(1i64),
            None => forall|j: int| 0 <= j < tc_ids@.len() ==> tc_ids@[j] != Some(1i64),
        },
{
    let mut i: usize = 0;
    while i < tc_ids.len()
        invariant
            0 <= i <= tc_ids@.len(),
            forall|j: int| 0 <= j < i ==> tc_ids@[j] != Some(1i64),
        decreases tc_ids@.len() - i,
    {
        if tc_ids[i] == Some(1i64) {
            return Some(i);
        }
        i += 1;
    }
    None
}

} // verus!
