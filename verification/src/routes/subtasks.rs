//! The subtask drawer's title and position.

use vstd::prelude::*;

use crate::text::concat;

verus! {

/// `<group> × <signature algorithm>`, the drawer title.
pub fn drawer_title(group_name: &str, sig_alg: &str) -> (res: String)
    ensures
        res@ == group_name@ + " × "@ + sig_alg@,
{
    let mut t = concat(group_name, " × ");
    t.append(sig_alg);
    t
}

/// The one-based position of a subtask from its ordinal.
pub fn drawer_position(ordinal: i32) -> (res: i64)
    ensures
        res == ordinal + 1,
{
    ordinal as i64 + 1
}

} // verus!
