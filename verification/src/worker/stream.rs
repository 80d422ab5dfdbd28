//! Redis stream deliveries, and reading the flat field/value lists entries carry.

use vstd::prelude::*;

use crate::text::{list_contains, str_eq, views};

verus! {

/// One entry read from a stream: where it came from, its id, and its `job` payload.
#[derive(Clone, Debug)]
pub struct Delivery {
    pub stream: String,
    pub id: String,
    pub payload: String,
}

/// Walking the list two by two from `k`, the value after the first field named `name`;
/// none when no field has that name or that field has no value after it.
pub open spec fn field_value_from(fields: Seq<Seq<char>>, name: Seq<char>, k: int) -> Option<Seq<char>>
    decreases fields.len() + 1 - k,
{
    if k < 0 || k >= fields.len() {
        None
    } else if fields[k] == name {
        if k + 1 < fields.len() {
            Some(fields[k + 1])
        } else {
            None
        }
    } else {
        field_value_from(fields, name, k + 2)
    }
}

/// The value of field `name` in a flat `[field, value, field, value, ...]` list.
pub fn field_value(fields: &[String], name: &str) -> (res: Option<String>)
    ensures
        match res {
            Some(v) => field_value_from(views(fields@), name@, 0) == Some(v@),
            None => field_value_from(views(fields@), name@, 0) is None,
        },
{
    let mut k: usize = 0;
    while k < fields.len()
        invariant
            k <= fields@.len(),
            field_value_from(views(fields@), name@, 0) == field_value_from(
                views(fields@),
                name@,
                k as int,
            ),
        decreases fields@.len() + 1 - k,
    {
        assert(views(fields@)[k as int] == fields@[k as int]@);
        if str_eq(fields[k].as_str(), name) {
            if k + 1 < fields.len() {
                return Some(fields[k + 1].clone());
            } else {
                return None;
            }
        }
        if fields.len() - k < 2 {
            assert(field_value_from(views(fields@), name@, k + 2) is None);
            return None;
        }
        k += 2;
    }
    None
}

} // verus!
