//! FIPS 204 (ML-DSA) parameter-set sizes. A wrong-length public key, secret key or
//! signature can be reported before any byte is compared.

use vstd::prelude::*;

use crate::text::{eq_ignore_ascii_case, str_eq_ignore_case};

verus! {

#[derive(Clone, Copy, Debug, PartialEq, Eq)]
pub struct ParameterSet {
    pub name: &'static str,
    pub pk_len: usize,
    pub sk_len: usize,
    pub sig_len: usize,
    /// Seed length for `keyGen` (xi).
    pub seed_len: usize,
}

/// The sizes FIPS 204 fixes for a parameter set, as (public key, secret key, signature,
/// seed).
pub open spec fn sizes(p: ParameterSet) -> (usize, usize, usize, usize) {
    (p.pk_len, p.sk_len, p.sig_len, p.seed_len)
}

pub fn ml_dsa_44() -> (res: ParameterSet)
    ensures
        res.name@ == "ML-DSA-44"@,
        sizes(res) == (1312usize, 2560usize, 2420usize, 32usize),
{
    ParameterSet { name: "ML-DSA-44", pk_len: 1312, sk_len: 2560, sig_len: 2420, seed_len: 32 }
}

pub fn ml_dsa_65() -> (res: ParameterSet)
    ensures
        res.name@ == "ML-DSA-65"@,
        sizes(res) == (1952usize, 4032usize, 3309usize, 32usize),
{
    ParameterSet { name: "ML-DSA-65", pk_len: 1952, sk_len: 4032, sig_len: 3309, seed_len: 32 }
}

pub fn ml_dsa_87() -> (res: ParameterSet)
    ensures
        res.name@ == "ML-DSA-87"@,
        sizes(res) == (2592usize, 4896usize, 4627usize, 32usize),
{
    ParameterSet { name: "ML-DSA-87", pk_len: 2592, sk_len: 4896, sig_len: 4627, seed_len: 32 }
}

/// The three parameter sets, in increasing strength.
pub fn all_parameter_sets() -> (res: [ParameterSet; 3])
    ensures
        res[0].name@ == "ML-DSA-44"@ && sizes(res[0]) == (1312usize, 2560usize, 2420usize, 32usize),
        res[1].name@ == "ML-DSA-65"@ && sizes(res[1]) == (1952usize, 4032usize, 3309usize, 32usize),
        res[2].name@ == "ML-DSA-87"@ && sizes(res[2]) == (2592usize, 4896usize, 4627usize, 32usize),
{
    [ml_dsa_44(), ml_dsa_65(), ml_dsa_87()]
}

/// The sizes of the parameter set named `name`, ignoring ASCII case.
pub open spec fn lookup_spec(name: Seq<char>) -> Option<(Seq<char>, (usize, usize, usize, usize))> {
    if eq_ignore_ascii_case("ML-DSA-44"@, name) {
        Some(("ML-DSA-44"@, (1312usize, 2560usize, 2420usize, 32usize)))
    } else if eq_ignore_ascii_case("ML-DSA-65"@, name) {
        Some(("ML-DSA-65"@, (1952usize, 4032usize, 3309usize, 32usize)))
    } else if eq_ignore_ascii_case("ML-DSA-87"@, name) {
        Some(("ML-DSA-87"@, (2592usize, 4896usize, 4627usize, 32usize)))
    } else {
        None
    }
}

/// The parameter set whose name matches `name` without regard to ASCII case.
pub fn lookup(name: &str) -> (res: Option<ParameterSet>)
    ensures
        match res {
            Some(p) => lookup_spec(name@) == Some((p.name@, sizes(p))),
            None => lookup_spec(name@) is None,
        },
{
    let all = all_parameter_sets();
    let mut i: usize = 0;
    while i < 3
        invariant
            0 <= i <= 3,
            all[0].name@ == "ML-DSA-44"@ && sizes(all[0]) == (1312usize, 2560usize, 2420usize, 32usize),
            all[1].name@ == "ML-DSA-65"@ && sizes(all[1]) == (1952usize, 4032usize, 3309usize, 32usize),
            all[2].name@ == "ML-DSA-87"@ && sizes(all[2]) == (2592usize, 4896usize, 4627usize, 32usize),
            forall|j: int| 0 <= j < i ==> !eq_ignore_ascii_case(#[trigger] all[j].name@, name@),
        decreases 3 - i,
    {
        let p = all[i];
        if str_eq_ignore_case(p.name, name) {
            return Some(p);
        }
        i += 1;
    }
    None
}

} // verus!
