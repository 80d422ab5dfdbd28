//! Worker settings, and the adapter table they describe.

use vstd::prelude::*;

use crate::text::{
    chars_eq, chars_of, copy_range, find, find_chars, lemma_lex_irreflexive, lemma_lex_total,
    lemma_lex_trans, lex_less, lex_lt, split, split_of, string_of, trim, trimmed, vec_views,
};

verus! {

#[derive(Clone, Debug)]
pub struct Config {
    pub database_url: String,
    pub redis_url: String,
    /// `name=base_url` pairs, comma separated. Adapters not listed are reported as
    /// `disabled` rather than failed.
    pub adapters: String,
    /// How many probes run at once.
    pub concurrency: usize,
    pub name: String,
    pub probe_timeout_ms: u64,
    /// Reclaim jobs whose worker died mid-probe after this many milliseconds.
    pub claim_stale_ms: u64,
}

/// `s` without trailing slashes.
pub open spec fn strip_slashes(s: Seq<char>) -> Seq<char>
    decreases s.len(),
{
    if s.len() > 0 && s.last() == '/' {
        strip_slashes(s.drop_last())
    } else {
        s
    }
}

/// One `name=url` entry: split at the first `=`, name trimmed, url trimmed and without
/// trailing slashes; entries without `=` or with an empty side are skipped.
pub open spec fn adapter_entry(piece: Seq<char>) -> Option<(Seq<char>, Seq<char>)> {
    match find(piece, seq!['=']) {
        None => None,
        Some(i) => {
            let name = trim(piece.take(i));
            let url = strip_slashes(trim(piece.skip(i + 1)));
            if name.len() > 0 && url.len() > 0 {
                Some((name, url))
            } else {
                None
            }
        },
    }
}

pub open spec fn entries_of(ps: Seq<Seq<char>>) -> Seq<(Seq<char>, Seq<char>)>
    decreases ps.len(),
{
    if ps.len() == 0 {
        Seq::empty()
    } else {
        let r = entries_of(ps.drop_last());
        match adapter_entry(ps.last()) {
            Some(e) => r.push(e),
            None => r,
        }
    }
}

/// The table the entries describe; a later entry for the same name wins.
pub open spec fn entries_map(es: Seq<(Seq<char>, Seq<char>)>) -> Map<Seq<char>, Seq<char>>
    decreases es.len(),
{
    if es.len() == 0 {
        Map::empty()
    } else {
        entries_map(es.drop_last()).insert(es.last().0, es.last().1)
    }
}

/// The adapter table a setting describes.
pub open spec fn adapter_table(raw: Seq<char>) -> Map<Seq<char>, Seq<char>> {
    entries_map(entries_of(split(raw, ',')))
}

pub open spec fn pair_views(v: Seq<(String, String)>) -> Seq<(Seq<char>, Seq<char>)> {
    v.map_values(|p: (String, String)| (p.0@, p.1@))
}

/// `r` lists exactly the entries of `m`, once each, by increasing name.
pub open spec fn lists_sorted(r: Seq<(Seq<char>, Seq<char>)>, m: Map<Seq<char>, Seq<char>>) -> bool {
    &&& forall|i: int, j: int| 0 <= i < j < r.len() ==> lex_lt(#[trigger] r[i].0, #[trigger] r[j].0)
    &&& forall|i: int|
        0 <= i < r.len() ==> m.contains_key(#[trigger] r[i].0) && m[r[i].0] == r[i].1
    &&& forall|k: Seq<char>| #[trigger] m.contains_key(k) ==> exists|i: int| 0 <= i < r.len() && r[i].0 == k
}

fn strip_trailing_slashes(s: &[char]) -> (res: Vec<char>)
    ensures
        res@ == strip_slashes(s@),
{
    let mut hi = s.len();
    assert(s@.take(hi as int) =~= s@);
    while hi > 0 && s[hi - 1] == '/'
        invariant
            hi <= s@.len(),
            strip_slashes(s@) == strip_slashes(s@.take(hi as int)),
        decreases hi,
    {
        assert(s@.take(hi as int).drop_last() =~= s@.take(hi - 1));
        hi -= 1;
    }
    copy_range(s, 0, hi)
}

fn entry_of(piece: &[char]) -> (res: Option<(String, String)>)
    ensures
        match res {
            Some(p) => adapter_entry(piece@) == Some((p.0@, p.1@)),
            None => adapter_entry(piece@) is None,
        },
{
    let eq = vec!['='];
    assert(eq@ =~= seq!['=']);
    match find_chars(piece, &eq) {
        None => None,
        Some(i) => {
            let pl = piece.len();
            let left = copy_range(piece, 0, i);
            let right = copy_range(piece, i + 1, pl);
            assert(left@ =~= piece@.take(i as int));
            assert(right@ =~= piece@.skip(i + 1));
            let name = trimmed(&left);
            let url = strip_trailing_slashes(&trimmed(&right));
            if name.len() > 0 && url.len() > 0 {
                Some((string_of(&name), string_of(&url)))
            } else {
                None
            }
        },
    }
}

/// Adds an entry to a table kept sorted by name; an existing entry of that name takes
/// the new url.
fn insert_sorted(
    out: &mut Vec<(String, String)>,
    name: String,
    url: String,
    Ghost(m): Ghost<Map<Seq<char>, Seq<char>>>,
)
    requires
        lists_sorted(pair_views(old(out)@), m),
    ensures
        lists_sorted(pair_views(final(out)@), m.insert(name@, url@)),
{
    let ghost r = pair_views(out@);
    let key = chars_of(name.as_str());
    let mut p: usize = 0;
    while p < out.len() && lex_less(&chars_of(out[p].0.as_str()), &key)
        invariant
            0 <= p <= out@.len(),
            r == pair_views(out@),
            key@ == name@,
            forall|i: int| 0 <= i < p ==> lex_lt(#[trigger] r[i].0, name@),
        decreases out@.len() - p,
    {
        p += 1;
    }
    let ghost m2 = m.insert(name@, url@);
    if p < out.len() && chars_eq(&chars_of(out[p].0.as_str()), &key) {
        assert(r[p as int].0 == name@);
        out.set(p, (name, url));
        proof {
            let r2 = pair_views(out@);
            assert(r2 =~= r.update(p as int, (name@, url@)));
            assert forall|i: int| 0 <= i < r2.len() implies m2.contains_key(#[trigger] r2[i].0)
                && m2[r2[i].0] == r2[i].1 by {
                if i != p {
                    if i < p {
                        assert(lex_lt(r[i].0, r[p as int].0));
                    } else {
                        assert(lex_lt(r[p as int].0, r[i].0));
                    }
                    lemma_lex_irreflexive(r[i].0);
                    assert(r[i].0 != name@);
                }
            }
            assert forall|k: Seq<char>| #[trigger] m2.contains_key(k) implies exists|i: int|
                0 <= i < r2.len() && r2[i].0 == k by {
                if k == name@ {
                    assert(r2[p as int].0 == k);
                } else {
                    let i = choose|i: int| 0 <= i < r.len() && r[i].0 == k;
                    assert(r2[i].0 == k);
                }
            }
            assert forall|i: int, j: int| 0 <= i < j < r2.len() implies lex_lt(
                #[trigger] r2[i].0,
                #[trigger] r2[j].0,
            ) by {
                assert(lex_lt(r[i].0, r[j].0));
            }
        }
    } else {
        proof {
            if p < out@.len() {
                lemma_lex_total(r[p as int].0, name@);
            }
            // the new name is not yet in the table
            assert forall|i: int| 0 <= i < r.len() implies #[trigger] r[i].0 != name@ by {
                if i < p {
                    lemma_lex_irreflexive(name@);
                } else if i > p {
                    assert(lex_lt(r[p as int].0, r[i].0));
                    if r[i].0 == name@ {
                        lemma_lex_total(r[p as int].0, name@);
                    }
                }
            }
            assert forall|j: int| p <= j < r.len() implies lex_lt(name@, #[trigger] r[j].0) by {
                if j > p {
                    assert(lex_lt(r[p as int].0, r[j].0));
                    lemma_lex_trans(name@, r[p as int].0, r[j].0);
                }
            }
        }
        out.insert(p, (name, url));
        proof {
            let r2 = pair_views(out@);
            let e = (name@, url@);
            assert(r2 =~= r.insert(p as int, e));
            assert forall|i: int, j: int| 0 <= i < j < r2.len() implies lex_lt(
                #[trigger] r2[i].0,
                #[trigger] r2[j].0,
            ) by {
                if j < p {
                    assert(lex_lt(r[i].0, r[j].0));
                } else if j == p {
                    assert(lex_lt(r[i].0, name@));
                } else if i < p {
                    assert(lex_lt(r[i].0, name@));
                    assert(lex_lt(name@, r[j - 1].0));
                    lemma_lex_trans(r[i].0, name@, r[j - 1].0);
                } else if i == p {
                    assert(lex_lt(name@, r[j - 1].0));
                } else {
                    assert(lex_lt(r[i - 1].0, r[j - 1].0));
                }
            }
            assert forall|i: int| 0 <= i < r2.len() implies m2.contains_key(#[trigger] r2[i].0)
                && m2[r2[i].0] == r2[i].1 by {
                if i < p {
                    assert(r2[i] == r[i]);
                    assert(r[i].0 != name@);
                } else if i > p {
                    assert(r2[i] == r[i - 1]);
                    assert(r[i - 1].0 != name@);
                }
            }
            assert forall|k: Seq<char>| #[trigger] m2.contains_key(k) implies exists|i: int|
                0 <= i < r2.len() && r2[i].0 == k by {
                if k == name@ {
                    assert(r2[p as int].0 == k);
                } else {
                    let i = choose|i: int| 0 <= i < r.len() && r[i].0 == k;
                    if i < p {
                        assert(r2[i].0 == k);
                    } else {
                        assert(r2[i + 1].0 == k);
                    }
                }
            }
        }
    }
}

/// The span of `ms` milliseconds.
pub uninterp spec fn millis_duration(ms: nat) -> std::time::Duration;

/// `Duration::from_millis`; its result is named by `millis_duration`.
#[verifier::external_body]
fn duration_from_millis(ms: u64) -> (res: std::time::Duration)
    ensures
        res == millis_duration(ms as nat),
{
    std::time::Duration::from_millis(ms)
}

impl Config {
    /// The per-handshake timeout.
    pub fn probe_timeout(&self) -> (res: std::time::Duration)
        ensures
            res == millis_duration(self.probe_timeout_ms as nat),
    {
        duration_from_millis(self.probe_timeout_ms)
    }

    /// The adapter table: each configured adapter once, by name, with the url of its last
    /// entry.
    pub fn adapter_map(&self) -> (res: Vec<(String, String)>)
        ensures
            lists_sorted(pair_views(res@), adapter_table(self.adapters@)),
    {
        let raw = chars_of(self.adapters.as_str());
        let pieces = split_of(&raw, ',');
        let ghost ps = vec_views(pieces@);
        let mut out: Vec<(String, String)> = Vec::new();
        let mut k: usize = 0;
        assert(entries_map(entries_of(ps.take(0))) =~= Map::<Seq<char>, Seq<char>>::empty());
        while k < pieces.len()
            invariant
                0 <= k <= pieces@.len(),
                ps == vec_views(pieces@),
                ps == split(self.adapters@, ','),
                lists_sorted(pair_views(out@), entries_map(entries_of(ps.take(k as int)))),
            decreases pieces@.len() - k,
        {
            assert(ps.take(k + 1).drop_last() =~= ps.take(k as int));
            assert(ps.take(k + 1).last() == pieces@[k as int]@);
            match entry_of(&pieces[k]) {
                Some(e) => {
                    let (name, url) = e;
                    proof {
                        let prev = entries_of(ps.take(k as int));
                        assert(entries_of(ps.take(k + 1)) == prev.push((name@, url@)));
                        assert(prev.push((name@, url@)).drop_last() =~= prev);
                        assert(entries_map(entries_of(ps.take(k + 1))) == entries_map(prev).insert(
                            name@,
                            url@,
                        ));
                    }
                    insert_sorted(
                        &mut out,
                        name,
                        url,
                        Ghost(entries_map(entries_of(ps.take(k as int)))),
                    );
                },
                None => {},
            }
            k += 1;
        }
        assert(ps.take(pieces@.len() as int) =~= ps);
        out
    }
}

} // verus!
