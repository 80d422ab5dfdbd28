//! Settings of one adapter process: which TLS stack it drives, what it reports as its
//! name, and the algorithm lists it advertises.

use vstd::prelude::*;

use crate::proto::{default_tls_version_views, default_tls_versions, Capabilities, ProbeRequest};
use crate::text::{
    chars_of, concat, lemma_trim_idempotent, owned, split, split_of, str_eq, string_of, trim,
    trimmed, vec_views, views,
};

verus! {

/// The TLS stack an adapter drives.
#[derive(Clone, Copy, Debug, PartialEq, Eq, Structural)]
pub enum Backend {
    OpenSsl,
    BoringSsl,
    WolfSsl,
    Mock,
}

impl Backend {
    pub open spec fn parse_spec(name: Seq<char>) -> Option<Backend> {
        if name == "openssl"@ {
            Some(Backend::OpenSsl)
        } else if name == "boringssl"@ {
            Some(Backend::BoringSsl)
        } else if name == "wolfssl"@ {
            Some(Backend::WolfSsl)
        } else if name == "mock"@ {
            Some(Backend::Mock)
        } else {
            None
        }
    }

    /// Reads a backend name; anything else is refused with `unknown backend <name>`.
    pub fn parse(name: &str) -> (res: Result<Backend, String>)
        ensures
            match res {
                Ok(b) => Self::parse_spec(name@) == Some(b),
                Err(e) => Self::parse_spec(name@) is None && e@ == "unknown backend "@ + name@,
            },
    {
        if str_eq(name, "openssl") {
            Ok(Backend::OpenSsl)
        } else if str_eq(name, "boringssl") {
            Ok(Backend::BoringSsl)
        } else if str_eq(name, "wolfssl") {
            Ok(Backend::WolfSsl)
        } else if str_eq(name, "mock") {
            Ok(Backend::Mock)
        } else {
            Err(concat("unknown backend ", name))
        }
    }
}

/// Adapter settings, as read from the command line or the environment.
#[derive(Clone, Debug)]
pub struct Config {
    /// `openssl` | `boringssl` | `wolfssl` | `mock`
    pub backend: String,
    /// Reported as `Capabilities.adapter`; defaults to the backend name.
    pub name: Option<String>,
    pub bind: String,
    /// Path to the stack's client binary.
    pub client_bin: String,
    /// Comma-separated TLS groups this stack can offer.
    pub kem_groups: String,
    /// Comma-separated signature algorithms this stack can offer.
    pub sig_algs: String,
    pub version: String,
    /// Directory to run the client binary from.
    pub workdir: Option<String>,
}

/// The non-empty pieces, in order.
pub open spec fn keep_nonempty(ps: Seq<Seq<char>>) -> Seq<Seq<char>>
    decreases ps.len(),
{
    if ps.len() == 0 {
        Seq::empty()
    } else {
        let r = keep_nonempty(ps.drop_last());
        if ps.last().len() > 0 {
            r.push(ps.last())
        } else {
            r
        }
    }
}

pub open spec fn trim_all(ps: Seq<Seq<char>>) -> Seq<Seq<char>> {
    ps.map_values(|p: Seq<char>| trim(p))
}

/// The items of a comma-separated list: each piece trimmed, empty pieces dropped.
pub open spec fn list_items(raw: Seq<char>) -> Seq<Seq<char>> {
    keep_nonempty(trim_all(split(raw, ',')))
}

/// Every item of a list is non-blank and already trimmed, and every non-blank piece of
/// the raw text is kept, trimmed.
pub proof fn lemma_list_items_clean(raw: Seq<char>)
    ensures
        forall|k: int|
            0 <= k < list_items(raw).len() ==> (#[trigger] list_items(raw)[k]).len() > 0 && trim(
                list_items(raw)[k],
            ) == list_items(raw)[k],
        forall|k: int|
            0 <= k < split(raw, ',').len() && trim(#[trigger] split(raw, ',')[k]).len() > 0
                ==> list_items(raw).contains(trim(split(raw, ',')[k])),
{
    let ps = split(raw, ',');
    let ts = trim_all(ps);
    crate::routes::tests::lemma_keep_nonempty_facts(ts);
    assert forall|k: int| 0 <= k < list_items(raw).len() implies (#[trigger] list_items(raw)[k]).len()
        > 0 && trim(list_items(raw)[k]) == list_items(raw)[k] by {
        let d = list_items(raw)[k];
        assert(ts.contains(d));
        let m = choose|m: int| 0 <= m < ts.len() && ts[m] == d;
        lemma_trim_idempotent(ps[m]);
    }
    assert forall|k: int| 0 <= k < ps.len() && trim(#[trigger] ps[k]).len() > 0 implies list_items(
        raw,
    ).contains(trim(ps[k])) by {
        assert(ts[k] == trim(ps[k]));
    }
}

impl Config {
    pub open spec fn adapter_name_spec(self) -> Seq<char> {
        match self.name {
            Some(n) => n@,
            None => self.backend@,
        }
    }

    pub fn adapter_name(&self) -> (res: String)
        ensures
            res@ == self.adapter_name_spec(),
    {
        match &self.name {
            Some(n) => n.clone(),
            None => self.backend.clone(),
        }
    }

    pub fn kem_group_list(&self) -> (res: Vec<String>)
        ensures
            views(res@) == list_items(self.kem_groups@),
    {
        split_list(self.kem_groups.as_str())
    }

    pub fn sig_alg_list(&self) -> (res: Vec<String>)
        ensures
            views(res@) == list_items(self.sig_algs@),
    {
        split_list(self.sig_algs.as_str())
    }

    /// What the adapter advertises at `GET /capabilities`.
    pub fn capabilities(&self) -> (res: Capabilities)
        ensures
            res.adapter@ == self.adapter_name_spec(),
            res.version == self.version,
            views(res.kem_groups@) == list_items(self.kem_groups@),
            views(res.sig_algs@) == list_items(self.sig_algs@),
            views(res.tls_versions@) == default_tls_version_views(),
    {
        Capabilities {
            adapter: self.adapter_name(),
            version: self.version.clone(),
            kem_groups: self.kem_group_list(),
            sig_algs: self.sig_alg_list(),
            tls_versions: default_tls_versions(),
        }
    }
}

/// A probe needs a target host; a blank one is refused with `target host is required`.
pub fn check_probe_request(request: &ProbeRequest) -> (res: Result<(), String>)
    ensures
        trim(request.target.host@).len() == 0 ==> (res matches Err(m) && m@
            == "target host is required"@),
        trim(request.target.host@).len() > 0 ==> res is Ok,
{
    let host = trimmed(&chars_of(request.target.host.as_str()));
    if host.len() == 0 {
        return Err(owned("target host is required"));
    }
    Ok(())
}

/// Splits a comma-separated list, trimming each item and dropping blank ones.
pub fn split_list(raw: &str) -> (res: Vec<String>)
    ensures
        views(res@) == list_items(raw@),
{
    let chars = chars_of(raw);
    let pieces = split_of(&chars, ',');
    let ghost ps = trim_all(vec_views(pieces@));
    let mut out: Vec<String> = Vec::new();
    let mut k: usize = 0;
    while k < pieces.len()
        invariant
            0 <= k <= pieces@.len(),
            ps == trim_all(vec_views(pieces@)),
            views(out@) == keep_nonempty(ps.take(k as int)),
        decreases pieces@.len() - k,
    {
        let t = trimmed(&pieces[k]);
        assert(ps.take(k + 1).drop_last() =~= ps.take(k as int));
        assert(ps[k as int] == t@);
        if t.len() > 0 {
            let item = string_of(&t);
            out.push(item);
            assert(views(out@) =~= keep_nonempty(ps.take(k + 1)));
        } else {
            assert(views(out@) =~= keep_nonempty(ps.take(k + 1)));
        }
        k += 1;
    }
    assert(ps.take(pieces@.len() as int) =~= ps);
    out
}

} // verus!
