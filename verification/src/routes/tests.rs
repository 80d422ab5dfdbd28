//! Test tasks: validating a new task, expanding its axes into subtasks, choosing the
//! adapter, and the axes of the matrix view.

use vstd::prelude::*;

use crate::adapter::{keep_nonempty, trim_all};
use crate::api::ApiError;
use crate::text::{
    chars_of, concat, decimal, join, join_strings, lemma_trim_idempotent, lemma_trim_shape,
    list_contains, owned, push_decimal, push_decimal_wide, starts_with, starts_with_chars,
    string_of, trim, trimmed, views,
};

verus! {

/// A new test task as submitted.
#[derive(Clone, Debug)]
pub struct NewTest {
    pub host: String,
    pub port: i32,
    pub http_path: String,
    pub tool: String,
    pub plugin: String,
    pub groups: Vec<String>,
    pub sig_algs: Vec<String>,
}

/// The `host:port` heading of a task page.
pub fn target_label(host: &str, port: i32) -> (res: String)
    ensures
        res@ == host@ + ":"@ + crate::routes::health::signed_decimal(port as int),
{
    let mut out = concat(host, ":");
    crate::routes::health::append_signed(&mut out, port as i64);
    out
}

/// The path probed when a task names none.
pub fn default_path() -> (res: String)
    ensures
        res@ == "/"@,
{
    owned("/")
}

/// Paging of the task list.
#[derive(Clone, Copy, Debug, PartialEq, Eq, Structural)]
pub struct ListQuery {
    pub limit: i64,
}

pub fn default_limit() -> (res: i64)
    ensures
        res == 50,
{
    50
}

impl ListQuery {
    /// The requested page size, kept between 1 and 200.
    pub fn effective_limit(&self) -> (res: i64)
        ensures
            res == if self.limit < 1 {
                1
            } else if self.limit > 200 {
                200
            } else {
                self.limit
            },
    {
        if self.limit < 1 {
            1
        } else if self.limit > 200 {
            200
        } else {
            self.limit
        }
    }
}

// ---------------------------------------------------------------------------
// Which adapter
// ---------------------------------------------------------------------------

/// The stack a plugin name stands for, by prefix; anything else gets the default.
pub open spec fn adapter_for_spec(plugin: Seq<char>, default: Seq<char>) -> Seq<char> {
    if starts_with(plugin, "bq"@) || starts_with(plugin, "bo"@) {
        "boringssl"@
    } else if starts_with(plugin, "wo"@) {
        "wolfssl"@
    } else if starts_with(plugin, "go"@) {
        "go"@
    } else if starts_with(plugin, "open"@) {
        "openssl"@
    } else {
        default
    }
}

fn plugin_starts(plugin: &Vec<char>, prefix: &str) -> (res: bool)
    ensures
        res == starts_with(plugin@, prefix@),
{
    starts_with_chars(plugin, &chars_of(prefix))
}

/// Tool/plugin is the lab's vocabulary for "which TLS stack"; the plugin's prefix picks
/// the adapter, and an unknown plugin falls back to the configured default rather than
/// failing the task.
pub fn adapter_for(tool: &str, plugin: &str, default: &str) -> (res: String)
    ensures
        res@ == adapter_for_spec(plugin@, default@),
{
    let p = chars_of(plugin);
    if plugin_starts(&p, "bq") || plugin_starts(&p, "bo") {
        owned("boringssl")
    } else if plugin_starts(&p, "wo") {
        owned("wolfssl")
    } else if plugin_starts(&p, "go") {
        owned("go")
    } else if plugin_starts(&p, "open") {
        owned("openssl")
    } else {
        owned(default)
    }
}

// ---------------------------------------------------------------------------
// Collapsing selections
// ---------------------------------------------------------------------------

/// The first occurrence of each value, in order.
pub open spec fn distinct(vs: Seq<Seq<char>>) -> Seq<Seq<char>>
    decreases vs.len(),
{
    if vs.len() == 0 {
        Seq::empty()
    } else {
        let r = distinct(vs.drop_last());
        if r.contains(vs.last()) {
            r
        } else {
            r.push(vs.last())
        }
    }
}

/// A selection with each value trimmed, blanks dropped and repeats collapsed.
pub open spec fn dedupe_spec(vs: Seq<Seq<char>>) -> Seq<Seq<char>> {
    distinct(keep_nonempty(trim_all(vs)))
}

/// Trims each selection, drops blanks and keeps the first of any repeats.
pub fn dedupe(values: &[String]) -> (res: Vec<String>)
    ensures
        views(res@) == dedupe_spec(views(values@)),
{
    let ghost vs = views(values@);
    let mut out: Vec<String> = Vec::new();
    let mut i: usize = 0;
    while i < values.len()
        invariant
            0 <= i <= values@.len(),
            vs == views(values@),
            views(out@) == dedupe_spec(vs.take(i as int)),
        decreases values@.len() - i,
    {
        let t = trimmed(&chars_of(values[i].as_str()));
        let ghost prev = trim_all(vs.take(i as int));
        assert(vs.take(i + 1).drop_last() =~= vs.take(i as int));
        assert(trim_all(vs.take(i + 1)) =~= prev.push(t@));
        assert(prev.push(t@).drop_last() =~= prev);
        let ts = string_of(&t);
        if t.len() > 0 {
            let ghost kept = keep_nonempty(prev);
            assert(keep_nonempty(prev.push(t@)) == kept.push(t@));
            assert(kept.push(t@).drop_last() =~= kept);
            if !list_contains(out.as_slice(), ts.as_str()) {
                out.push(ts);
                assert(views(out@) =~= dedupe_spec(vs.take(i + 1)));
            }
        }
        i += 1;
    }
    assert(vs.take(values@.len() as int) =~= vs);
    out
}

proof fn lemma_distinct_facts(vs: Seq<Seq<char>>)
    ensures
        forall|i: int, j: int|
            0 <= i < j < distinct(vs).len() ==> #[trigger] distinct(vs)[i] != #[trigger] distinct(vs)[j],
        forall|k: int| 0 <= k < distinct(vs).len() ==> vs.contains(#[trigger] distinct(vs)[k]),
        forall|k: int| 0 <= k < vs.len() ==> distinct(vs).contains(#[trigger] vs[k]),
        distinct(vs).len() <= vs.len(),
    decreases vs.len(),
{
    if vs.len() > 0 {
        let p = vs.drop_last();
        lemma_distinct_facts(p);
        let r = distinct(p);
        assert forall|k: int| 0 <= k < distinct(vs).len() implies vs.contains(
            #[trigger] distinct(vs)[k],
        ) by {
            if k < r.len() {
                assert(p.contains(r[k]));
                let j = choose|j: int| 0 <= j < p.len() && p[j] == r[k];
                assert(vs[j] == r[k]);
            } else {
                assert(vs[vs.len() - 1] == vs.last());
            }
        }
        assert forall|k: int| 0 <= k < vs.len() implies distinct(vs).contains(#[trigger] vs[k]) by {
            if k < p.len() {
                assert(r.contains(p[k]));
                let j = choose|j: int| 0 <= j < r.len() && r[j] == p[k];
                assert(distinct(vs)[j] == vs[k]);
            } else if r.contains(vs.last()) {
                let j = choose|j: int| 0 <= j < r.len() && r[j] == vs.last();
                assert(distinct(vs)[j] == vs[k]);
            } else {
                assert(distinct(vs)[r.len() as int] == vs[k]);
            }
        }
    }
}

pub(crate) proof fn lemma_keep_nonempty_facts(ps: Seq<Seq<char>>)
    ensures
        forall|k: int| 0 <= k < keep_nonempty(ps).len() ==> (#[trigger] keep_nonempty(ps)[k]).len() > 0,
        forall|k: int| 0 <= k < keep_nonempty(ps).len() ==> ps.contains(#[trigger] keep_nonempty(ps)[k]),
        forall|k: int| 0 <= k < ps.len() && (#[trigger] ps[k]).len() > 0 ==> keep_nonempty(ps).contains(ps[k]),
        keep_nonempty(ps).len() <= ps.len(),
    decreases ps.len(),
{
    if ps.len() > 0 {
        let p = ps.drop_last();
        lemma_keep_nonempty_facts(p);
        let r = keep_nonempty(p);
        assert forall|k: int| 0 <= k < keep_nonempty(ps).len() implies ps.contains(
            #[trigger] keep_nonempty(ps)[k],
        ) by {
            if k < r.len() {
                assert(p.contains(r[k]));
                let j = choose|j: int| 0 <= j < p.len() && p[j] == r[k];
                assert(ps[j] == r[k]);
            } else {
                assert(ps[ps.len() - 1] == ps.last());
            }
        }
        assert forall|k: int| 0 <= k < ps.len() && (#[trigger] ps[k]).len() > 0 implies keep_nonempty(
            ps,
        ).contains(ps[k]) by {
            if k < p.len() {
                assert(p[k].len() > 0);
                assert(r.contains(p[k]));
                let j = choose|j: int| 0 <= j < r.len() && r[j] == p[k];
                assert(keep_nonempty(ps)[j] == ps[k]);
            } else {
                assert(keep_nonempty(ps)[r.len() as int] == ps[k]);
            }
        }
    }
}

proof fn lemma_keep_nonempty_all(ps: Seq<Seq<char>>)
    requires
        forall|k: int| 0 <= k < ps.len() ==> (#[trigger] ps[k]).len() > 0,
    ensures
        keep_nonempty(ps) == ps,
    decreases ps.len(),
{
    if ps.len() > 0 {
        let p = ps.drop_last();
        assert forall|k: int| 0 <= k < p.len() implies (#[trigger] p[k]).len() > 0 by {
            assert(p[k] == ps[k]);
        }
        lemma_keep_nonempty_all(p);
        assert(ps.last() == ps[ps.len() - 1]);
        assert(p.push(ps.last()) =~= ps);
    }
}

proof fn lemma_distinct_unique(vs: Seq<Seq<char>>)
    requires
        forall|i: int, j: int| 0 <= i < j < vs.len() ==> #[trigger] vs[i] != #[trigger] vs[j],
    ensures
        distinct(vs) == vs,
    decreases vs.len(),
{
    if vs.len() > 0 {
        let p = vs.drop_last();
        assert forall|i: int, j: int| 0 <= i < j < p.len() implies #[trigger] p[i] != #[trigger] p[j] by {
            assert(vs[i] != vs[j]);
        }
        lemma_distinct_unique(p);
        if p.contains(vs.last()) {
            let j = choose|j: int| 0 <= j < p.len() && p[j] == vs.last();
            assert(vs[j] != vs[vs.len() - 1]);
        }
        assert(p.push(vs.last()) =~= vs);
    }
}

/// Each selected value, trimmed, appears once; nothing blank and nothing untrimmed
/// appears; and whatever non-blank value was selected is kept.
pub proof fn lemma_dedupe_collapses(vs: Seq<Seq<char>>)
    ensures
        forall|i: int, j: int|
            0 <= i < j < dedupe_spec(vs).len() ==> #[trigger] dedupe_spec(vs)[i]
                != #[trigger] dedupe_spec(vs)[j],
        forall|k: int|
            0 <= k < dedupe_spec(vs).len() ==> (#[trigger] dedupe_spec(vs)[k]).len() > 0 && trim(
                dedupe_spec(vs)[k],
            ) == dedupe_spec(vs)[k],
        forall|k: int|
            0 <= k < vs.len() && trim(#[trigger] vs[k]).len() > 0 ==> dedupe_spec(vs).contains(
                trim(vs[k]),
            ),
        dedupe_spec(vs).len() <= vs.len(),
{
    let ts = trim_all(vs);
    let ks = keep_nonempty(ts);
    lemma_keep_nonempty_facts(ts);
    lemma_distinct_facts(ks);
    assert forall|k: int|
        0 <= k < dedupe_spec(vs).len() implies (#[trigger] dedupe_spec(vs)[k]).len() > 0 && trim(
            dedupe_spec(vs)[k],
        ) == dedupe_spec(vs)[k] by {
        let d = dedupe_spec(vs)[k];
        assert(ks.contains(d));
        let j = choose|j: int| 0 <= j < ks.len() && ks[j] == d;
        assert(ts.contains(ks[j]));
        let m = choose|m: int| 0 <= m < ts.len() && ts[m] == ks[j];
        lemma_trim_idempotent(vs[m]);
    }
    assert forall|k: int| 0 <= k < vs.len() && trim(#[trigger] vs[k]).len() > 0 implies dedupe_spec(
        vs,
    ).contains(trim(vs[k])) by {
        assert(ts[k] == trim(vs[k]));
        assert(ks.contains(ts[k]));
        let j = choose|j: int| 0 <= j < ks.len() && ks[j] == ts[k];
        assert(distinct(ks).contains(ks[j]));
    }
}

/// Collapsing a selection that is already collapsed changes nothing.
pub proof fn lemma_dedupe_idempotent(vs: Seq<Seq<char>>)
    ensures
        dedupe_spec(dedupe_spec(vs)) == dedupe_spec(vs),
{
    let d = dedupe_spec(vs);
    lemma_dedupe_collapses(vs);
    assert(trim_all(d) =~= d);
    lemma_keep_nonempty_all(d);
    lemma_distinct_unique(d);
}

// ---------------------------------------------------------------------------
// Checking selections against the catalog
// ---------------------------------------------------------------------------

/// The selected names the catalog does not hold, in selection order.
pub open spec fn unknown_names(names: Seq<Seq<char>>, known: Seq<Seq<char>>) -> Seq<Seq<char>>
    decreases names.len(),
{
    if names.len() == 0 {
        Seq::empty()
    } else {
        let r = unknown_names(names.drop_last(), known);
        if known.contains(names.last()) {
            r
        } else {
            r.push(names.last())
        }
    }
}

/// Everything selected must exist in the seeded catalog (`known`, the catalog's names of
/// that kind among the selection): a typo would otherwise become a task full of failures
/// that look like the target's fault. The refusal lists every unknown name.
pub fn check_known(kind: &str, names: &[String], known: &[String]) -> (res: Result<(), ApiError>)
    ensures
        unknown_names(views(names@), views(known@)).len() == 0 ==> res is Ok,
        unknown_names(views(names@), views(known@)).len() > 0 ==> (res matches Err(
            ApiError::BadRequest(m),
        ) && m@ == "unknown "@ + kind@ + ": "@ + join(
            unknown_names(views(names@), views(known@)),
            ", "@,
        )),
{
    let ghost ns = views(names@);
    let ghost ks = views(known@);
    let mut unknown: Vec<String> = Vec::new();
    let mut i: usize = 0;
    while i < names.len()
        invariant
            0 <= i <= names@.len(),
            ns == views(names@),
            ks == views(known@),
            views(unknown@) == unknown_names(ns.take(i as int), ks),
        decreases names@.len() - i,
    {
        assert(ns.take(i + 1).drop_last() =~= ns.take(i as int));
        assert(ns.take(i + 1).last() == names@[i as int]@);
        if !list_contains(known, names[i].as_str()) {
            unknown.push(names[i].clone());
            assert(views(unknown@) =~= unknown_names(ns.take(i + 1), ks));
        }
        i += 1;
    }
    assert(ns.take(names@.len() as int) =~= ns);
    if unknown.len() == 0 {
        return Ok(());
    }
    let mut m = concat("unknown ", kind);
    m.append(": ");
    let listed = join_strings(unknown.as_slice(), ", ");
    m.append(listed.as_str());
    Err(ApiError::BadRequest(m))
}

// ---------------------------------------------------------------------------
// Planning a task
// ---------------------------------------------------------------------------

/// One subtask of a planned task: its place in row-major order and its pair.
#[derive(Clone, Debug)]
pub struct PlannedCell {
    pub ordinal: usize,
    pub group_name: String,
    pub sig_alg: String,
}

/// A validated task: the trimmed host, the collapsed axes, and one cell per pair.
#[derive(Clone, Debug)]
pub struct TestPlan {
    pub host: String,
    pub groups: Vec<String>,
    pub sig_algs: Vec<String>,
    pub cells: Vec<PlannedCell>,
}

/// Why a task is refused, if it is: checked in this order.
pub open spec fn plan_error(body: NewTest, max: usize) -> Option<Seq<char>> {
    if trim(body.host@).len() == 0 {
        Some("host is required"@)
    } else if !(1 <= body.port <= 65535) {
        Some("port must be 1-65535"@)
    } else if body.groups@.len() == 0 || body.sig_algs@.len() == 0 {
        Some("select at least one group and one signature algorithm"@)
    } else if !starts_with(body.http_path@, seq!['/']) {
        Some("http path must start with /"@)
    } else {
        let n = dedupe_spec(views(body.groups@)).len() * dedupe_spec(views(body.sig_algs@)).len();
        if n > max {
            Some(
                decimal(n) + " subtasks exceeds the limit of "@ + decimal(max as nat)
                    + "; narrow the selection"@,
            )
        } else {
            None
        }
    }
}

pub open spec fn cell_matches(c: PlannedCell, k: int, group: Seq<char>, alg: Seq<char>) -> bool {
    c.ordinal == k && c.group_name@ == group && c.sig_alg@ == alg
}

/// One cell per (group, signature algorithm) pair, a row per group: the cell of group
/// `g` and algorithm `s` is number `g * |algs| + s`.
pub open spec fn row_major(cells: Seq<PlannedCell>, gs: Seq<Seq<char>>, ss: Seq<Seq<char>>) -> bool {
    &&& cells.len() == gs.len() * ss.len()
    &&& forall|g: int, s: int|
        #![trigger gs[g], ss[s]]
        0 <= g < gs.len() && 0 <= s < ss.len() ==> cell_matches(
            cells[g * ss.len() + s],
            g * ss.len() + s,
            gs[g],
            ss[s],
        )
}

proof fn lemma_row_index(gi: int, si: int, g: int, n: int)
    requires
        0 <= gi < g,
        0 <= si < n,
    ensures
        0 <= gi * n + si < g * n,
        gi * n + si + 1 <= g * n,
{
    assert(gi * n + si < g * n) by (nonlinear_arith)
        requires
            0 <= gi < g,
            0 <= si < n,
    ;
    assert(0 <= gi * n) by (nonlinear_arith)
        requires
            0 <= gi,
            0 <= n,
    ;
}

fn bad_request(message: String) -> (res: Result<TestPlan, ApiError>)
    ensures
        res == Err::<TestPlan, ApiError>(ApiError::BadRequest(message)),
{
    Err(ApiError::BadRequest(message))
}

/// Validates a new task and expands its axes into subtasks.
pub fn plan_test(body: &NewTest, max: usize) -> (res: Result<TestPlan, ApiError>)
    ensures
        match res {
            Err(ApiError::BadRequest(m)) => plan_error(*body, max) == Some(m@),
            Err(_) => false,
            Ok(plan) => {
                &&& plan_error(*body, max) is None
                &&& plan.host@ == trim(body.host@)
                &&& views(plan.groups@) == dedupe_spec(views(body.groups@))
                &&& views(plan.sig_algs@) == dedupe_spec(views(body.sig_algs@))
                &&& row_major(plan.cells@, views(plan.groups@), views(plan.sig_algs@))
            },
        },
{
    let host = trimmed(&chars_of(body.host.as_str()));
    if host.len() == 0 {
        return bad_request(owned("host is required"));
    }
    if !(1 <= body.port && body.port <= 65535) {
        return bad_request(owned("port must be 1-65535"));
    }
    if body.groups.len() == 0 || body.sig_algs.len() == 0 {
        return bad_request(owned("select at least one group and one signature algorithm"));
    }
    let slash = vec!['/'];
    assert(slash@ =~= seq!['/']);
    if !starts_with_chars(&chars_of(body.http_path.as_str()), &slash) {
        return bad_request(owned("http path must start with /"));
    }
    let groups = dedupe(body.groups.as_slice());
    let sig_algs = dedupe(body.sig_algs.as_slice());
    let gl = groups.len();
    let sl = sig_algs.len();
    // Counted in 128 bits: two machine-word lengths cannot overflow it.
    assert((gl as int) * (sl as int) <= u128::MAX) by (nonlinear_arith)
        requires
            0 <= gl <= 0xffff_ffff_ffff_ffffint,
            0 <= sl <= 0xffff_ffff_ffff_ffffint,
    ;
    let count: u128 = (gl as u128) * (sl as u128);
    if count > max as u128 {
        let mut m: Vec<char> = Vec::new();
        push_decimal_wide(&mut m, count);
        let mut text = string_of(&m);
        text.append(" subtasks exceeds the limit of ");
        let mut m2: Vec<char> = Vec::new();
        push_decimal(&mut m2, max as u64);
        let limit = string_of(&m2);
        text.append(limit.as_str());
        text.append("; narrow the selection");
        return bad_request(text);
    }
    let ghost gs = views(groups@);
    let ghost ss = views(sig_algs@);
    let mut cells: Vec<PlannedCell> = Vec::new();
    let mut g: usize = 0;
    while g < gl
        invariant
            gl == groups@.len(),
            sl == sig_algs@.len(),
            gs == views(groups@),
            ss == views(sig_algs@),
            gl * sl <= usize::MAX,
            0 <= g <= gl,
            cells@.len() == g * sl,
            forall|gi: int, si: int|
                #![trigger gs[gi], ss[si]]
                0 <= gi < g && 0 <= si < sl ==> cell_matches(cells@[gi * sl + si], gi * sl + si, gs[gi], ss[si]),
        decreases gl - g,
    {
        let mut s: usize = 0;
        while s < sl
            invariant
                gl == groups@.len(),
                sl == sig_algs@.len(),
                gs == views(groups@),
                ss == views(sig_algs@),
                gl * sl <= usize::MAX,
                0 <= g < gl,
                0 <= s <= sl,
                cells@.len() == g * sl + s,
                forall|gi: int, si: int|
                    #![trigger gs[gi], ss[si]]
                    (0 <= gi < g && 0 <= si < sl) || (gi == g && 0 <= si < s) ==> cell_matches(
                        cells@[gi * sl + si],
                        gi * sl + si,
                        gs[gi],
                        ss[si],
                    ),
            decreases sl - s,
        {
            proof {
                lemma_row_index(g as int, s as int, gl as int, sl as int);
            }
            let ordinal = g * sl + s;
            let ghost before = cells@;
            cells.push(
                PlannedCell {
                    ordinal,
                    group_name: groups[g].clone(),
                    sig_alg: sig_algs[s].clone(),
                },
            );
            proof {
                assert forall|gi: int, si: int|
                    #![trigger gs[gi], ss[si]]
                    (0 <= gi < g && 0 <= si < sl) || (gi == g && 0 <= si < s + 1) implies cell_matches(
                        cells@[gi * sl + si],
                        gi * sl + si,
                        gs[gi],
                        ss[si],
                    ) by {
                    if gi < g {
                        lemma_row_index(gi, si, g as int, sl as int);
                        assert(cells@[gi * sl + si] == before[gi * sl + si]);
                    } else if si < s {
                        assert(cells@[gi * sl + si] == before[gi * sl + si]);
                    }
                }
            }
            s += 1;
        }
        assert((g + 1) * sl == g * sl + sl) by (nonlinear_arith);
        g += 1;
    }
    Ok(TestPlan { host: string_of(&host), groups, sig_algs, cells })
}

// ---------------------------------------------------------------------------
// Matrix axes
// ---------------------------------------------------------------------------

pub open spec fn firsts(rows: Seq<(String, String)>) -> Seq<Seq<char>> {
    rows.map_values(|r: (String, String)| r.0@)
}

pub open spec fn seconds(rows: Seq<(String, String)>) -> Seq<Seq<char>> {
    rows.map_values(|r: (String, String)| r.1@)
}

/// The axes of the matrix from its subtasks in ordinal order: each group and each
/// signature algorithm once, in the order first met, which keeps the selection's order.
pub fn matrix_axes(rows: &[(String, String)]) -> (res: (Vec<String>, Vec<String>))
    ensures
        views(res.0@) == distinct(firsts(rows@)),
        views(res.1@) == distinct(seconds(rows@)),
{
    let ghost fs = firsts(rows@);
    let ghost ss = seconds(rows@);
    let mut groups: Vec<String> = Vec::new();
    let mut algs: Vec<String> = Vec::new();
    let mut i: usize = 0;
    while i < rows.len()
        invariant
            0 <= i <= rows@.len(),
            fs == firsts(rows@),
            ss == seconds(rows@),
            views(groups@) == distinct(fs.take(i as int)),
            views(algs@) == distinct(ss.take(i as int)),
        decreases rows@.len() - i,
    {
        assert(fs.take(i + 1).drop_last() =~= fs.take(i as int));
        assert(ss.take(i + 1).drop_last() =~= ss.take(i as int));
        assert(fs.take(i + 1).last() == rows@[i as int].0@);
        assert(ss.take(i + 1).last() == rows@[i as int].1@);
        if !list_contains(groups.as_slice(), rows[i].0.as_str()) {
            groups.push(rows[i].0.clone());
            assert(views(groups@) =~= distinct(fs.take(i + 1)));
        }
        if !list_contains(algs.as_slice(), rows[i].1.as_str()) {
            algs.push(rows[i].1.clone());
            assert(views(algs@) =~= distinct(ss.take(i + 1)));
        }
        i += 1;
    }
    assert(fs.take(rows@.len() as int) =~= fs);
    assert(ss.take(rows@.len() as int) =~= ss);
    (groups, algs)
}

} // verus!
