//! KEM DEMO runs: the library compatibility matrix, the group handshake and the
//! preference-order probe. The worker performs the handshakes and writes the console;
//! the decisions about what to offer, what to log and how to judge an order live here.

use vstd::prelude::*;

use crate::jobs::KemJob;
use crate::proto::{negotiated_view, opt_view, ProbeRequest, ProbeResponse, Target};
use crate::status::ResultStatus;
use crate::text::{
    chars_eq, chars_of, contains, contains_chars, decimal, eq_ignore_ascii_case,
    eq_ignore_case_chars, join, join_strings, lemma_eq_ignore_case_is_lower_eq, lower, lower_chars,
    owned, push_decimal, string_of, views,
};

verus! {

// ---------------------------------------------------------------------------
// Security levels
// ---------------------------------------------------------------------------

/// Groups that give no post-quantum protection, in the spellings stacks report.
pub open spec fn classical_names() -> Seq<Seq<char>> {
    seq![
        "x25519"@,
        "x448"@,
        "secp256r1"@,
        "secp384r1"@,
        "secp521r1"@,
        "prime256v1"@,
        "prime384v1"@,
        "prime521v1"@,
        "p-256"@,
        "p-384"@,
        "p-521"@,
    ]
}

/// The group, lowercased, is one of the classical names.
pub open spec fn classical(group: Seq<char>) -> bool {
    exists|i: int| 0 <= i < classical_names().len() && #[trigger] classical_names()[i] == lower(group)
}

/// Coarse security level of a post-quantum group; none for a classical one.
pub open spec fn pq_level_spec(group: Seq<char>) -> Option<u8> {
    let g = lower(group);
    if classical(group) {
        None
    } else if contains(g, "1024"@) || contains(g, "mceliece460896"@) {
        Some(5u8)
    } else if contains(g, "768"@) || contains(g, "976"@) {
        Some(3u8)
    } else if contains(g, "512"@) || contains(g, "640"@) {
        Some(1u8)
    } else {
        Some(3u8)
    }
}

/// Every spelling of a classical curve that stacks report, in any ASCII case, is
/// classical and has no post-quantum level.
pub proof fn lemma_classical_spellings(group: Seq<char>)
    requires
        lower(group) == "x25519"@ || lower(group) == "x448"@ || lower(group) == "secp256r1"@
            || lower(group) == "secp384r1"@ || lower(group) == "secp521r1"@ || lower(group)
            == "prime256v1"@ || lower(group) == "prime384v1"@ || lower(group) == "prime521v1"@
            || lower(group) == "p-256"@ || lower(group) == "p-384"@ || lower(group) == "p-521"@,
    ensures
        classical(group),
        pq_level_spec(group) is None,
{
    let names = classical_names();
    let g = lower(group);
    if g == "x25519"@ {
        assert(names[0] == g);
    } else if g == "x448"@ {
        assert(names[1] == g);
    } else if g == "secp256r1"@ {
        assert(names[2] == g);
    } else if g == "secp384r1"@ {
        assert(names[3] == g);
    } else if g == "secp521r1"@ {
        assert(names[4] == g);
    } else if g == "prime256v1"@ {
        assert(names[5] == g);
    } else if g == "prime384v1"@ {
        assert(names[6] == g);
    } else if g == "prime521v1"@ {
        assert(names[7] == g);
    } else if g == "p-256"@ {
        assert(names[8] == g);
    } else if g == "p-384"@ {
        assert(names[9] == g);
    } else {
        assert(names[10] == g);
    }
}

fn classical_list() -> (res: Vec<Vec<char>>)
    ensures
        res@.len() == classical_names().len(),
        forall|i: int| 0 <= i < res@.len() ==> #[trigger] res@[i]@ == classical_names()[i],
{
    let mut v: Vec<Vec<char>> = Vec::new();
    v.push(chars_of("x25519"));
    v.push(chars_of("x448"));
    v.push(chars_of("secp256r1"));
    v.push(chars_of("secp384r1"));
    v.push(chars_of("secp521r1"));
    v.push(chars_of("prime256v1"));
    v.push(chars_of("prime384v1"));
    v.push(chars_of("prime521v1"));
    v.push(chars_of("p-256"));
    v.push(chars_of("p-384"));
    v.push(chars_of("p-521"));
    v
}

/// Whether a group is one of the classical ones, ignoring ASCII case.
pub fn is_classical(group: &str) -> (res: bool)
    ensures
        res == classical(group@),
{
    let g = lower_chars(&chars_of(group));
    let names = classical_list();
    let mut i: usize = 0;
    while i < names.len()
        invariant
            0 <= i <= names@.len(),
            g@ == lower(group@),
            names@.len() == classical_names().len(),
            forall|k: int| 0 <= k < names@.len() ==> #[trigger] names@[k]@ == classical_names()[k],
            forall|k: int| 0 <= k < i ==> classical_names()[k] != g@,
        decreases names@.len() - i,
    {
        if chars_eq(&names[i], &g) {
            assert(classical_names()[i as int] == lower(group@));
            return true;
        }
        i += 1;
    }
    assert forall|k: int| 0 <= k < classical_names().len() implies #[trigger] classical_names()[k]
        != lower(group@) by {
        assert(names@[k]@ == classical_names()[k]);
    }
    false
}

fn holds(h: &Vec<char>, needle: &str) -> (res: bool)
    ensures
        res == contains(h@, needle@),
{
    contains_chars(h, &chars_of(needle))
}

/// Coarse security level used for the descending-order check among post-quantum groups.
pub fn pq_level(group: &str) -> (res: Option<u8>)
    ensures
        res == pq_level_spec(group@),
{
    let g = lower_chars(&chars_of(group));
    if is_classical(group) {
        return None;
    }
    if holds(&g, "1024") || holds(&g, "mceliece460896") {
        Some(5)
    } else if holds(&g, "768") || holds(&g, "976") {
        Some(3)
    } else if holds(&g, "512") || holds(&g, "640") {
        Some(1)
    } else {
        Some(3)
    }
}

// ---------------------------------------------------------------------------
// Judging a recovered preference order
// ---------------------------------------------------------------------------

/// `group` is post-quantum with a level below `level`.
pub open spec fn weaker(group: Seq<char>, level: u8) -> bool {
    match pq_level_spec(group) {
        Some(l) => l < level,
        None => false,
    }
}

/// A post-quantum group is misplaced when a classical group, or a weaker post-quantum
/// one, comes before it.
pub open spec fn misplaced(before: Seq<Seq<char>>, group: Seq<char>) -> bool {
    match pq_level_spec(group) {
        None => false,
        Some(level) => {
            ||| exists|j: int| 0 <= j < before.len() && #[trigger] pq_level_spec(before[j]) is None
            ||| exists|j: int| 0 <= j < before.len() && #[trigger] weaker(before[j], level)
        },
    }
}

/// The misplaced groups of an order, in order.
pub open spec fn findings(order: Seq<Seq<char>>) -> Seq<Seq<char>>
    decreases order.len(),
{
    if order.len() == 0 {
        Seq::empty()
    } else {
        let r = findings(order.drop_last());
        if misplaced(order.drop_last(), order.last()) {
            r.push(order.last())
        } else {
            r
        }
    }
}

/// Lowest post-quantum level in a sequence of groups.
pub open spec fn min_pq(s: Seq<Seq<char>>) -> Option<u8>
    decreases s.len(),
{
    if s.len() == 0 {
        None
    } else {
        let r = min_pq(s.drop_last());
        match pq_level_spec(s.last()) {
            None => r,
            Some(l) => Some(
                match r {
                    None => l,
                    Some(b) => if l < b {
                        l
                    } else {
                        b
                    },
                },
            ),
        }
    }
}

proof fn lemma_min_pq(s: Seq<Seq<char>>)
    ensures
        min_pq(s) is Some ==> exists|j: int|
            0 <= j < s.len() && #[trigger] pq_level_spec(s[j]) == min_pq(s),
        forall|j: int|
            0 <= j < s.len() && (#[trigger] pq_level_spec(s[j]) is Some) ==> (min_pq(s) is Some
                && min_pq(s)->0 <= pq_level_spec(s[j])->0),
    decreases s.len(),
{
    if s.len() > 0 {
        let p = s.drop_last();
        lemma_min_pq(p);
        assert forall|j: int| 0 <= j < p.len() implies #[trigger] p[j] == s[j] by {}
        assert forall|j: int|
            0 <= j < s.len() && (#[trigger] pq_level_spec(s[j]) is Some) implies (min_pq(s) is Some
                && min_pq(s)->0 <= pq_level_spec(s[j])->0) by {
            if j < p.len() {
                assert(pq_level_spec(p[j]) is Some);
            }
        }
        if min_pq(s) is Some {
            if min_pq(p) is Some && min_pq(s) == min_pq(p) {
                let j = choose|j: int| 0 <= j < p.len() && #[trigger] pq_level_spec(p[j]) == min_pq(p);
                assert(pq_level_spec(s[j]) == min_pq(s));
            } else {
                assert(pq_level_spec(s[s.len() - 1]) == min_pq(s));
            }
        }
    }
}

proof fn lemma_misplaced_by_min(before: Seq<Seq<char>>, level: u8)
    ensures
        (exists|j: int| 0 <= j < before.len() && #[trigger] weaker(before[j], level)) <==> (
        min_pq(before) is Some && min_pq(before)->0 < level),
{
    lemma_min_pq(before);
    if min_pq(before) is Some && min_pq(before)->0 < level {
        let j = choose|j: int|
            0 <= j < before.len() && #[trigger] pq_level_spec(before[j]) == min_pq(before);
        assert(weaker(before[j], level));
    }
    if exists|j: int| 0 <= j < before.len() && #[trigger] weaker(before[j], level) {
        let j = choose|j: int| 0 <= j < before.len() && #[trigger] weaker(before[j], level);
        assert(pq_level_spec(before[j]) is Some);
    }
}

/// Groups that sit behind something weaker than themselves: a post-quantum group after
/// any classical group, or after a post-quantum group of a lower level.
pub fn evaluate_order(order: &[String]) -> (res: Vec<String>)
    ensures
        views(res@) == findings(views(order@)),
{
    let ghost os = views(order@);
    let mut out: Vec<String> = Vec::new();
    let mut seen_classical = false;
    let mut best: Option<u8> = None;
    let mut i: usize = 0;
    while i < order.len()
        invariant
            0 <= i <= order@.len(),
            os == views(order@),
            views(out@) == findings(os.take(i as int)),
            seen_classical == exists|j: int|
                0 <= j < i && #[trigger] pq_level_spec(os[j]) is None,
            best == min_pq(os.take(i as int)),
        decreases order@.len() - i,
    {
        let ghost before = os.take(i as int);
        assert(os.take(i + 1).drop_last() =~= before);
        assert(os.take(i + 1).last() == order@[i as int]@);
        assert forall|j: int| 0 <= j < i implies #[trigger] before[j] == os[j] by {}
        let level = pq_level(order[i].as_str());
        match level {
            None => {
                assert(!misplaced(before, os[i as int]));
                seen_classical = true;
            },
            Some(l) => {
                proof {
                    lemma_misplaced_by_min(before, l);
                    if seen_classical {
                        let j = choose|j: int| 0 <= j < i && #[trigger] pq_level_spec(os[j]) is None;
                        assert(pq_level_spec(before[j]) is None);
                    }
                    if exists|j: int| 0 <= j < before.len() && #[trigger] pq_level_spec(before[j]) is None {
                        let j = choose|j: int|
                            0 <= j < before.len() && #[trigger] pq_level_spec(before[j]) is None;
                        assert(pq_level_spec(os[j]) is None);
                    }
                }
                let behind_classical = seen_classical;
                let behind_weaker = match best {
                    Some(b) => l > b,
                    None => false,
                };
                if behind_classical || behind_weaker {
                    out.push(order[i].clone());
                }
                best = Some(
                    match best {
                        None => l,
                        Some(b) => if l < b {
                            l
                        } else {
                            b
                        },
                    },
                );
            },
        }
        proof {
            if seen_classical {
                if pq_level_spec(os[i as int]) is None {
                    assert(pq_level_spec(os[i as int]) is None);
                }
            } else {
                assert forall|j: int| 0 <= j < i + 1 implies !(#[trigger] pq_level_spec(os[j]) is None) by {
                    if j < i {
                    }
                }
            }
            assert(views(out@) =~= findings(os.take(i + 1)));
            assert forall|j: int| 0 <= j < i + 1 implies #[trigger] os.take(i + 1)[j] == os[j] by {}
        }
        i += 1;
    }
    assert(os.take(order@.len() as int) =~= os);
    out
}

/// Every finding is a post-quantum group of the order, and the findings keep the order's
/// sequence.
pub proof fn lemma_findings_are_pq(order: Seq<Seq<char>>)
    ensures
        forall|k: int|
            0 <= k < findings(order).len() ==> #[trigger] pq_level_spec(findings(order)[k]) is Some,
        findings(order).len() <= order.len(),
    decreases order.len(),
{
    if order.len() > 0 {
        lemma_findings_are_pq(order.drop_last());
    }
}

/// An order that lists post-quantum groups first, strongest first, and classical groups
/// only after all of them, yields no findings.
pub proof fn lemma_descending_order_is_clean(order: Seq<Seq<char>>)
    requires
        forall|i: int, j: int|
            0 <= i < j < order.len() && #[trigger] pq_level_spec(order[i]) is None ==> #[trigger] pq_level_spec(
                order[j],
            ) is None,
        forall|i: int, j: int|
            0 <= i < j < order.len() && #[trigger] pq_level_spec(order[i]) is Some
                && #[trigger] pq_level_spec(order[j]) is Some ==> pq_level_spec(order[i])->0
                >= pq_level_spec(order[j])->0,
    ensures
        findings(order).len() == 0,
    decreases order.len(),
{
    if order.len() > 0 {
        let p = order.drop_last();
        assert forall|j: int| 0 <= j < p.len() implies #[trigger] p[j] == order[j] by {}
        lemma_descending_order_is_clean(p);
        let n = order.len() - 1;
        if let Some(level) = pq_level_spec(order.last()) {
            assert(order.last() == order[n]);
            if exists|j: int| 0 <= j < p.len() && #[trigger] pq_level_spec(p[j]) is None {
                let j = choose|j: int| 0 <= j < p.len() && #[trigger] pq_level_spec(p[j]) is None;
                assert(pq_level_spec(order[j]) is None);
                assert(pq_level_spec(order[n]) is None);
            }
            if exists|j: int| 0 <= j < p.len() && #[trigger] weaker(p[j], level) {
                let j = choose|j: int| 0 <= j < p.len() && #[trigger] weaker(p[j], level);
                assert(pq_level_spec(order[j]) is Some);
                assert(pq_level_spec(order[n]) is Some);
            }
        }
    }
}

/// An order that lists post-quantum groups strongest first and then only classical
/// curves, in any of the spellings stacks report and any ASCII case, has no findings:
/// classical curves are not ranked against each other.
pub proof fn lemma_pq_then_classical_is_clean(order: Seq<Seq<char>>, m: int)
    requires
        0 <= m <= order.len(),
        forall|i: int| 0 <= i < m ==> #[trigger] pq_level_spec(order[i]) is Some,
        forall|i: int, j: int|
            0 <= i < j < m ==> pq_level_spec(#[trigger] order[i])->0 >= pq_level_spec(
                #[trigger] order[j],
            )->0,
        forall|i: int|
            m <= i < order.len() ==> {
                let g = lower(#[trigger] order[i]);
                g == "x25519"@ || g == "x448"@ || g == "secp256r1"@ || g == "secp384r1"@ || g
                    == "secp521r1"@ || g == "prime256v1"@ || g == "prime384v1"@ || g
                    == "prime521v1"@ || g == "p-256"@ || g == "p-384"@ || g == "p-521"@
            },
    ensures
        findings(order).len() == 0,
{
    assert forall|i: int| m <= i < order.len() implies #[trigger] pq_level_spec(order[i]) is None by {
        lemma_classical_spellings(order[i]);
    }
    assert forall|i: int, j: int|
        0 <= i < j < order.len() && #[trigger] pq_level_spec(order[i]) is None implies #[trigger] pq_level_spec(
            order[j],
        ) is None by {
        if i < m {
            assert(pq_level_spec(order[i]) is Some);
        }
    }
    assert forall|i: int, j: int|
        0 <= i < j < order.len() && #[trigger] pq_level_spec(order[i]) is Some
            && #[trigger] pq_level_spec(order[j]) is Some implies pq_level_spec(order[i])->0
        >= pq_level_spec(order[j])->0 by {
        if j >= m {
            assert(pq_level_spec(order[j]) is None);
        }
    }
    lemma_descending_order_is_clean(order);
}

/// A post-quantum group placed after a classical group is always reported.
pub proof fn lemma_pq_after_classical_is_flagged(order: Seq<Seq<char>>, i: int, j: int)
    requires
        0 <= i < j < order.len(),
        pq_level_spec(order[i]) is None,
        pq_level_spec(order[j]) is Some,
    ensures
        findings(order).contains(order[j]),
    decreases order.len(),
{
    let p = order.drop_last();
    assert forall|k: int| 0 <= k < p.len() implies #[trigger] p[k] == order[k] by {}
    if j == order.len() - 1 {
        assert(pq_level_spec(p[i]) is None);
        assert(misplaced(p, order.last()));
        assert(findings(order).last() == order[j]);
    } else {
        lemma_pq_after_classical_is_flagged(p, i, j);
        let k = choose|k: int| 0 <= k < findings(p).len() && findings(p)[k] == p[j];
        assert(findings(order)[k] == order[j]);
    }
}

/// A post-quantum group placed after a weaker post-quantum group is always reported.
pub proof fn lemma_stronger_after_weaker_is_flagged(order: Seq<Seq<char>>, i: int, j: int)
    requires
        0 <= i < j < order.len(),
        pq_level_spec(order[i]) is Some,
        pq_level_spec(order[j]) is Some,
        pq_level_spec(order[i])->0 < pq_level_spec(order[j])->0,
    ensures
        findings(order).contains(order[j]),
    decreases order.len(),
{
    let p = order.drop_last();
    assert forall|k: int| 0 <= k < p.len() implies #[trigger] p[k] == order[k] by {}
    if j == order.len() - 1 {
        assert(weaker(p[i], pq_level_spec(order[j])->0));
        assert(misplaced(p, order.last()));
        assert(findings(order).last() == order[j]);
    } else {
        lemma_stronger_after_weaker_is_flagged(p, i, j);
        let k = choose|k: int| 0 <= k < findings(p).len() && findings(p)[k] == p[j];
        assert(findings(order)[k] == order[j]);
    }
}


// ---------------------------------------------------------------------------
// Console lines
// ---------------------------------------------------------------------------

/// One line of the run console: `info`, `finding_ok`, `finding_warn` or `result`.
#[derive(Clone, Debug)]
pub struct LogLine {
    pub level: String,
    pub message: String,
}

pub open spec fn log_views(v: Seq<LogLine>) -> Seq<(Seq<char>, Seq<char>)> {
    v.map_values(|l: LogLine| (l.level@, l.message@))
}

fn line(level: &str, message: String) -> (res: LogLine)
    ensures
        res.level@ == level@,
        res.message == message,
{
    LogLine { level: owned(level), message }
}

/// `=== <name> (<host>:<port>) ===`, the first console line of every mode.
pub open spec fn banner_spec(name: Seq<char>, host: Seq<char>, port: u16) -> Seq<char> {
    "=== "@ + name + " ("@ + host + ":"@ + decimal(port as nat) + ") ==="@
}

pub fn banner(name: &str, host: &str, port: u16) -> (res: String)
    ensures
        res@ == banner_spec(name@, host@, port),
{
    let mut out = owned("=== ");
    out.append(name);
    out.append(" (");
    out.append(host);
    out.append(":");
    let mut digits: Vec<char> = Vec::new();
    push_decimal(&mut digits, port as u64);
    assert(digits@ =~= decimal(port as nat));
    let d = string_of(&digits);
    out.append(d.as_str());
    out.append(") ===");
    out
}

pub open spec fn status_phrase(status: u16) -> Seq<char> {
    match status {
        200 => "OK"@,
        204 => "No Content"@,
        301 => "Moved Permanently"@,
        302 => "Found"@,
        400 => "Bad Request"@,
        403 => "Forbidden"@,
        404 => "Not Found"@,
        500 => "Internal Server Error"@,
        _ => ""@,
    }
}

/// The reason phrase printed after an HTTP status code.
pub fn status_text(status: u16) -> (res: &'static str)
    ensures
        res@ == status_phrase(status),
{
    match status {
        200 => "OK",
        204 => "No Content",
        301 => "Moved Permanently",
        302 => "Found",
        400 => "Bad Request",
        403 => "Forbidden",
        404 => "Not Found",
        500 => "Internal Server Error",
        _ => "",
    }
}

pub open spec fn or_unknown(o: Option<Seq<char>>) -> Seq<char> {
    match o {
        Some(s) => s,
        None => "unknown"@,
    }
}

/// The summary line of a successful handshake.
pub open spec fn result_line_spec(r: ProbeResponse) -> Seq<char> {
    let n = negotiated_view(r.negotiated);
    "Result: ApplicationData - "@ + or_unknown(n.0) + " "@ + or_unknown(n.1) + "; group="@
        + or_unknown(n.2) + "; sent="@ + decimal(r.evidence.bytes_sent as nat)
        + " bytes; received="@ + decimal(r.evidence.bytes_received as nat) + " bytes"@
}

fn or_unknown_str(o: &Option<String>) -> (res: String)
    ensures
        res@ == or_unknown(opt_view(*o)),
{
    match o {
        Some(s) => s.clone(),
        None => owned("unknown"),
    }
}

fn append_decimal(out: &mut String, n: u64)
    ensures
        final(out)@ == old(out)@ + decimal(n as nat),
{
    let mut digits: Vec<char> = Vec::new();
    push_decimal(&mut digits, n);
    assert(digits@ =~= decimal(n as nat));
    let d = string_of(&digits);
    out.append(d.as_str());
}

pub fn result_line(response: &ProbeResponse) -> (res: String)
    ensures
        res@ == result_line_spec(*response),
{
    let mut out = owned("Result: ApplicationData - ");
    out.append(or_unknown_str(&response.negotiated.tls_version).as_str());
    out.append(" ");
    out.append(or_unknown_str(&response.negotiated.cipher_suite).as_str());
    out.append("; group=");
    out.append(or_unknown_str(&response.negotiated.group).as_str());
    out.append("; sent=");
    append_decimal(&mut out, response.evidence.bytes_sent);
    out.append(" bytes; received=");
    append_decimal(&mut out, response.evidence.bytes_received);
    out.append(" bytes");
    out
}

// ---------------------------------------------------------------------------
// Which adapter drives a single-stack run
// ---------------------------------------------------------------------------

/// OpenSSL first (widest PQC group list), then Go, BoringSSL, wolfSSL; else the first
/// configured adapter.
pub open spec fn preferred_spec(names: Seq<Seq<char>>) -> Option<Seq<char>> {
    if names.contains("openssl"@) {
        Some("openssl"@)
    } else if names.contains("go"@) {
        Some("go"@)
    } else if names.contains("boringssl"@) {
        Some("boringssl"@)
    } else if names.contains("wolfssl"@) {
        Some("wolfssl"@)
    } else if names.len() > 0 {
        Some(names[0])
    } else {
        None
    }
}

fn has_name(names: &Vec<String>, name: &str) -> (res: bool)
    ensures
        res == views(names@).contains(name@),
{
    let target = chars_of(name);
    let mut i: usize = 0;
    while i < names.len()
        invariant
            0 <= i <= names@.len(),
            target@ == name@,
            forall|j: int| 0 <= j < i ==> #[trigger] views(names@)[j] != name@,
        decreases names@.len() - i,
    {
        let c = chars_of(names[i].as_str());
        if chars_eq(&c, &target) {
            assert(views(names@)[i as int] == name@);
            return true;
        }
        i += 1;
    }
    false
}

/// The adapter a single-stack run uses, given the configured adapter names; none when
/// nothing is configured.
pub fn preferred_adapter(names: &Vec<String>) -> (res: Option<String>)
    ensures
        opt_view(res) == preferred_spec(views(names@)),
{
    if has_name(names, "openssl") {
        Some(owned("openssl"))
    } else if has_name(names, "go") {
        Some(owned("go"))
    } else if has_name(names, "boringssl") {
        Some(owned("boringssl"))
    } else if has_name(names, "wolfssl") {
        Some(owned("wolfssl"))
    } else if names.len() > 0 {
        Some(names[0].clone())
    } else {
        None
    }
}

/// A request aimed at the run's endpoint, offering `groups`.
pub fn request_for(job: &KemJob, groups: Vec<String>) -> (res: ProbeRequest)
    ensures
        res.target.host == job.host,
        res.target.port == job.port,
        res.target.sni == Some(job.host),
        opt_view(res.target.http_path) == Some("/"@),
        res.kem_groups == groups,
        res.sig_algs@.len() == 0,
        views(res.tls_versions@) == crate::proto::default_tls_version_views(),
        res.cipher_suites@.len() == 0,
        res.timeout_ms == 15_000,
        !res.capture.raw_records,
        !res.capture.keylog,
{
    let mut request = ProbeRequest::new(
        Target {
            host: job.host.clone(),
            port: job.port,
            sni: Some(job.host.clone()),
            http_path: Some(owned("/")),
        },
    );
    request.kem_groups = groups;
    request
}

// ---------------------------------------------------------------------------
// Library compatibility matrix
// ---------------------------------------------------------------------------

/// The adapter columns of the compatibility matrix.
pub open spec fn matrix_adapter_names() -> Seq<Seq<char>> {
    seq!["openssl"@, "boringssl"@, "wolfssl"@, "go"@, "bouncycastle"@, "aws-lc"@, "nss"@, "circl"@]
}

/// The KEM rows of the compatibility matrix.
pub open spec fn matrix_kem_names() -> Seq<Seq<char>> {
    seq![
        "MLKEM1024"@,
        "MLKEM768"@,
        "SecP256r1MLKEM768"@,
        "SecP384r1MLKEM1024"@,
        "X25519Kyber768Draft00"@,
        "X25519MLKEM768"@,
    ]
}

pub fn matrix_adapters() -> (res: Vec<String>)
    ensures
        views(res@) == matrix_adapter_names(),
{
    let mut v: Vec<String> = Vec::new();
    v.push(owned("openssl"));
    v.push(owned("boringssl"));
    v.push(owned("wolfssl"));
    v.push(owned("go"));
    v.push(owned("bouncycastle"));
    v.push(owned("aws-lc"));
    v.push(owned("nss"));
    v.push(owned("circl"));
    assert(views(v@) =~= matrix_adapter_names());
    v
}

pub fn matrix_kems() -> (res: Vec<String>)
    ensures
        views(res@) == matrix_kem_names(),
{
    let mut v: Vec<String> = Vec::new();
    v.push(owned("MLKEM1024"));
    v.push(owned("MLKEM768"));
    v.push(owned("SecP256r1MLKEM768"));
    v.push(owned("SecP384r1MLKEM1024"));
    v.push(owned("X25519Kyber768Draft00"));
    v.push(owned("X25519MLKEM768"));
    assert(views(v@) =~= matrix_kem_names());
    v
}

/// The cells of the compatibility matrix in the order they are run and reported: a row
/// per KEM, each row across every adapter column, so cell `k * |adapters| + a` pairs KEM
/// `k` with adapter `a`.
pub fn matrix_cells() -> (res: Vec<(String, String)>)
    ensures
        res@.len() == matrix_kem_names().len() * matrix_adapter_names().len(),
        forall|k: int, a: int|
            #![trigger matrix_kem_names()[k], matrix_adapter_names()[a]]
            0 <= k < matrix_kem_names().len() && 0 <= a < matrix_adapter_names().len() ==> {
                let c = res@[k * matrix_adapter_names().len() + a];
                c.0@ == matrix_kem_names()[k] && c.1@ == matrix_adapter_names()[a]
            },
{
    let kems = matrix_kems();
    let adapters = matrix_adapters();
    let ghost ks = matrix_kem_names();
    let ghost ads = matrix_adapter_names();
    let n = adapters.len();
    let mut out: Vec<(String, String)> = Vec::new();
    let mut k: usize = 0;
    while k < kems.len()
        invariant
            0 <= k <= kems@.len(),
            views(kems@) == ks,
            views(adapters@) == ads,
            n == ads.len(),
            ks.len() == 6,
            ads.len() == 8,
            out@.len() == k * n,
            forall|i: int, a: int|
                0 <= i < k && 0 <= a < n ==> (#[trigger] out@[i * n + a]).0@ == ks[i]
                    && out@[i * n + a].1@ == ads[a],
        decreases kems@.len() - k,
    {
        let mut a: usize = 0;
        while a < adapters.len()
            invariant
                0 <= k < kems@.len(),
                0 <= a <= adapters@.len(),
                views(kems@) == ks,
                views(adapters@) == ads,
                n == ads.len(),
                ks.len() == 6,
                ads.len() == 8,
                out@.len() == k * n + a,
                forall|i: int, b: int|
                    0 <= i < k && 0 <= b < n ==> (#[trigger] out@[i * n + b]).0@ == ks[i]
                        && out@[i * n + b].1@ == ads[b],
                forall|b: int|
                    0 <= b < a ==> (#[trigger] out@[k * n + b]).0@ == ks[k as int]
                        && out@[k * n + b].1@ == ads[b],
            decreases adapters@.len() - a,
        {
            assert(views(kems@)[k as int] == kems@[k as int]@);
            assert(views(adapters@)[a as int] == adapters@[a as int]@);
            out.push((kems[k].clone(), adapters[a].clone()));
            proof {
                assert forall|i: int, b: int| 0 <= i < k && 0 <= b < n implies (#[trigger] out@[i
                    * n + b]).0@ == ks[i] && out@[i * n + b].1@ == ads[b] by {
                    assert(i * n + b < k * n) by (nonlinear_arith)
                        requires
                            0 <= i < k,
                            0 <= b < n,
                    ;
                }
            }
            a += 1;
        }
        proof {
            assert(out@.len() == (k + 1) * n) by (nonlinear_arith)
                requires
                    out@.len() == k * n + n,
            ;
        }
        k += 1;
    }
    out
}

/// What to do for one cell of the matrix before any handshake.
#[derive(Clone, Copy, Debug, PartialEq, Eq, Structural)]
pub enum CellPlan {
    /// The deployment does not run that adapter.
    Disabled,
    /// The adapter never advertised the KEM (or its capabilities are unavailable).
    Unsupported,
    /// Run a handshake offering the KEM.
    Probe,
}

pub open spec fn advertises(groups: Seq<Seq<char>>, kem: Seq<char>) -> bool {
    exists|i: int| 0 <= i < groups.len() && eq_ignore_ascii_case(#[trigger] groups[i], kem)
}

pub open spec fn cell_plan_spec(configured: bool, advertised: Option<Seq<Seq<char>>>, kem: Seq<
    char,
>) -> CellPlan {
    if !configured {
        CellPlan::Disabled
    } else {
        match advertised {
            Some(groups) => if advertises(groups, kem) {
                CellPlan::Probe
            } else {
                CellPlan::Unsupported
            },
            None => CellPlan::Unsupported,
        }
    }
}

/// A matrix cell is probed exactly when the adapter is configured, its capabilities were
/// fetched, and one advertised group is the cell's KEM up to ASCII case; a group that is
/// only part of the KEM's name does not count. An unconfigured adapter's cell is
/// disabled, never probed and never unsupported.
pub proof fn lemma_cell_probed_only_when_advertised(
    configured: bool,
    advertised: Option<Seq<Seq<char>>>,
    kem: Seq<char>,
)
    ensures
        (cell_plan_spec(configured, advertised, kem) == CellPlan::Probe) <==> (configured
            && advertised is Some && exists|i: int|
            0 <= i < advertised->0.len() && lower(#[trigger] advertised->0[i]) == lower(kem)),
        (cell_plan_spec(configured, advertised, kem) == CellPlan::Disabled) <==> !configured,
{
    if let Some(groups) = advertised {
        assert forall|i: int| 0 <= i < groups.len() implies eq_ignore_ascii_case(
            #[trigger] groups[i],
            kem,
        ) == (lower(groups[i]) == lower(kem)) by {
            lemma_eq_ignore_case_is_lower_eq(groups[i], kem);
        }
    }
}

/// Decides a matrix cell from whether the adapter is configured and the groups it
/// advertises (`None` when its capabilities could not be fetched).
pub fn cell_plan(configured: bool, advertised: Option<&Vec<String>>, kem: &str) -> (res: CellPlan)
    ensures
        res == cell_plan_spec(
            configured,
            match advertised {
                Some(g) => Some(views(g@)),
                None => None,
            },
            kem@,
        ),
{
    if !configured {
        return CellPlan::Disabled;
    }
    match advertised {
        Some(groups) => {
            let k = chars_of(kem);
            let mut i: usize = 0;
            while i < groups.len()
                invariant
                    0 <= i <= groups@.len(),
                    k@ == kem@,
                    configured,
                    advertised == Some(groups),
                    forall|j: int|
                        0 <= j < i ==> !eq_ignore_ascii_case(#[trigger] views(groups@)[j], kem@),
                decreases groups@.len() - i,
            {
                let g = chars_of(groups[i].as_str());
                if eq_ignore_case_chars(&g, &k) {
                    assert(views(groups@)[i as int] == g@);
                    assert(eq_ignore_ascii_case(views(groups@)[i as int], kem@));
                    assert(advertises(views(groups@), kem@));
                    return CellPlan::Probe;
                }
                i += 1;
            }
            CellPlan::Unsupported
        },
        None => CellPlan::Unsupported,
    }
}

/// The verdict of a probed cell: passed when the handshake succeeded, with the error
/// summary as detail.
pub fn cell_verdict(response: &ProbeResponse) -> (res: (ResultStatus, Option<String>))
    ensures
        res.0 == (if response.handshake_success {
            ResultStatus::Passed
        } else {
            ResultStatus::Failed
        }),
        res.1 == response.error_summary,
{
    let verdict = if response.handshake_success {
        ResultStatus::Passed
    } else {
        ResultStatus::Failed
    };
    (verdict, response.error_summary.clone())
}

/// `<adapter> × <kem>: PASS` or `FAIL`.
pub open spec fn cell_line_spec(adapter: Seq<char>, kem: Seq<char>, success: bool) -> Seq<char> {
    adapter + " × "@ + kem + ": "@ + if success {
        "PASS"@
    } else {
        "FAIL"@
    }
}

pub fn cell_line(adapter: &str, kem: &str, success: bool) -> (res: String)
    ensures
        res@ == cell_line_spec(adapter@, kem@, success),
{
    let mut out = owned(adapter);
    out.append(" × ");
    out.append(kem);
    out.append(": ");
    out.append(if success { "PASS" } else { "FAIL" });
    out
}

/// `<adapter>: capabilities unavailable (<error>)`.
pub fn capabilities_unavailable_line(adapter: &str, error: &str) -> (res: String)
    ensures
        res@ == adapter@ + ": capabilities unavailable ("@ + error@ + ")"@,
{
    let mut out = owned(adapter);
    out.append(": capabilities unavailable (");
    out.append(error);
    out.append(")");
    out
}

// ---------------------------------------------------------------------------
// Group handshake
// ---------------------------------------------------------------------------

/// The console lines written before the handshake.
pub fn group_compat_intro(job: &KemJob) -> (res: Vec<LogLine>)
    ensures
        log_views(res@) == seq![
            ("info"@, banner_spec("run_full_handshake"@, job.host@, job.port)),
            ("info"@, "Using KEMs: "@ + join(views(job.kem_groups@), ", "@)),
        ],
{
    let mut v: Vec<LogLine> = Vec::new();
    v.push(line("info", banner("run_full_handshake", job.host.as_str(), job.port)));
    let joined = join_strings(job.kem_groups.as_slice(), ", ");
    v.push(line("info", crate::text::concat("Using KEMs: ", joined.as_str())));
    assert(log_views(v@) =~= seq![
        ("info"@, banner_spec("run_full_handshake"@, job.host@, job.port)),
        ("info"@, "Using KEMs: "@ + join(views(job.kem_groups@), ", "@)),
    ]);
    v
}

/// Why a handshake failed: the alert name when there is one, else the error summary.
pub open spec fn failure_reason(r: ProbeResponse) -> Seq<char> {
    match r.alert {
        Some(a) => a.description@,
        None => match r.error_summary {
            Some(e) => e@,
            None => "unknown"@,
        },
    }
}

pub open spec fn header_line(f: crate::proto::MessageField) -> Seq<char> {
    f.label@ + ": "@ + join(views(f.values@), ", "@)
}

pub open spec fn header_lines(fs: Seq<crate::proto::MessageField>) -> Seq<(Seq<char>, Seq<char>)> {
    fs.map_values(|f: crate::proto::MessageField| ("info"@, header_line(f)))
}

/// The console lines after the handshake: the failure and its reason, or the HTTP
/// response headers (when there was a response) and the summary line.
pub open spec fn group_compat_report_spec(r: ProbeResponse) -> Seq<(Seq<char>, Seq<char>)> {
    if !r.handshake_success {
        seq![
            ("info"@, "key_gen TLS 完整交握失敗："@),
            ("result"@, "Result: HandshakeFailed - "@ + failure_reason(r)),
        ]
    } else {
        (match r.http {
            Some(h) => seq![
                ("info"@, "========== HTTPS response header =========="@),
                (
                    "info"@,
                    "HTTP/1.1 "@ + decimal(h.status as nat) + " "@ + status_phrase(h.status),
                ),
            ] + header_lines(h.headers@) + seq![
                ("info"@, "========== HTTPS response header =========="@),
                ("info"@, "response success"@),
            ],
            None => Seq::empty(),
        }) + seq![("result"@, result_line_spec(r))]
    }
}

pub fn group_compat_report(response: &ProbeResponse) -> (res: Vec<LogLine>)
    ensures
        log_views(res@) == group_compat_report_spec(*response),
{
    let mut v: Vec<LogLine> = Vec::new();
    if !response.handshake_success {
        v.push(line("info", owned("key_gen TLS 完整交握失敗：")));
        let reason = match &response.alert {
            Some(alert) => alert.description.clone(),
            None => match &response.error_summary {
                Some(e) => e.clone(),
                None => owned("unknown"),
            },
        };
        v.push(line("result", crate::text::concat("Result: HandshakeFailed - ", reason.as_str())));
        assert(log_views(v@) =~= group_compat_report_spec(*response));
        return v;
    }
    match &response.http {
        Some(http) => {
            v.push(line("info", owned("========== HTTPS response header ==========")));
            let mut status_line = owned("HTTP/1.1 ");
            append_decimal(&mut status_line, http.status as u64);
            status_line.append(" ");
            status_line.append(status_text(http.status));
            v.push(line("info", status_line));
            let ghost pre = log_views(v@);
            assert(pre =~= seq![
                ("info"@, "========== HTTPS response header =========="@),
                ("info"@, "HTTP/1.1 "@ + decimal(http.status as nat) + " "@ + status_phrase(http.status)),
            ]);
            let mut k: usize = 0;
            while k < http.headers.len()
                invariant
                    0 <= k <= http.headers@.len(),
                    log_views(v@) == pre + header_lines(http.headers@.take(k as int)),
                decreases http.headers@.len() - k,
            {
                let f = &http.headers[k];
                let mut text = f.label.clone();
                text.append(": ");
                let joined = join_strings(f.values.as_slice(), ", ");
                text.append(joined.as_str());
                assert(text@ == header_line(http.headers@[k as int]));
                let ghost before = log_views(v@);
                v.push(line("info", text));
                assert(log_views(v@) =~= before.push(("info"@, header_line(http.headers@[k as int]))));
                assert(header_lines(http.headers@.take(k + 1)) =~= header_lines(
                    http.headers@.take(k as int),
                ).push(("info"@, header_line(http.headers@[k as int]))));
                assert(log_views(v@) =~= pre + header_lines(http.headers@.take(k + 1)));
                k += 1;
            }
            assert(http.headers@.take(http.headers@.len() as int) =~= http.headers@);
            v.push(line("info", owned("========== HTTPS response header ==========")));
            v.push(line("info", owned("response success")));
            assert(log_views(v@) =~= pre + header_lines(http.headers@) + seq![
                ("info"@, "========== HTTPS response header =========="@),
                ("info"@, "response success"@),
            ]);
        },
        None => {
            assert(log_views(v@) =~= Seq::<(Seq<char>, Seq<char>)>::empty());
        },
    }
    v.push(line("result", result_line(response)));
    assert(log_views(v@) =~= group_compat_report_spec(*response));
    v
}

// ---------------------------------------------------------------------------
// Preference-order probe
// ---------------------------------------------------------------------------

/// `groups` without the ones equal to `chosen` ignoring ASCII case.
pub open spec fn without(groups: Seq<Seq<char>>, chosen: Seq<char>) -> Seq<Seq<char>>
    decreases groups.len(),
{
    if groups.len() == 0 {
        Seq::empty()
    } else {
        let r = without(groups.drop_last(), chosen);
        if eq_ignore_ascii_case(groups.last(), chosen) {
            r
        } else {
            r.push(groups.last())
        }
    }
}

proof fn lemma_without_len(groups: Seq<Seq<char>>, chosen: Seq<char>)
    ensures
        without(groups, chosen).len() <= groups.len(),
    decreases groups.len(),
{
    if groups.len() > 0 {
        lemma_without_len(groups.drop_last(), chosen);
    }
}

/// The state of a preference-order probe: the groups not yet chosen by the server, the
/// order recovered so far, and whether probing has stopped.
#[derive(Clone, Debug)]
pub struct PriorityProbe {
    pub remaining: Vec<String>,
    pub order: Vec<String>,
    pub stopped: bool,
}

impl PriorityProbe {
    /// Starts from the groups the run asked for, or all the adapter advertises when it
    /// asked for none.
    pub fn start(requested: &Vec<String>, advertised: &Vec<String>) -> (res: Self)
        ensures
            views(res.remaining@) == if requested@.len() == 0 {
                views(advertised@)
            } else {
                views(requested@)
            },
            res.order@.len() == 0,
            !res.stopped,
    {
        let remaining = if requested.len() == 0 {
            advertised.clone()
        } else {
            requested.clone()
        };
        PriorityProbe { remaining, order: Vec::new(), stopped: false }
    }

    /// Probing is over once it stopped or nothing is left to offer.
    pub open spec fn finished(self) -> bool {
        self.stopped || self.remaining@.len() == 0
    }

    /// The next offer: everything not chosen yet; none once probing is over.
    pub fn next_offer(&self) -> (res: Option<Vec<String>>)
        ensures
            res matches Some(offer) ==> !self.finished() && views(offer@) == views(
                self.remaining@,
            ),
            res is None ==> self.finished(),
    {
        if self.stopped || self.remaining.len() == 0 {
            None
        } else {
            Some(self.remaining.clone())
        }
    }

    /// Takes in the outcome of the last offer. A failed handshake, or one that names no
    /// group, stops the probe. Otherwise the chosen group is appended to the order (and
    /// returned, to be logged) and removed from the remaining groups; when nothing was
    /// removed the server chose something it was not offered, and the probe stops.
    pub fn observe(&mut self, response: &ProbeResponse) -> (logged: Option<String>)
        requires
            !old(self).finished(),
        ensures
            !response.handshake_success || response.negotiated.group is None ==> {
                &&& logged is None
                &&& final(self).stopped
                &&& final(self).order == old(self).order
                &&& final(self).remaining == old(self).remaining
            },
            response.handshake_success && response.negotiated.group is Some ==> {
                let g = response.negotiated.group->0@;
                &&& logged == response.negotiated.group
                &&& views(final(self).order@) == views(old(self).order@).push(g)
                &&& views(final(self).remaining@) == without(views(old(self).remaining@), g)
                &&& final(self).stopped == (final(self).remaining@.len() == old(
                    self,
                ).remaining@.len())
            },
            final(self).stopped || final(self).remaining@.len() < old(self).remaining@.len(),
            !final(self).stopped ==> final(self).order@.len() + final(self).remaining@.len() <= old(
                self,
            ).order@.len() + old(self).remaining@.len(),
    {
        if !response.handshake_success {
            self.stopped = true;
            return None;
        }
        let group = match &response.negotiated.group {
            Some(g) => g.clone(),
            None => {
                self.stopped = true;
                return None;
            },
        };
        let gc = chars_of(group.as_str());
        let before = self.remaining.len();
        let mut kept: Vec<String> = Vec::new();
        let mut i: usize = 0;
        while i < self.remaining.len()
            invariant
                0 <= i <= self.remaining@.len(),
                gc@ == group@,
                views(kept@) == without(views(self.remaining@).take(i as int), group@),
            decreases self.remaining@.len() - i,
        {
            let c = chars_of(self.remaining[i].as_str());
            assert(views(self.remaining@).take(i + 1).drop_last() =~= views(self.remaining@).take(
                i as int,
            ));
            assert(views(self.remaining@).take(i + 1).last() == c@);
            if !eq_ignore_case_chars(&c, &gc) {
                kept.push(self.remaining[i].clone());
                assert(views(kept@) =~= without(views(self.remaining@).take(i + 1), group@));
            }
            i += 1;
        }
        assert(views(self.remaining@).take(self.remaining@.len() as int) =~= views(
            self.remaining@,
        ));
        proof {
            lemma_without_len(views(self.remaining@), group@);
        }
        self.order.push(group.clone());
        assert(views(self.order@) =~= views(old(self).order@).push(group@));
        self.remaining = kept;
        self.stopped = self.remaining.len() == before;
        Some(group)
    }

    /// The verdict lines and the final order once probing is over.
    pub fn report(&self) -> (res: Vec<LogLine>)
        ensures
            log_views(res@) == priority_report_spec(views(self.order@)),
    {
        priority_report(&self.order)
    }
}

pub open spec fn warn_lines(fs: Seq<Seq<char>>) -> Seq<(Seq<char>, Seq<char>)> {
    fs.map_values(
        |g: Seq<char>| ("finding_warn"@, "[-] 伺服器將安全性較高演算法放在後面："@ + g),
    )
}

pub open spec fn quoted(order: Seq<Seq<char>>) -> Seq<Seq<char>> {
    order.map_values(|g: Seq<char>| "\""@ + g + "\""@)
}

/// The verdict on a recovered order (one line per misplaced group, or one line of
/// approval) followed by the order itself.
pub open spec fn priority_report_spec(order: Seq<Seq<char>>) -> Seq<(Seq<char>, Seq<char>)> {
    let fs = findings(order);
    (if fs.len() == 0 {
        seq![("finding_ok"@, "[+] 伺服器的演算法指定順序符合安全性等級從高到低的最佳實踐"@)]
    } else {
        warn_lines(fs)
    }) + seq![("result"@, "Final Order: ["@ + join(quoted(order), ","@) + "]"@)]
}

pub fn priority_report(order: &Vec<String>) -> (res: Vec<LogLine>)
    ensures
        log_views(res@) == priority_report_spec(views(order@)),
{
    let found = evaluate_order(order.as_slice());
    let mut v: Vec<LogLine> = Vec::new();
    if found.len() == 0 {
        v.push(line("finding_ok", owned("[+] 伺服器的演算法指定順序符合安全性等級從高到低的最佳實踐")));
    } else {
        let mut k: usize = 0;
        while k < found.len()
            invariant
                0 <= k <= found@.len(),
                log_views(v@) == warn_lines(views(found@).take(k as int)),
            decreases found@.len() - k,
        {
            v.push(line("finding_warn", crate::text::concat("[-] 伺服器將安全性較高演算法放在後面：", found[k].as_str())));
            assert(warn_lines(views(found@).take(k + 1)) =~= warn_lines(views(found@).take(k as int)).push(
                ("finding_warn"@, "[-] 伺服器將安全性較高演算法放在後面："@ + found@[k as int]@),
            ));
            assert(log_views(v@) =~= warn_lines(views(found@).take(k + 1)));
            k += 1;
        }
        assert(views(found@).take(found@.len() as int) =~= views(found@));
    }
    let ghost head = log_views(v@);
    let mut quoted_order: Vec<String> = Vec::new();
    let mut j: usize = 0;
    while j < order.len()
        invariant
            0 <= j <= order@.len(),
            views(quoted_order@) == quoted(views(order@).take(j as int)),
        decreases order@.len() - j,
    {
        let mut q = owned("\"");
        q.append(order[j].as_str());
        q.append("\"");
        assert(q@ == "\""@ + views(order@)[j as int] + "\""@);
        let ghost before = views(quoted_order@);
        quoted_order.push(q);
        assert(views(quoted_order@) =~= before.push(q@));
        assert(quoted(views(order@).take(j + 1)) =~= quoted(views(order@).take(j as int)).push(
            "\""@ + views(order@)[j as int] + "\""@,
        ));
        assert(views(quoted_order@) =~= quoted(views(order@).take(j + 1)));
        j += 1;
    }
    assert(views(order@).take(order@.len() as int) =~= views(order@));
    let mut last = owned("Final Order: [");
    let joined = join_strings(quoted_order.as_slice(), ",");
    last.append(joined.as_str());
    last.append("]");
    v.push(line("result", last));
    assert(log_views(v@) =~= priority_report_spec(views(order@)));
    v
}

/// The console lines written before the first priority round.
pub fn priority_intro(job: &KemJob) -> (res: Vec<LogLine>)
    ensures
        log_views(res@) == seq![
            ("info"@, banner_spec("run_priority_test"@, job.host@, job.port)),
            ("info"@, "=== 演算法指定順序測試 ==="@),
        ],
{
    let mut v: Vec<LogLine> = Vec::new();
    v.push(line("info", banner("run_priority_test", job.host.as_str(), job.port)));
    v.push(line("info", owned("=== 演算法指定順序測試 ===")));
    assert(log_views(v@) =~= seq![
        ("info"@, banner_spec("run_priority_test"@, job.host@, job.port)),
        ("info"@, "=== 演算法指定順序測試 ==="@),
    ]);
    v
}

/// The console line of a run that could not be carried out.
pub fn run_failed_line(error: &str) -> (res: String)
    ensures
        res@ == "Result: RunFailed - "@ + error@,
{
    crate::text::concat("Result: RunFailed - ", error)
}

} // verus!
