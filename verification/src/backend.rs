//! Per-stack command construction and output parsing for the adapter.

use vstd::prelude::*;
use vstd::string::StringSliceAdditionalSpecFns;

use crate::proto::{
    alert_view, field_view, field_views, http_view, is_failure, message_view, message_views,
    negotiated_view, opt_view,
    Alert, Certificate, Diagnostics, Direction, Evidence, HandshakeMessage, HttpOutcome,
    MessageField, Negotiated, ProbeRequest, ProbeResponse, Stage, Target,
};
use crate::adapter::{list_items, Backend, Config};
use crate::text::{
    concat, eq_ignore_ascii_case, eq_ignore_case_chars, lemma_eq_ignore_case_is_lower_eq,
    lemma_find_char,
    chars_of, contains, contains_chars, copy_range, decimal, extend, find, find_chars, split,
    is_numeric, join, join_strings, lines, lines_of, lower, lower_chars, owned, parse_u16,
    parse_u64, parse_unsigned, prefix, prefix_chars, push_decimal, starts_with,
    starts_with_chars, str_eq, string_of, trim, trim_start, trim_start_bound, trimmed,
    unicode_numeric, vec_views, views, words, words_of,
};

verus! {

// ---------------------------------------------------------------------------
// Commands
// ---------------------------------------------------------------------------

/// The name presented as SNI: the configured one, else the host.
pub open spec fn sni_of(t: Target) -> Seq<char> {
    match t.sni {
        Some(s) => s@,
        None => t.host@,
    }
}

pub open spec fn path_of(t: Target) -> Seq<char> {
    match t.http_path {
        Some(p) => p@,
        None => "/"@,
    }
}

/// The HTTP request written to the client's stdin after the handshake.
pub open spec fn http_request_spec(t: Target) -> Seq<char> {
    "GET "@ + path_of(t) + " HTTP/1.1\r\nHost: "@ + sni_of(t)
        + "\r\nUser-Agent: pqcas-probe\r\nConnection: close\r\nAccept: */*\r\n\r\n"@
}

/// `host:port`.
pub open spec fn connect_spec(t: Target) -> Seq<char> {
    t.host@.push(':') + decimal(t.port as nat)
}

pub fn http_request_line(request: &ProbeRequest) -> (res: String)
    ensures
        res@ == http_request_spec(request.target),
{
    let path = match &request.target.http_path {
        Some(p) => p.clone(),
        None => owned("/"),
    };
    let host = sni(request);
    let mut out = owned("GET ");
    out.append(path.as_str());
    out.append(" HTTP/1.1\r\nHost: ");
    out.append(host.as_str());
    out.append("\r\nUser-Agent: pqcas-probe\r\nConnection: close\r\nAccept: */*\r\n\r\n");
    out
}

pub fn connect_arg(request: &ProbeRequest) -> (res: String)
    ensures
        res@ == connect_spec(request.target),
{
    let mut v = chars_of(request.target.host.as_str());
    v.push(':');
    push_decimal(&mut v, request.target.port as u64);
    string_of(&v)
}

pub fn sni(request: &ProbeRequest) -> (res: String)
    ensures
        res@ == sni_of(request.target),
{
    match &request.target.sni {
        Some(s) => s.clone(),
        None => request.target.host.clone(),
    }
}

/// The request pins TLS 1.3 and nothing else.
pub open spec fn only_tls13(r: ProbeRequest) -> bool {
    r.tls_versions@.len() == 1 && r.tls_versions@[0]@ == "TLSv1.3"@
}

pub open spec fn colon_list(v: Seq<String>) -> Seq<char> {
    join(views(v), ":"@)
}

pub open spec fn openssl_args_spec(r: ProbeRequest) -> Seq<Seq<char>> {
    seq![
        "s_client"@,
        "-connect"@,
        connect_spec(r.target),
        "-servername"@,
        sni_of(r.target),
        "-showcerts"@,
        "-verify_return_error"@,
        "-ign_eof"@,
    ] + (if only_tls13(r) {
        seq!["-tls1_3"@]
    } else {
        Seq::empty()
    }) + (if r.kem_groups@.len() > 0 {
        seq!["-groups"@, colon_list(r.kem_groups@)]
    } else {
        Seq::empty()
    }) + (if r.sig_algs@.len() > 0 {
        seq!["-sigalgs"@, colon_list(r.sig_algs@)]
    } else {
        Seq::empty()
    })
}

pub open spec fn boringssl_args_spec(r: ProbeRequest) -> Seq<Seq<char>> {
    seq![
        "client"@,
        "-connect"@,
        connect_spec(r.target),
        "-server-name"@,
        sni_of(r.target),
    ] + (if r.kem_groups@.len() > 0 {
        seq!["-curves"@, colon_list(r.kem_groups@)]
    } else {
        Seq::empty()
    })
}

pub open spec fn wolfssl_args_spec(r: ProbeRequest) -> Seq<Seq<char>> {
    seq![
        "-h"@,
        r.target.host@,
        "-p"@,
        decimal(r.target.port as nat),
        "-v"@,
        "4"@,
        "-S"@,
        sni_of(r.target),
        "-d"@,
    ] + (if r.kem_groups@.len() > 0 {
        seq!["--pqc"@, r.kem_groups@[0]@]
    } else {
        Seq::empty()
    })
}

fn pins_tls13(request: &ProbeRequest) -> (res: bool)
    ensures
        res == only_tls13(*request),
{
    request.tls_versions.len() == 1 && str_eq(request.tls_versions[0].as_str(), "TLSv1.3")
}

/// `s_client` arguments: connect, SNI, show the chain, fail on verification errors, keep
/// reading after EOF, and pin the offered groups and signature algorithms.
pub fn openssl_args(request: &ProbeRequest) -> (res: Vec<String>)
    ensures
        views(res@) == openssl_args_spec(*request),
{
    let mut args: Vec<String> = Vec::new();
    args.push(owned("s_client"));
    args.push(owned("-connect"));
    args.push(connect_arg(request));
    args.push(owned("-servername"));
    args.push(sni(request));
    args.push(owned("-showcerts"));
    args.push(owned("-verify_return_error"));
    args.push(owned("-ign_eof"));
    let ghost a0 = views(args@);
    if pins_tls13(request) {
        args.push(owned("-tls1_3"));
    }
    let ghost a1 = views(args@);
    assert(a1 =~= a0 + (if only_tls13(*request) {
        seq!["-tls1_3"@]
    } else {
        Seq::<Seq<char>>::empty()
    }));
    if request.kem_groups.len() > 0 {
        args.push(owned("-groups"));
        args.push(join_strings(request.kem_groups.as_slice(), ":"));
    }
    let ghost a2 = views(args@);
    assert(a2 =~= a1 + (if request.kem_groups@.len() > 0 {
        seq!["-groups"@, colon_list(request.kem_groups@)]
    } else {
        Seq::<Seq<char>>::empty()
    }));
    if request.sig_algs.len() > 0 {
        args.push(owned("-sigalgs"));
        args.push(join_strings(request.sig_algs.as_slice(), ":"));
    }
    assert(views(args@) =~= a2 + (if request.sig_algs@.len() > 0 {
        seq!["-sigalgs"@, colon_list(request.sig_algs@)]
    } else {
        Seq::<Seq<char>>::empty()
    }));
    assert(views(args@) =~= openssl_args_spec(*request));
    args
}

/// `bssl client` arguments: connect, SNI, and the offered curves.
pub fn boringssl_args(request: &ProbeRequest) -> (res: Vec<String>)
    ensures
        views(res@) == boringssl_args_spec(*request),
{
    let mut args: Vec<String> = Vec::new();
    args.push(owned("client"));
    args.push(owned("-connect"));
    args.push(connect_arg(request));
    args.push(owned("-server-name"));
    args.push(sni(request));
    let ghost a0 = views(args@);
    if request.kem_groups.len() > 0 {
        args.push(owned("-curves"));
        args.push(join_strings(request.kem_groups.as_slice(), ":"));
    }
    assert(views(args@) =~= a0 + (if request.kem_groups@.len() > 0 {
        seq!["-curves"@, colon_list(request.kem_groups@)]
    } else {
        Seq::<Seq<char>>::empty()
    }));
    assert(views(args@) =~= boringssl_args_spec(*request));
    args
}

/// wolfSSL example-client arguments: host, port, TLS 1.3, SNI, no peer check, and the
/// first offered group as the PQC group.
pub fn wolfssl_args(request: &ProbeRequest) -> (res: Vec<String>)
    ensures
        views(res@) == wolfssl_args_spec(*request),
{
    let mut args: Vec<String> = Vec::new();
    args.push(owned("-h"));
    args.push(request.target.host.clone());
    args.push(owned("-p"));
    let mut port: Vec<char> = Vec::new();
    push_decimal(&mut port, request.target.port as u64);
    assert(port@ =~= decimal(request.target.port as nat));
    args.push(string_of(&port));
    args.push(owned("-v"));
    args.push(owned("4"));
    args.push(owned("-S"));
    args.push(sni(request));
    args.push(owned("-d"));
    let ghost a0 = views(args@);
    if request.kem_groups.len() > 0 {
        args.push(owned("--pqc"));
        args.push(request.kem_groups[0].clone());
    }
    assert(views(args@) =~= a0 + (if request.kem_groups@.len() > 0 {
        seq!["--pqc"@, request.kem_groups@[0]@]
    } else {
        Seq::<Seq<char>>::empty()
    }));
    assert(views(args@) =~= wolfssl_args_spec(*request));
    args
}

// ---------------------------------------------------------------------------
// The ClientHello row
// ---------------------------------------------------------------------------

pub open spec fn default_cipher_suite_views() -> Seq<Seq<char>> {
    seq![
        "TLS_AES_128_GCM_SHA256"@,
        "TLS_AES_256_GCM_SHA384"@,
        "TLS_CHACHA20_POLY1305_SHA256"@,
        "ECDHE-ECDSA-AES128-GCM-SHA256"@,
        "ECDHE-RSA-AES128-GCM-SHA256"@,
        "ECDHE-ECDSA-AES256-GCM-SHA384"@,
        "ECDHE-RSA-AES256-GCM-SHA384"@,
    ]
}

/// The ClientHello row describing what was offered.
pub open spec fn client_hello_spec(r: ProbeRequest) -> (
    u32,
    Direction,
    Seq<char>,
    Seq<(Seq<char>, Seq<Seq<char>>)>,
) {
    (
        0,
        Direction::Outbound,
        "ClientHello"@,
        seq![
            ("Offered Groups"@, views(r.kem_groups@)),
            ("Signature Algorithms"@, views(r.sig_algs@)),
            ("Supported Versions"@, views(r.tls_versions@)),
            (
                "Cipher Suites Offered"@,
                if r.cipher_suites@.len() == 0 {
                    default_cipher_suite_views()
                } else {
                    views(r.cipher_suites@)
                },
            ),
        ],
    )
}

pub fn default_cipher_suites() -> (res: Vec<String>)
    ensures
        views(res@) == default_cipher_suite_views(),
{
    let mut v: Vec<String> = Vec::new();
    v.push(owned("TLS_AES_128_GCM_SHA256"));
    v.push(owned("TLS_AES_256_GCM_SHA384"));
    v.push(owned("TLS_CHACHA20_POLY1305_SHA256"));
    v.push(owned("ECDHE-ECDSA-AES128-GCM-SHA256"));
    v.push(owned("ECDHE-RSA-AES128-GCM-SHA256"));
    v.push(owned("ECDHE-ECDSA-AES256-GCM-SHA384"));
    v.push(owned("ECDHE-RSA-AES256-GCM-SHA384"));
    assert(views(v@) =~= default_cipher_suite_views());
    v
}

pub fn client_hello(request: &ProbeRequest) -> (res: HandshakeMessage)
    ensures
        message_view(res) == client_hello_spec(*request),
{
    let ciphers = if request.cipher_suites.len() == 0 {
        default_cipher_suites()
    } else {
        request.cipher_suites.clone()
    };
    let mut fields: Vec<MessageField> = Vec::new();
    fields.push(MessageField::new(owned("Offered Groups"), request.kem_groups.clone()));
    fields.push(MessageField::new(owned("Signature Algorithms"), request.sig_algs.clone()));
    fields.push(MessageField::new(owned("Supported Versions"), request.tls_versions.clone()));
    fields.push(MessageField::new(owned("Cipher Suites Offered"), ciphers));
    let res = HandshakeMessage {
        index: 0,
        direction: Direction::Outbound,
        kind: owned("ClientHello"),
        fields,
    };
    assert(field_views(res.fields@) =~= client_hello_spec(*request).3);
    res
}

// ---------------------------------------------------------------------------
// Reading client output
// ---------------------------------------------------------------------------

/// What follows `needle` on a line, trimmed, when that is not empty.
pub open spec fn line_value(line: Seq<char>, needle: Seq<char>) -> Option<Seq<char>> {
    match find(line, needle) {
        Some(i) => {
            let v = trim(line.skip(i + needle.len()));
            if v.len() > 0 {
                Some(v)
            } else {
                None
            }
        },
        None => None,
    }
}

pub open spec fn first_line_value(ls: Seq<Seq<char>>, needle: Seq<char>, k: int) -> Option<
    Seq<char>,
>
    decreases ls.len() - k,
{
    if k < 0 || k >= ls.len() {
        None
    } else {
        match line_value(ls[k], needle) {
            Some(v) => Some(v),
            None => first_line_value(ls, needle, k + 1),
        }
    }
}

/// The first line of `h` that holds `needle` with something after it, and that something.
pub open spec fn value_after_spec(h: Seq<char>, needle: Seq<char>) -> Option<Seq<char>> {
    first_line_value(lines(h), needle, 0)
}

fn line_value_exec(line: &[char], needle: &[char]) -> (res: Option<Vec<char>>)
    ensures
        match res {
            Some(v) => line_value(line@, needle@) == Some(v@),
            None => line_value(line@, needle@) is None,
        },
{
    match find_chars(line, needle) {
        Some(i) => {
            let ll = line.len();
            let rest = copy_range(line, i + needle.len(), ll);
            assert(rest@ =~= line@.skip(i + needle@.len()));
            let v = trimmed(&rest);
            if v.len() > 0 {
                Some(v)
            } else {
                None
            }
        },
        None => None,
    }
}

fn value_after_chars(haystack: &[char], needle: &str) -> (res: Option<String>)
    ensures
        opt_view(res) == value_after_spec(haystack@, needle@),
{
    let n = chars_of(needle);
    let ls = lines_of(haystack);
    let mut k: usize = 0;
    while k < ls.len()
        invariant
            0 <= k <= ls@.len(),
            n@ == needle@,
            vec_views(ls@) == lines(haystack@),
            value_after_spec(haystack@, needle@) == first_line_value(lines(haystack@), n@, k as int),
        decreases ls@.len() - k,
    {
        assert(lines(haystack@)[k as int] == ls@[k as int]@);
        match line_value_exec(&ls[k], &n) {
            Some(v) => {
                return Some(string_of(&v));
            },
            None => {},
        }
        k += 1;
    }
    None
}

/// RFC 8446 alert names for the numbers OpenSSL prints.
pub open spec fn alert_name(number: u16) -> Seq<char> {
    match number {
        0 => "close_notify"@,
        10 => "unexpected_message"@,
        20 => "bad_record_mac"@,
        40 => "handshake_failure"@,
        42 => "bad_certificate"@,
        47 => "illegal_parameter"@,
        48 => "unknown_ca"@,
        50 => "decode_error"@,
        51 => "decrypt_error"@,
        70 => "protocol_version"@,
        71 => "insufficient_security"@,
        80 => "internal_error"@,
        109 => "missing_extension"@,
        112 => "unrecognized_name"@,
        116 => "certificate_required"@,
        120 => "no_application_protocol"@,
        _ => "unknown"@,
    }
}

/// OpenSSL reports the alert numerically; students get the RFC name.
pub fn alert_description(number: u16) -> (res: &'static str)
    ensures
        res@ == alert_name(number),
{
    match number {
        0 => "close_notify",
        10 => "unexpected_message",
        20 => "bad_record_mac",
        40 => "handshake_failure",
        42 => "bad_certificate",
        47 => "illegal_parameter",
        48 => "unknown_ca",
        50 => "decode_error",
        51 => "decrypt_error",
        70 => "protocol_version",
        71 => "insufficient_security",
        80 => "internal_error",
        109 => "missing_extension",
        112 => "unrecognized_name",
        116 => "certificate_required",
        120 => "no_application_protocol",
        _ => "unknown",
    }
}

/// The alert in a client's output: OpenSSL's numbered line first, else the first of the
/// names BoringSSL and wolfSSL print directly. A numbered line whose number does not
/// parse yields no alert.
pub open spec fn parse_alert_spec(text: Seq<char>) -> Option<(Seq<char>, Seq<char>)> {
    match value_after_spec(text, "SSL alert number "@) {
        Some(rest) => {
            let ws = words(rest);
            if ws.len() == 0 {
                None
            } else {
                match parse_unsigned(ws[0], 65535) {
                    Some(n) => Some(("fatal"@, alert_name(n as u16))),
                    None => None,
                }
            }
        },
        None => if contains(text, "handshake_failure"@) {
            Some(("fatal"@, "handshake_failure"@))
        } else if contains(text, "bad_record_mac"@) {
            Some(("fatal"@, "bad_record_mac"@))
        } else if contains(text, "illegal_parameter"@) {
            Some(("fatal"@, "illegal_parameter"@))
        } else if contains(text, "protocol_version"@) {
            Some(("fatal"@, "protocol_version"@))
        } else {
            None
        },
    }
}

fn fatal(description: String) -> (res: Alert)
    ensures
        res.level@ == "fatal"@,
        res.description == description,
{
    Alert { level: owned("fatal"), description }
}

fn text_contains(text: &[char], needle: &str) -> (res: bool)
    ensures
        res == contains(text@, needle@),
{
    let n = chars_of(needle);
    contains_chars(text, &n)
}

fn parse_alert_chars(text: &[char]) -> (res: Option<Alert>)
    ensures
        alert_view(res) == parse_alert_spec(text@),
{
    match value_after_chars(text, "SSL alert number ") {
        Some(rest) => {
            let rc = chars_of(rest.as_str());
            let ws = words_of(&rc);
            if ws.len() == 0 {
                return None;
            }
            assert(vec_views(ws@)[0] == ws@[0]@);
            match parse_u16(&ws[0]) {
                Some(number) => Some(fatal(owned(alert_description(number)))),
                None => None,
            }
        },
        None => {
            if text_contains(text, "handshake_failure") {
                Some(fatal(owned("handshake_failure")))
            } else if text_contains(text, "bad_record_mac") {
                Some(fatal(owned("bad_record_mac")))
            } else if text_contains(text, "illegal_parameter") {
                Some(fatal(owned("illegal_parameter")))
            } else if text_contains(text, "protocol_version") {
                Some(fatal(owned("protocol_version")))
            } else {
                None
            }
        },
    }
}


// ---------------------------------------------------------------------------
// The HTTP response after the handshake
// ---------------------------------------------------------------------------

/// Index of the first blank line at or after `k`, or the number of lines.
pub open spec fn header_end(ls: Seq<Seq<char>>, k: int) -> int
    decreases ls.len() - k,
{
    if k < 0 || k >= ls.len() {
        ls.len() as int
    } else if trim(ls[k]).len() == 0 {
        k
    } else {
        header_end(ls, k + 1)
    }
}

/// A header line split at its first `:`, both halves trimmed.
pub open spec fn header_pair(line: Seq<char>) -> Option<(Seq<char>, Seq<char>)> {
    match find(line, seq![':']) {
        Some(i) => Some((trim(line.take(i)), trim(line.skip(i + 1)))),
        None => None,
    }
}

/// A header line `N:V` whose name has no `:` is read as the trimmed name and the
/// trimmed rest of the line, whatever the value holds, further `:` included.
pub proof fn lemma_header_line(name: Seq<char>, value: Seq<char>)
    requires
        !name.contains(':'),
    ensures
        header_pair(name + seq![':'] + value) == Some((trim(name), trim(value))),
{
    let line = name + seq![':'] + value;
    assert forall|k: int| 0 <= k < name.len() implies line[k] != ':' by {
        assert(line[k] == name[k]);
    }
    lemma_find_char(line, ':', name.len() as int);
    assert(line.take(name.len() as int) =~= name);
    assert(line.skip(name.len() as int + 1) =~= value);
}

/// The header pairs of the lines that have a `:`, in order.
pub open spec fn header_pairs(ls: Seq<Seq<char>>) -> Seq<(Seq<char>, Seq<char>)>
    decreases ls.len(),
{
    if ls.len() == 0 {
        Seq::empty()
    } else {
        let r = header_pairs(ls.drop_last());
        match header_pair(ls.last()) {
            Some(p) => r.push(p),
            None => r,
        }
    }
}

pub open spec fn single_fields(ps: Seq<(Seq<char>, Seq<char>)>) -> Seq<
    (Seq<char>, Seq<Seq<char>>),
> {
    ps.map_values(|p: (Seq<char>, Seq<char>)| (p.0, seq![p.1]))
}

pub open spec fn body_lines(ls: Seq<Seq<char>>, end: int) -> Seq<Seq<char>> {
    if end < ls.len() {
        ls.skip(end + 1)
    } else {
        Seq::empty()
    }
}

/// The HTTP response in a client's output: from the first `HTTP/1.`, the status from the
/// second word of that line, header lines up to the first blank line, and the first
/// 512 characters of the rest when it is not blank.
pub open spec fn parse_http_spec(text: Seq<char>) -> Option<
    (u16, Seq<(Seq<char>, Seq<Seq<char>>)>, Option<Seq<char>>),
> {
    match find(text, "HTTP/1."@) {
        None => None,
        Some(start) => {
            let ls = lines(text.skip(start));
            if ls.len() == 0 {
                None
            } else {
                let ws = words(ls[0]);
                if ws.len() < 2 {
                    None
                } else {
                    match parse_unsigned(ws[1], 65535) {
                        None => None,
                        Some(status) => {
                            let end = header_end(ls, 1);
                            let body = join(body_lines(ls, end), seq!['\n']);
                            Some(
                                (
                                    status as u16,
                                    single_fields(header_pairs(ls.subrange(1, end))),
                                    if trim(body).len() > 0 {
                                        Some(prefix(body, 512))
                                    } else {
                                        None
                                    },
                                ),
                            )
                        },
                    }
                }
            }
        },
    }
}

/// Header lines run from line `k` up to the first blank line: every line before the end
/// has something on it, and the end is a blank line unless the text ran out.
pub proof fn lemma_headers_stop_at_blank_line(ls: Seq<Seq<char>>, k: int)
    requires
        0 <= k,
    ensures
        forall|j: int| k <= j < header_end(ls, k) ==> trim(#[trigger] ls[j]).len() > 0,
        header_end(ls, k) < ls.len() ==> trim(ls[header_end(ls, k)]).len() == 0,
        header_end(ls, k) <= ls.len(),
    decreases ls.len() - k,
{
    if k < ls.len() && trim(ls[k]).len() != 0 {
        lemma_headers_stop_at_blank_line(ls, k + 1);
    }
}

proof fn lemma_header_end_bounds(ls: Seq<Seq<char>>, k: int)
    requires
        0 <= k,
    ensures
        k <= header_end(ls, k) || header_end(ls, k) == ls.len(),
        header_end(ls, k) <= ls.len(),
        0 <= header_end(ls, k),
    decreases ls.len() - k,
{
    if k < ls.len() && trim(ls[k]).len() != 0 {
        lemma_header_end_bounds(ls, k + 1);
    }
}

fn header_end_exec(ls: &Vec<Vec<char>>) -> (res: usize)
    ensures
        res == header_end(vec_views(ls@), 1),
        res <= ls@.len(),
        ls@.len() >= 1 ==> 1 <= res,
{
    let ghost v = vec_views(ls@);
    let mut k: usize = 1;
    proof {
        lemma_header_end_bounds(v, 1);
    }
    while k < ls.len()
        invariant
            1 <= k,
            ls@.len() >= 1 ==> k <= ls@.len(),
            v == vec_views(ls@),
            header_end(v, 1) == header_end(v, k as int),
        decreases ls@.len() - k,
    {
        let t = trimmed(&ls[k]);
        assert(v[k as int] == ls@[k as int]@);
        if t.len() == 0 {
            proof {
                lemma_header_end_bounds(v, 1);
            }
            return k;
        }
        k += 1;
    }
    proof {
        lemma_header_end_bounds(v, 1);
    }
    if ls.len() == 0 {
        0
    } else {
        k
    }
}

fn header_field(line: &[char]) -> (res: Option<MessageField>)
    ensures
        match res {
            Some(f) => header_pair(line@) matches Some(p) && field_views(seq![f]) == single_fields(
                seq![p],
            ),
            None => header_pair(line@) is None,
        },
{
    let colon = vec![':'];
    assert(colon@ =~= seq![':']);
    match find_chars(line, &colon) {
        Some(i) => {
            let ll = line.len();
            let name = copy_range(line, 0, i);
            let value = copy_range(line, i + 1, ll);
            assert(name@ =~= line@.take(i as int));
            assert(value@ =~= line@.skip(i + 1));
            let tn = trimmed(&name);
            let tv = trimmed(&value);
            let f = MessageField::single(string_of(&tn), string_of(&tv));
            proof {
                assert(views(f.values@) =~= seq![tv@]);
                assert(field_views(seq![f]) =~= single_fields(seq![(tn@, tv@)]));
            }
            Some(f)
        },
        None => None,
    }
}

/// The lines from `from` on, joined with `\n`.
fn join_lines_from(ls: &Vec<Vec<char>>, from: usize) -> (res: Vec<char>)
    requires
        from <= ls@.len(),
    ensures
        res@ == join(vec_views(ls@).skip(from as int), seq!['\n']),
{
    let ghost v = vec_views(ls@).skip(from as int);
    let mut out: Vec<char> = Vec::new();
    let mut k = from;
    while k < ls.len()
        invariant
            from <= k <= ls@.len(),
            v == vec_views(ls@).skip(from as int),
            out@ == join(v.take(k - from), seq!['\n']),
        decreases ls@.len() - k,
    {
        assert(v.take(k + 1 - from).drop_last() =~= v.take(k - from));
        assert(v[k - from] == ls@[k as int]@);
        if k > from {
            out.push('\n');
        }
        extend(&mut out, &ls[k]);
        proof {
            if k > from {
                assert(out@ =~= join(v.take(k - from), seq!['\n']) + seq!['\n'] + ls@[k as int]@);
            } else {
                assert(out@ =~= ls@[k as int]@);
            }
        }
        k += 1;
    }
    assert(v.take(ls@.len() - from) =~= v);
    out
}

fn parse_http_chars(text: &[char]) -> (res: Option<HttpOutcome>)
    ensures
        http_view(res) == parse_http_spec(text@),
{
    let marker = chars_of("HTTP/1.");
    let start = match find_chars(text, &marker) {
        Some(i) => i,
        None => return None,
    };
    let tl = text.len();
    let block = copy_range(text, start, tl);
    assert(block@ =~= text@.skip(start as int));
    let ls = lines_of(&block);
    let ghost lv = vec_views(ls@);
    if ls.len() == 0 {
        return None;
    }
    assert(lv[0] == ls@[0]@);
    let ws = words_of(&ls[0]);
    if ws.len() < 2 {
        return None;
    }
    assert(vec_views(ws@)[1] == ws@[1]@);
    let status = match parse_u16(&ws[1]) {
        Some(s) => s,
        None => return None,
    };
    let end = header_end_exec(&ls);
    let mut headers: Vec<MessageField> = Vec::new();
    let mut k: usize = 1;
    while k < end
        invariant
            1 <= k <= end <= ls@.len(),
            lv == vec_views(ls@),
            field_views(headers@) == single_fields(header_pairs(lv.subrange(1, k as int))),
        decreases end - k,
    {
        assert(lv.subrange(1, k + 1).drop_last() =~= lv.subrange(1, k as int));
        assert(lv.subrange(1, k + 1).last() == ls@[k as int]@);
        match header_field(&ls[k]) {
            Some(f) => {
                let ghost before = headers@;
                headers.push(f);
                assert(field_views(headers@) =~= field_views(before) + field_views(seq![f]));
                assert(field_views(headers@) =~= single_fields(header_pairs(lv.subrange(1, k + 1))));
            },
            None => {},
        }
        k += 1;
    }
    let from = if end < ls.len() {
        end + 1
    } else {
        ls.len()
    };
    let body = join_lines_from(&ls, from);
    assert(vec_views(ls@).skip(from as int) =~= body_lines(lv, end as int));
    let t = trimmed(&body);
    let excerpt = if t.len() > 0 {
        Some(string_of(&prefix_chars(&body, 512)))
    } else {
        None
    };
    Some(HttpOutcome { status, headers, body_excerpt: excerpt })
}

// ---------------------------------------------------------------------------
// Certificates, byte counts, error lines
// ---------------------------------------------------------------------------

/// A `-showcerts` chain line, ` 0 s:<subject> i:<issuer>`, as subject and issuer.
pub open spec fn cert_line(line: Seq<char>) -> Option<(Seq<char>, Seq<char>)> {
    let l = trim(line);
    if l.len() == 0 || !unicode_numeric(l[0]) {
        None
    } else {
        let rest = trim_start(l.drop_first());
        if !starts_with(rest, seq!['s', ':']) {
            None
        } else {
            let subject = rest.skip(2);
            match find(subject, seq![' ', 'i', ':']) {
                Some(i) => Some((trim(subject.take(i)), trim(subject.skip(i + 3)))),
                None => Some((trim(subject), Seq::empty())),
            }
        }
    }
}

pub open spec fn cert_lines(ls: Seq<Seq<char>>) -> Seq<(Seq<char>, Seq<char>)>
    decreases ls.len(),
{
    if ls.len() == 0 {
        Seq::empty()
    } else {
        let r = cert_lines(ls.drop_last());
        match cert_line(ls.last()) {
            Some(p) => r.push(p),
            None => r,
        }
    }
}

/// The certificate chain OpenSSL printed: subject and issuer, nothing else known.
pub open spec fn certs_spec(stdout: Seq<char>) -> Seq<(Seq<char>, Seq<char>)> {
    cert_lines(lines(stdout))
}

/// A certificate known only by subject and issuer.
pub open spec fn bare_cert(c: Certificate, subject: Seq<char>, issuer: Seq<char>) -> bool {
    &&& c.subject@ == subject
    &&& c.issuer@ == issuer
    &&& c.not_before is None
    &&& c.not_after is None
    &&& c.signature_algorithm is None
    &&& c.public_key_algorithm is None
    &&& c.sha256_fingerprint is None
}

pub open spec fn bare_certs(cs: Seq<Certificate>, ps: Seq<(Seq<char>, Seq<char>)>) -> bool {
    &&& cs.len() == ps.len()
    &&& forall|k: int| 0 <= k < cs.len() ==> bare_cert(#[trigger] cs[k], ps[k].0, ps[k].1)
}

fn bare(subject: &[char], issuer: &[char]) -> (res: Certificate)
    ensures
        bare_cert(res, subject@, issuer@),
{
    Certificate {
        subject: string_of(subject),
        issuer: string_of(issuer),
        not_before: None,
        not_after: None,
        signature_algorithm: None,
        public_key_algorithm: None,
        sha256_fingerprint: None,
    }
}

fn cert_from_line(line: &[char]) -> (res: Option<Certificate>)
    ensures
        match res {
            Some(c) => cert_line(line@) matches Some(p) && bare_cert(c, p.0, p.1),
            None => cert_line(line@) is None,
        },
{
    let l = trimmed(line);
    if l.len() == 0 || !is_numeric(l[0]) {
        return None;
    }
    let ll = l.len();
    let after = copy_range(&l, 1, ll);
    assert(after@ =~= l@.drop_first());
    let lo = trim_start_bound(&after);
    let al = after.len();
    let rest = copy_range(&after, lo, al);
    assert(rest@ =~= after@.skip(lo as int));
    let prefix_s = vec!['s', ':'];
    assert(prefix_s@ =~= seq!['s', ':']);
    if !starts_with_chars(&rest, &prefix_s) {
        return None;
    }
    let rl = rest.len();
    let subject = copy_range(&rest, 2, rl);
    assert(subject@ =~= rest@.skip(2));
    let marker = vec![' ', 'i', ':'];
    assert(marker@ =~= seq![' ', 'i', ':']);
    match find_chars(&subject, &marker) {
        Some(i) => {
            let sl = subject.len();
            let s = copy_range(&subject, 0, i);
            let iss = copy_range(&subject, i + 3, sl);
            assert(s@ =~= subject@.take(i as int));
            assert(iss@ =~= subject@.skip(i + 3));
            Some(bare(&trimmed(&s), &trimmed(&iss)))
        },
        None => {
            let empty: Vec<char> = Vec::new();
            assert(empty@ =~= Seq::<char>::empty());
            Some(bare(&trimmed(&subject), &empty))
        },
    }
}

fn certs_from_chars(stdout: &[char]) -> (res: Vec<Certificate>)
    ensures
        bare_certs(res@, certs_spec(stdout@)),
{
    let ls = lines_of(stdout);
    let ghost lv = vec_views(ls@);
    let mut out: Vec<Certificate> = Vec::new();
    let mut k: usize = 0;
    while k < ls.len()
        invariant
            0 <= k <= ls@.len(),
            lv == vec_views(ls@),
            lv == lines(stdout@),
            bare_certs(out@, cert_lines(lv.take(k as int))),
        decreases ls@.len() - k,
    {
        assert(lv.take(k + 1).drop_last() =~= lv.take(k as int));
        assert(lv.take(k + 1).last() == ls@[k as int]@);
        match cert_from_line(&ls[k]) {
            Some(c) => {
                out.push(c);
            },
            None => {},
        }
        k += 1;
    }
    assert(lv.take(ls@.len() as int) =~= lv);
    out
}

/// Index of the first line at or after `k` that holds `needle`.
pub open spec fn first_line_with(ls: Seq<Seq<char>>, needle: Seq<char>, k: int) -> Option<int>
    decreases ls.len() - k,
{
    if k < 0 || k >= ls.len() {
        None
    } else if contains(ls[k], needle) {
        Some(k)
    } else {
        first_line_with(ls, needle, k + 1)
    }
}

/// The words that parse as `u64`, as numbers, in order.
pub open spec fn numbers_in(ws: Seq<Seq<char>>) -> Seq<nat>
    decreases ws.len(),
{
    if ws.len() == 0 {
        Seq::empty()
    } else {
        let r = numbers_in(ws.drop_last());
        match parse_unsigned(ws.last(), u64::MAX as nat) {
            Some(v) => r.push(v),
            None => r,
        }
    }
}

/// From "SSL handshake has read R bytes and written W bytes": (written, read).
pub open spec fn byte_counts_spec(text: Seq<char>) -> (nat, nat) {
    let ls = lines(text);
    match first_line_with(ls, "SSL handshake has read"@, 0) {
        None => (0, 0),
        Some(k) => {
            let ns = numbers_in(words(ls[k]));
            if ns.len() >= 2 {
                (ns[1], ns[0])
            } else {
                (0, 0)
            }
        },
    }
}

fn byte_counts_chars(text: &[char]) -> (res: (u64, u64))
    ensures
        (res.0 as nat, res.1 as nat) == byte_counts_spec(text@),
{
    let ls = lines_of(text);
    let ghost lv = vec_views(ls@);
    let needle = chars_of("SSL handshake has read");
    let mut k: usize = 0;
    while k < ls.len() && !contains_chars(&ls[k], &needle)
        invariant
            0 <= k <= ls@.len(),
            lv == vec_views(ls@),
            lv == lines(text@),
            needle@ == "SSL handshake has read"@,
            first_line_with(lv, needle@, 0) == first_line_with(lv, needle@, k as int),
        decreases ls@.len() - k,
    {
        assert(lv[k as int] == ls@[k as int]@);
        k += 1;
    }
    if k == ls.len() {
        return (0, 0);
    }
    assert(lv[k as int] == ls@[k as int]@);
    let ws = words_of(&ls[k]);
    let ghost wv = vec_views(ws@);
    let mut first: Option<u64> = None;
    let mut second: Option<u64> = None;
    let mut j: usize = 0;
    while j < ws.len()
        invariant
            0 <= j <= ws@.len(),
            wv == vec_views(ws@),
            wv == words(lv[k as int]),
            ({
                let ns = numbers_in(wv.take(j as int));
                &&& (ns.len() == 0 <==> first is None)
                &&& (ns.len() >= 1 ==> first == Some(ns[0] as u64) && ns[0] <= u64::MAX)
                &&& (ns.len() <= 1 <==> second is None)
                &&& (ns.len() >= 2 ==> second == Some(ns[1] as u64) && ns[1] <= u64::MAX)
            }),
        decreases ws@.len() - j,
    {
        assert(wv.take(j + 1).drop_last() =~= wv.take(j as int));
        assert(wv.take(j + 1).last() == ws@[j as int]@);
        match parse_u64(&ws[j]) {
            Some(v) => {
                if first.is_none() {
                    first = Some(v);
                } else if second.is_none() {
                    second = Some(v);
                }
            },
            None => {},
        }
        j += 1;
    }
    assert(wv.take(ws@.len() as int) =~= wv);
    match (first, second) {
        (Some(read), Some(written)) => (written, read),
        _ => (0, 0),
    }
}

/// Whether a line looks like it explains a failure.
pub open spec fn error_like(t: Seq<char>) -> bool {
    let l = lower(t);
    contains(l, "error"@) || contains(l, "alert"@) || contains(l, "failed"@)
}

pub open spec fn first_error_from(ls: Seq<Seq<char>>, k: int) -> Option<Seq<char>>
    decreases ls.len() - k,
{
    if k < 0 || k >= ls.len() {
        None
    } else if error_like(trim(ls[k])) {
        Some(prefix(trim(ls[k]), 300))
    } else {
        first_error_from(ls, k + 1)
    }
}

/// The first trimmed line mentioning an error, alert or failure, cut to 300 characters.
pub open spec fn first_error_spec(text: Seq<char>) -> Option<Seq<char>> {
    first_error_from(lines(text), 0)
}

fn first_error_chars(text: &[char]) -> (res: Option<String>)
    ensures
        opt_view(res) == first_error_spec(text@),
{
    let ls = lines_of(text);
    let ghost lv = vec_views(ls@);
    let e = chars_of("error");
    let a = chars_of("alert");
    let f = chars_of("failed");
    let mut k: usize = 0;
    while k < ls.len()
        invariant
            0 <= k <= ls@.len(),
            lv == vec_views(ls@),
            lv == lines(text@),
            e@ == "error"@,
            a@ == "alert"@,
            f@ == "failed"@,
            first_error_spec(text@) == first_error_from(lv, k as int),
        decreases ls@.len() - k,
    {
        assert(lv[k as int] == ls@[k as int]@);
        let t = trimmed(&ls[k]);
        let lo = lower_chars(&t);
        if contains_chars(&lo, &e) || contains_chars(&lo, &a) || contains_chars(&lo, &f) {
            return Some(string_of(&prefix_chars(&t, 300)));
        }
        k += 1;
    }
    None
}


// ---------------------------------------------------------------------------
// Assembling a response
// ---------------------------------------------------------------------------

pub open spec fn or_unknown(o: Option<Seq<char>>) -> Seq<char> {
    match o {
        Some(s) => s,
        None => "unknown"@,
    }
}

/// The trace: the ClientHello, then a ServerHello on success or the alert on failure.
pub open spec fn built_messages(
    r: ProbeRequest,
    success: bool,
    n: (Option<Seq<char>>, Option<Seq<char>>, Option<Seq<char>>, Option<Seq<char>>),
    alert: Option<(Seq<char>, Seq<char>)>,
) -> Seq<(u32, Direction, Seq<char>, Seq<(Seq<char>, Seq<Seq<char>>)>)> {
    seq![client_hello_spec(r)] + if success {
        seq![
            (
                1u32,
                Direction::Inbound,
                "ServerHello"@,
                seq![
                    ("Version"@, seq![or_unknown(n.0)]),
                    ("Cipher Suite"@, seq![or_unknown(n.1)]),
                    ("Key Exchange Group"@, seq![or_unknown(n.2)]),
                ],
            ),
        ]
    } else {
        match alert {
            Some(a) => seq![
                (
                    1u32,
                    Direction::Inbound,
                    "Alert"@,
                    seq![("Level"@, seq![a.0]), ("Description"@, seq![a.1])],
                ),
            ],
            None => Seq::empty(),
        }
    }
}

/// How far a probe got: complete with an HTTP answer, stuck at the request without one,
/// or failed in the handshake.
pub open spec fn stage_for(success: bool, has_http: bool) -> Stage {
    if success {
        if has_http {
            Stage::Complete
        } else {
            Stage::HttpRequest
        }
    } else {
        Stage::TlsHandshake
    }
}

/// The parts of a response every adapter backend fills in the same way.
pub open spec fn response_frame(
    res: ProbeResponse,
    adapter: Seq<char>,
    r: ProbeRequest,
    error_summary: Option<Seq<char>>,
) -> bool {
    &&& res.adapter@ == adapter
    &&& message_views(res.messages@) == built_messages(
        r,
        res.handshake_success,
        negotiated_view(res.negotiated),
        alert_view(res.alert),
    )
    &&& res.failed_stage == stage_for(res.handshake_success, res.http is Some)
    &&& opt_view(res.error_summary) == if res.handshake_success {
        None
    } else {
        error_summary
    }
    &&& res.diagnostics matches Diagnostics::Offered { offered_groups, offered_sig_algs }
        && views(offered_groups@) == views(r.kem_groups@) && views(offered_sig_algs@) == views(
        r.sig_algs@,
    )
    &&& res.duration_ms == 0
}

/// The trace agrees with the rest of the response. After the ClientHello comes, on a
/// successful handshake, a ServerHello whose `Version`, `Cipher Suite` and
/// `Key Exchange Group` fields hold the negotiated version, cipher suite and group (or
/// `unknown` where none was reported); on a failed one, the alert with its level and
/// description when there was an alert, and nothing when there was none.
pub proof fn lemma_trace_matches_response(
    res: ProbeResponse,
    adapter: Seq<char>,
    r: ProbeRequest,
    error_summary: Option<Seq<char>>,
)
    requires
        response_frame(res, adapter, r, error_summary),
    ensures
        res.messages@.len() >= 1,
        res.messages@[0].kind@ == "ClientHello"@,
        res.handshake_success ==> {
            let m = res.messages@[1];
            &&& res.messages@.len() == 2
            &&& m.index == 1 && m.direction == Direction::Inbound && m.kind@ == "ServerHello"@
            &&& m.fields@.len() == 3
            &&& m.fields@[0].label@ == "Version"@
            &&& views(m.fields@[0].values@) == seq![or_unknown(opt_view(res.negotiated.tls_version))]
            &&& m.fields@[1].label@ == "Cipher Suite"@
            &&& views(m.fields@[1].values@) == seq![or_unknown(opt_view(res.negotiated.cipher_suite))]
            &&& m.fields@[2].label@ == "Key Exchange Group"@
            &&& views(m.fields@[2].values@) == seq![or_unknown(opt_view(res.negotiated.group))]
        },
        !res.handshake_success && res.alert is Some ==> {
            let m = res.messages@[1];
            let a = res.alert->0;
            &&& res.messages@.len() == 2
            &&& m.index == 1 && m.direction == Direction::Inbound && m.kind@ == "Alert"@
            &&& m.fields@.len() == 2
            &&& m.fields@[0].label@ == "Level"@ && views(m.fields@[0].values@) == seq![a.level@]
            &&& m.fields@[1].label@ == "Description"@ && views(m.fields@[1].values@) == seq![
                a.description@,
            ]
        },
        !res.handshake_success && res.alert is None ==> res.messages@.len() == 1,
{
    let mv = message_views(res.messages@);
    assert(mv.len() == res.messages@.len());
    assert(mv[0] == message_view(res.messages@[0]));
    if res.messages@.len() > 1 {
        let m = res.messages@[1];
        assert(mv[1] == message_view(m));
        let fv = field_views(m.fields@);
        assert(fv.len() == m.fields@.len());
        if m.fields@.len() > 0 {
            assert(fv[0] == field_view(m.fields@[0]));
        }
        if m.fields@.len() > 1 {
            assert(fv[1] == field_view(m.fields@[1]));
        }
        if m.fields@.len() > 2 {
            assert(fv[2] == field_view(m.fields@[2]));
        }
    }
}

fn or_unknown_exec(o: &Option<String>) -> (res: String)
    ensures
        res@ == or_unknown(opt_view(*o)),
{
    match o {
        Some(s) => s.clone(),
        None => owned("unknown"),
    }
}

pub fn build_response(
    adapter: &str,
    request: &ProbeRequest,
    handshake_success: bool,
    negotiated: Negotiated,
    alert: Option<Alert>,
    cert_chain: Vec<Certificate>,
    http: Option<HttpOutcome>,
    evidence: Evidence,
    error_summary: Option<String>,
) -> (res: ProbeResponse)
    ensures
        response_frame(res, adapter@, *request, opt_view(error_summary)),
        res.handshake_success == handshake_success,
        res.negotiated == negotiated,
        res.alert == alert,
        res.cert_chain == cert_chain,
        res.http == http,
        res.evidence == evidence,
{
    let mut messages: Vec<HandshakeMessage> = Vec::new();
    messages.push(client_hello(request));
    let ghost m0 = message_views(messages@);
    assert(m0 =~= seq![client_hello_spec(*request)]);
    if handshake_success {
        let mut fields: Vec<MessageField> = Vec::new();
        fields.push(MessageField::single(owned("Version"), or_unknown_exec(&negotiated.tls_version)));
        fields.push(MessageField::single(owned("Cipher Suite"), or_unknown_exec(&negotiated.cipher_suite)));
        fields.push(MessageField::single(owned("Key Exchange Group"), or_unknown_exec(&negotiated.group)));
        let m = HandshakeMessage {
            index: 1,
            direction: Direction::Inbound,
            kind: owned("ServerHello"),
            fields,
        };
        assert(field_views(m.fields@) =~= seq![
            ("Version"@, seq![or_unknown(opt_view(negotiated.tls_version))]),
            ("Cipher Suite"@, seq![or_unknown(opt_view(negotiated.cipher_suite))]),
            ("Key Exchange Group"@, seq![or_unknown(opt_view(negotiated.group))]),
        ]);
        messages.push(m);
    } else {
        match &alert {
            Some(a) => {
                let mut fields: Vec<MessageField> = Vec::new();
                fields.push(MessageField::single(owned("Level"), a.level.clone()));
                fields.push(MessageField::single(owned("Description"), a.description.clone()));
                let m = HandshakeMessage {
                    index: 1,
                    direction: Direction::Inbound,
                    kind: owned("Alert"),
                    fields,
                };
                assert(field_views(m.fields@) =~= seq![
                    ("Level"@, seq![a.level@]),
                    ("Description"@, seq![a.description@]),
                ]);
                messages.push(m);
            },
            None => {},
        }
    }
    assert(message_views(messages@) =~= built_messages(
        *request,
        handshake_success,
        negotiated_view(negotiated),
        alert_view(alert),
    ));
    let failed_stage = if handshake_success {
        if http.is_some() {
            Stage::Complete
        } else {
            Stage::HttpRequest
        }
    } else {
        Stage::TlsHandshake
    };
    ProbeResponse {
        adapter: owned(adapter),
        handshake_success,
        negotiated,
        messages,
        alert,
        cert_chain,
        http,
        failed_stage,
        error_summary: if handshake_success {
            None
        } else {
            error_summary
        },
        diagnostics: Diagnostics::Offered {
            offered_groups: request.kem_groups.clone(),
            offered_sig_algs: request.sig_algs.clone(),
        },
        evidence,
        duration_ms: 0,
    }
}

// ---------------------------------------------------------------------------
// Per-stack output parsers
// ---------------------------------------------------------------------------

/// stdout, a newline, stderr.
pub open spec fn combined(stdout: Seq<char>, stderr: Seq<char>) -> Seq<char> {
    stdout.push('\n') + stderr
}

pub open spec fn or_else(a: Option<Seq<char>>, b: Option<Seq<char>>) -> Option<Seq<char>> {
    match a {
        Some(x) => Some(x),
        None => b,
    }
}

/// `Protocol  : `, else `Protocol: `, else the first comma-separated item after `New, `.
pub open spec fn openssl_version(out: Seq<char>) -> Option<Seq<char>> {
    or_else(
        value_after_spec(out, "Protocol  : "@),
        or_else(
            value_after_spec(out, "Protocol: "@),
            match value_after_spec(out, "New, "@) {
                Some(rest) => Some(trim(split(rest, ',')[0])),
                None => None,
            },
        ),
    )
}

/// `Cipher    : `, else `Cipher is `; the placeholder `0000` means no cipher.
pub open spec fn openssl_cipher(out: Seq<char>) -> Option<Seq<char>> {
    match or_else(value_after_spec(out, "Cipher    : "@), value_after_spec(out, "Cipher is "@)) {
        Some(c) => if c == "0000"@ {
            None
        } else {
            Some(c)
        },
        None => None,
    }
}

pub open spec fn openssl_group(out: Seq<char>) -> Option<Seq<char>> {
    or_else(
        value_after_spec(out, "Negotiated TLS1.3 group: "@),
        value_after_spec(out, "Server Temp Key: "@),
    )
}

pub open spec fn openssl_sig(out: Seq<char>) -> Option<Seq<char>> {
    value_after_spec(out, "Peer signature type: "@)
}

fn combine(stdout: &[char], stderr: &[char]) -> (res: Vec<char>)
    ensures
        res@ == combined(stdout@, stderr@),
{
    let mut c = copy_range(stdout, 0, stdout.len());
    assert(c@ =~= stdout@);
    c.push('\n');
    extend(&mut c, stderr);
    c
}

fn first_or(a: Option<String>, b: Option<String>) -> (res: Option<String>)
    ensures
        opt_view(res) == or_else(opt_view(a), opt_view(b)),
{
    match a {
        Some(x) => Some(x),
        None => b,
    }
}

fn openssl_version_exec(out: &[char]) -> (res: Option<String>)
    ensures
        opt_view(res) == openssl_version(out@),
{
    let a = value_after_chars(out, "Protocol  : ");
    let b = value_after_chars(out, "Protocol: ");
    let c = match value_after_chars(out, "New, ") {
        Some(rest) => {
            let rc = chars_of(rest.as_str());
            let pieces = crate::text::split_of(&rc, ',');
            assert(vec_views(pieces@)[0] == pieces@[0]@);
            Some(string_of(&trimmed(&pieces[0])))
        },
        None => None,
    };
    first_or(a, first_or(b, c))
}

fn openssl_cipher_exec(out: &[char]) -> (res: Option<String>)
    ensures
        opt_view(res) == openssl_cipher(out@),
{
    match first_or(value_after_chars(out, "Cipher    : "), value_after_chars(out, "Cipher is ")) {
        Some(c) => if str_eq(c.as_str(), "0000") {
            None
        } else {
            Some(c)
        },
        None => None,
    }
}

/// The fields every parser reports from the client's own output.
pub open spec fn parsed_common(res: ProbeResponse, stdout: Seq<char>, stderr: Seq<char>) -> bool {
    &&& alert_view(res.alert) == parse_alert_spec(combined(stdout, stderr))
    &&& http_view(res.http) == parse_http_spec(stdout)
}

/// What `parse_openssl` reads from `openssl s_client` output.
pub open spec fn openssl_parsed(
    res: ProbeResponse,
    adapter: Seq<char>,
    r: ProbeRequest,
    stdout: Seq<char>,
    stderr: Seq<char>,
) -> bool {
    &&& negotiated_view(res.negotiated) == (
        openssl_version(stdout),
        openssl_cipher(stdout),
        openssl_group(stdout),
        openssl_sig(stdout),
    )
    &&& res.handshake_success == (openssl_version(stdout) is Some && openssl_cipher(stdout) is Some)
    &&& parsed_common(res, stdout, stderr)
    &&& bare_certs(res.cert_chain@, certs_spec(stdout))
    &&& (res.evidence.bytes_sent as nat, res.evidence.bytes_received as nat) == byte_counts_spec(
        stdout,
    )
    &&& res.evidence.uds_dump_b64 is None
    &&& res.evidence.keylog is None
    &&& response_frame(res, adapter, r, first_error_spec(combined(stdout, stderr)))
}

/// `openssl s_client` output.
pub fn parse_openssl(adapter: &str, request: &ProbeRequest, stdout: &str, stderr: &str) -> (res:
    ProbeResponse)
    ensures
        openssl_parsed(res, adapter@, *request, stdout@, stderr@),
{
    let out = chars_of(stdout);
    let err = chars_of(stderr);
    let all = combine(&out, &err);
    let tls_version = openssl_version_exec(&out);
    let cipher_suite = openssl_cipher_exec(&out);
    let group = first_or(
        value_after_chars(&out, "Negotiated TLS1.3 group: "),
        value_after_chars(&out, "Server Temp Key: "),
    );
    let cert_verify_sig_alg = value_after_chars(&out, "Peer signature type: ");
    let handshake_success = tls_version.is_some() && cipher_suite.is_some();
    let alert = parse_alert_chars(&all);
    let http = parse_http_chars(&out);
    let (sent, received) = byte_counts_chars(&out);
    build_response(
        adapter,
        request,
        handshake_success,
        Negotiated { tls_version, cipher_suite, group, cert_verify_sig_alg },
        alert,
        certs_from_chars(&out),
        http,
        Evidence::counts(sent, received),
        first_error_chars(&all),
    )
}

pub open spec fn boringssl_group(out: Seq<char>) -> Option<Seq<char>> {
    or_else(value_after_spec(out, "ECDHE curve: "@), value_after_spec(out, "Group: "@))
}

/// What `parse_boringssl` reads from `bssl client` output.
pub open spec fn boringssl_parsed(
    res: ProbeResponse,
    adapter: Seq<char>,
    r: ProbeRequest,
    stdout: Seq<char>,
    stderr: Seq<char>,
) -> bool {
    &&& negotiated_view(res.negotiated) == (
        value_after_spec(stdout, "Version: "@),
        value_after_spec(stdout, "Cipher: "@),
        boringssl_group(stdout),
        value_after_spec(stdout, "Signature algorithm: "@),
    )
    &&& res.handshake_success == (contains(stdout, "Connected"@) && value_after_spec(
        stdout,
        "Cipher: "@,
    ) is Some)
    &&& parsed_common(res, stdout, stderr)
    &&& res.cert_chain@.len() == 0
    &&& res.evidence.bytes_sent == 0
    &&& res.evidence.bytes_received == 0
    &&& res.evidence.uds_dump_b64 is None
    &&& res.evidence.keylog is None
    &&& response_frame(res, adapter, r, first_error_spec(combined(stdout, stderr)))
}

/// `bssl client` output.
pub fn parse_boringssl(adapter: &str, request: &ProbeRequest, stdout: &str, stderr: &str) -> (res:
    ProbeResponse)
    ensures
        boringssl_parsed(res, adapter@, *request, stdout@, stderr@),
{
    let out = chars_of(stdout);
    let err = chars_of(stderr);
    let all = combine(&out, &err);
    let tls_version = value_after_chars(&out, "Version: ");
    let cipher_suite = value_after_chars(&out, "Cipher: ");
    let group = first_or(value_after_chars(&out, "ECDHE curve: "), value_after_chars(&out, "Group: "));
    let cert_verify_sig_alg = value_after_chars(&out, "Signature algorithm: ");
    let handshake_success = text_contains(&out, "Connected") && cipher_suite.is_some();
    build_response(
        adapter,
        request,
        handshake_success,
        Negotiated { tls_version, cipher_suite, group, cert_verify_sig_alg },
        parse_alert_chars(&all),
        Vec::new(),
        parse_http_chars(&out),
        Evidence::counts(0, 0),
        first_error_chars(&all),
    )
}

/// What `parse_wolfssl` reads from the wolfSSL example client's output.
pub open spec fn wolfssl_parsed(
    res: ProbeResponse,
    adapter: Seq<char>,
    r: ProbeRequest,
    stdout: Seq<char>,
    stderr: Seq<char>,
) -> bool {
    &&& negotiated_view(res.negotiated) == (
        value_after_spec(stdout, "SSL version is "@),
        value_after_spec(stdout, "SSL cipher suite is "@),
        value_after_spec(stdout, "SSL curve name is "@),
        None::<Seq<char>>,
    )
    &&& res.handshake_success == value_after_spec(stdout, "SSL cipher suite is "@) is Some
    &&& parsed_common(res, stdout, stderr)
    &&& res.cert_chain@.len() == 0
    &&& res.evidence.bytes_sent == 0
    &&& res.evidence.bytes_received == 0
    &&& res.evidence.uds_dump_b64 is None
    &&& res.evidence.keylog is None
    &&& response_frame(res, adapter, r, first_error_spec(combined(stdout, stderr)))
}

/// wolfSSL example-client output.
pub fn parse_wolfssl(adapter: &str, request: &ProbeRequest, stdout: &str, stderr: &str) -> (res:
    ProbeResponse)
    ensures
        wolfssl_parsed(res, adapter@, *request, stdout@, stderr@),
{
    let out = chars_of(stdout);
    let err = chars_of(stderr);
    let all = combine(&out, &err);
    let tls_version = value_after_chars(&out, "SSL version is ");
    let cipher_suite = value_after_chars(&out, "SSL cipher suite is ");
    let group = value_after_chars(&out, "SSL curve name is ");
    let handshake_success = cipher_suite.is_some();
    build_response(
        adapter,
        request,
        handshake_success,
        Negotiated { tls_version, cipher_suite, group, cert_verify_sig_alg: None },
        parse_alert_chars(&all),
        Vec::new(),
        parse_http_chars(&out),
        Evidence::counts(0, 0),
        first_error_chars(&all),
    )
}


// ---------------------------------------------------------------------------
// The mock backend
// ---------------------------------------------------------------------------

pub open spec fn first_or_empty(v: Seq<String>) -> Seq<char> {
    if v.len() > 0 {
        v[0]@
    } else {
        Seq::empty()
    }
}

/// The lab's deliberately broken target.
pub open spec fn lab_vulnerable(t: Target) -> bool {
    contains(t.host@, "vuln"@) || t.port == 8888
}

/// `name` is in `known`, ignoring ASCII case.
pub open spec fn listed(known: Seq<Seq<char>>, name: Seq<char>) -> bool {
    exists|i: int| 0 <= i < known.len() && eq_ignore_ascii_case(#[trigger] known[i], name)
}

/// The mock accepts the first offered group when it advertises it or advertises nothing.
pub open spec fn mock_group_ok(c: Config, r: ProbeRequest) -> bool {
    let known = list_items(c.kem_groups@);
    known.len() == 0 || listed(known, first_or_empty(r.kem_groups@))
}

/// The mock accepts the first offered signature algorithm when none is offered, when it
/// advertises none, or when it advertises that one.
pub open spec fn mock_sig_ok(c: Config, r: ProbeRequest) -> bool {
    let offered = first_or_empty(r.sig_algs@);
    let known = list_items(c.sig_algs@);
    offered.len() == 0 || known.len() == 0 || listed(known, offered)
}

pub open spec fn mock_error(c: Config, r: ProbeRequest) -> Option<Seq<char>> {
    if lab_vulnerable(r.target) {
        Some("InvalidTag:"@)
    } else if !(mock_group_ok(c, r) && mock_sig_ok(c, r)) {
        Some(
            "no shared "@ + if mock_group_ok(c, r) {
                "signature algorithm"@
            } else {
                "group"@
            },
        )
    } else {
        None
    }
}

pub open spec fn nothing_negotiated(res: ProbeResponse) -> bool {
    negotiated_view(res.negotiated) == (
        None::<Seq<char>>,
        None::<Seq<char>>,
        None::<Seq<char>>,
        None::<Seq<char>>,
    )
}

pub open spec fn mock_headers() -> Seq<(Seq<char>, Seq<Seq<char>>)> {
    seq![
        ("Server"@, seq!["pqcas-mock/1.0"@]),
        ("Content-Type"@, seq!["application/json"@]),
        ("Connection"@, seq!["close"@]),
    ]
}

fn listed_exec(known: &Vec<String>, name: &[char]) -> (res: bool)
    ensures
        res == listed(views(known@), name@),
{
    let mut i: usize = 0;
    while i < known.len()
        invariant
            0 <= i <= known@.len(),
            forall|j: int| 0 <= j < i ==> !eq_ignore_ascii_case(#[trigger] views(known@)[j], name@),
        decreases known@.len() - i,
    {
        let k = chars_of(known[i].as_str());
        if eq_ignore_case_chars(&k, name) {
            assert(views(known@)[i as int] == k@);
            return true;
        }
        i += 1;
    }
    false
}

fn first_chars(v: &Vec<String>) -> (res: Vec<char>)
    ensures
        res@ == first_or_empty(v@),
{
    if v.len() > 0 {
        chars_of(v[0].as_str())
    } else {
        let e: Vec<char> = Vec::new();
        assert(e@ =~= Seq::<char>::empty());
        e
    }
}

/// What the mock answers `r` with, given settings `c`.
pub open spec fn mock_answer(c: Config, r: ProbeRequest, res: ProbeResponse) -> bool {
    &&& response_frame(res, c.adapter_name_spec(), r, mock_error(c, r))
    &&& res.evidence.uds_dump_b64 is None
    &&& res.evidence.keylog is None
    &&& lab_vulnerable(r.target) ==> {
        &&& !res.handshake_success
        &&& nothing_negotiated(res)
        &&& alert_view(res.alert) == Some(("fatal"@, "bad_record_mac"@))
        &&& opt_view(res.error_summary) == Some("InvalidTag:"@)
        &&& res.cert_chain@.len() == 0
        &&& res.http is None
        &&& res.evidence.bytes_sent == 0 && res.evidence.bytes_received == 0
    }
    &&& !lab_vulnerable(r.target) && !(mock_group_ok(c, r) && mock_sig_ok(c, r)) ==> {
        &&& !res.handshake_success
        &&& nothing_negotiated(res)
        &&& alert_view(res.alert) == Some(("fatal"@, "handshake_failure"@))
        &&& res.cert_chain@.len() == 0
        &&& res.http is None
        &&& res.evidence.bytes_sent == 0 && res.evidence.bytes_received == 0
    }
    &&& !lab_vulnerable(r.target) && mock_group_ok(c, r) && mock_sig_ok(c, r) ==> {
        &&& res.handshake_success
        &&& negotiated_view(res.negotiated) == (
            Some("TLSv1.3"@),
            Some("TLS_AES_256_GCM_SHA384"@),
            Some(first_or_empty(r.kem_groups@)),
            Some(
                if first_or_empty(r.sig_algs@).len() == 0 {
                    "ecdsa_secp256r1_sha256"@
                } else {
                    first_or_empty(r.sig_algs@)
                },
            ),
        )
        &&& res.alert is None
        &&& res.cert_chain@.len() == 1
        &&& res.cert_chain@[0].subject@ == "CN="@ + r.target.host@
        &&& res.cert_chain@[0].issuer@ == "CN=pqcas-lab-ca"@
        &&& opt_view(res.cert_chain@[0].signature_algorithm) == Some("mldsa65"@)
        &&& opt_view(res.cert_chain@[0].public_key_algorithm) == Some("ML-DSA-65"@)
        &&& res.cert_chain@[0].not_before is None && res.cert_chain@[0].not_after is None
        &&& res.cert_chain@[0].sha256_fingerprint is None
        &&& http_view(res.http) == Some((200u16, mock_headers(), Some("{\"mock\":true}"@)))
        &&& res.evidence.bytes_sent == 9240 && res.evidence.bytes_received == 1658
    }
}

/// The lab's broken target always fails with `InvalidTag:` after a `bad_record_mac`
/// alert: any target whose host contains `vuln`, whatever its port, and any target on
/// port 8888, whatever its host, whatever was offered and whatever the mock advertises.
pub proof fn lemma_mock_broken_target(c: Config, r: ProbeRequest, res: ProbeResponse)
    requires
        mock_answer(c, r, res),
        contains(r.target.host@, "vuln"@) || r.target.port == 8888,
    ensures
        !res.handshake_success,
        alert_view(res.alert) == Some(("fatal"@, "bad_record_mac"@)),
        opt_view(res.error_summary) == Some("InvalidTag:"@),
        res.failed_stage == Stage::TlsHandshake,
        res.negotiated.group is None,
        res.http is None,
{
}

/// Away from the broken target, offering first a group the mock advertises (compared
/// without ASCII case) and no signature algorithm completes the handshake on that group,
/// as offered, with an HTTP answer and no error.
pub proof fn lemma_mock_advertised_group_succeeds(c: Config, r: ProbeRequest, res: ProbeResponse)
    requires
        mock_answer(c, r, res),
        !contains(r.target.host@, "vuln"@),
        r.target.port != 8888,
        r.kem_groups@.len() > 0,
        r.sig_algs@.len() == 0,
        exists|i: int|
            0 <= i < list_items(c.kem_groups@).len() && lower(#[trigger] list_items(c.kem_groups@)[i])
                == lower(r.kem_groups@[0]@),
    ensures
        res.handshake_success,
        opt_view(res.negotiated.group) == Some(r.kem_groups@[0]@),
        res.alert is None,
        res.error_summary is None,
        res.failed_stage == Stage::Complete,
{
    let known = list_items(c.kem_groups@);
    let i = choose|i: int| 0 <= i < known.len() && lower(#[trigger] known[i]) == lower(r.kem_groups@[0]@);
    lemma_eq_ignore_case_is_lower_eq(known[i], r.kem_groups@[0]@);
    assert(listed(known, first_or_empty(r.kem_groups@)));
}

/// Away from the broken target, when the mock advertises groups and none of them is the
/// first offered group (compared without ASCII case), the handshake fails with a
/// `handshake_failure` alert and `no shared group`.
pub proof fn lemma_mock_unadvertised_group_fails(c: Config, r: ProbeRequest, res: ProbeResponse)
    requires
        mock_answer(c, r, res),
        !contains(r.target.host@, "vuln"@),
        r.target.port != 8888,
        r.kem_groups@.len() > 0,
        list_items(c.kem_groups@).len() > 0,
        forall|i: int|
            0 <= i < list_items(c.kem_groups@).len() ==> lower(#[trigger] list_items(c.kem_groups@)[i])
                != lower(r.kem_groups@[0]@),
    ensures
        !res.handshake_success,
        alert_view(res.alert) == Some(("fatal"@, "handshake_failure"@)),
        opt_view(res.error_summary) == Some("no shared group"@),
        res.failed_stage == Stage::TlsHandshake,
{
    let known = list_items(c.kem_groups@);
    assert forall|i: int| 0 <= i < known.len() implies !eq_ignore_ascii_case(
        #[trigger] known[i],
        first_or_empty(r.kem_groups@),
    ) by {
        lemma_eq_ignore_case_is_lower_eq(known[i], r.kem_groups@[0]@);
    }
    assert(!mock_group_ok(c, r));
    reveal_strlit("no shared ");
    reveal_strlit("group");
    reveal_strlit("no shared group");
    assert("no shared "@ + "group"@ =~= "no shared group"@);
}

/// Deterministic stand-in used by CI and the browser suite: a group the stack advertises
/// succeeds, anything else fails the way a real server would, and the lab's broken target
/// always fails with `InvalidTag`.
pub fn mock(config: &Config, request: &ProbeRequest) -> (res: ProbeResponse)
    ensures
        mock_answer(*config, *request, res),
{
    let adapter = config.adapter_name();
    let known = config.kem_group_list();
    let known_sigs = config.sig_alg_list();
    let offered_group = first_chars(&request.kem_groups);
    let offered_sig = first_chars(&request.sig_algs);

    let host = chars_of(request.target.host.as_str());
    let vulnerable = text_contains(&host, "vuln") || request.target.port == 8888;
    let group_ok = known.len() == 0 || listed_exec(&known, &offered_group);
    let sig_ok = offered_sig.len() == 0 || known_sigs.len() == 0 || listed_exec(
        &known_sigs,
        &offered_sig,
    );

    if vulnerable {
        let mut response = build_response(
            adapter.as_str(),
            request,
            false,
            Negotiated::empty(),
            Some(fatal(owned("bad_record_mac"))),
            Vec::new(),
            None,
            Evidence::counts(0, 0),
            Some(owned("InvalidTag:")),
        );
        response.error_summary = Some(owned("InvalidTag:"));
        return response;
    }
    if !group_ok || !sig_ok {
        let reason = if group_ok {
            concat("no shared ", "signature algorithm")
        } else {
            concat("no shared ", "group")
        };
        return build_response(
            adapter.as_str(),
            request,
            false,
            Negotiated::empty(),
            Some(fatal(owned("handshake_failure"))),
            Vec::new(),
            None,
            Evidence::counts(0, 0),
            Some(reason),
        );
    }
    let sig = if offered_sig.len() == 0 {
        owned("ecdsa_secp256r1_sha256")
    } else {
        string_of(&offered_sig)
    };
    let mut chain: Vec<Certificate> = Vec::new();
    chain.push(
        Certificate {
            subject: concat("CN=", request.target.host.as_str()),
            issuer: owned("CN=pqcas-lab-ca"),
            not_before: None,
            not_after: None,
            signature_algorithm: Some(owned("mldsa65")),
            public_key_algorithm: Some(owned("ML-DSA-65")),
            sha256_fingerprint: None,
        },
    );
    let mut headers: Vec<MessageField> = Vec::new();
    headers.push(MessageField::single(owned("Server"), owned("pqcas-mock/1.0")));
    headers.push(MessageField::single(owned("Content-Type"), owned("application/json")));
    headers.push(MessageField::single(owned("Connection"), owned("close")));
    assert(field_views(headers@) =~= mock_headers());
    build_response(
        adapter.as_str(),
        request,
        true,
        Negotiated {
            tls_version: Some(owned("TLSv1.3")),
            cipher_suite: Some(owned("TLS_AES_256_GCM_SHA384")),
            group: Some(string_of(&offered_group)),
            cert_verify_sig_alg: Some(sig),
        },
        None,
        chain,
        Some(
            HttpOutcome {
                status: 200,
                headers,
                body_excerpt: Some(owned("{\"mock\":true}")),
            },
        ),
        Evidence::counts(9240, 1658),
        None,
    )
}

// ---------------------------------------------------------------------------
// Running a real client
// ---------------------------------------------------------------------------

/// The client arguments for a real (non-mock) stack.
pub open spec fn command_args_spec(backend: Backend, r: ProbeRequest) -> Seq<Seq<char>> {
    match backend {
        Backend::OpenSsl => openssl_args_spec(r),
        Backend::BoringSsl => boringssl_args_spec(r),
        _ => wolfssl_args_spec(r),
    }
}

pub fn command_args(backend: Backend, request: &ProbeRequest) -> (res: Vec<String>)
    requires
        backend != Backend::Mock,
    ensures
        views(res@) == command_args_spec(backend, *request),
{
    match backend {
        Backend::OpenSsl => openssl_args(request),
        Backend::BoringSsl => boringssl_args(request),
        _ => wolfssl_args(request),
    }
}

/// Reads a real stack's client output with that stack's parser.
pub fn parse_output(
    backend: Backend,
    adapter: &str,
    request: &ProbeRequest,
    stdout: &str,
    stderr: &str,
) -> (res: ProbeResponse)
    requires
        backend != Backend::Mock,
    ensures
        backend == Backend::OpenSsl ==> openssl_parsed(res, adapter@, *request, stdout@, stderr@),
        backend == Backend::BoringSsl ==> boringssl_parsed(res, adapter@, *request, stdout@, stderr@),
        backend == Backend::WolfSsl ==> wolfssl_parsed(res, adapter@, *request, stdout@, stderr@),
{
    match backend {
        Backend::OpenSsl => parse_openssl(adapter, request, stdout, stderr),
        Backend::BoringSsl => parse_boringssl(adapter, request, stdout, stderr),
        _ => parse_wolfssl(adapter, request, stdout, stderr),
    }
}

// ---------------------------------------------------------------------------
// Runs that never produced client output
// ---------------------------------------------------------------------------

/// The client binary could not be started; `error` is the system's reason.
pub fn launch_failed(adapter: String, client_bin: &str, error: &str) -> (res: ProbeResponse)
    ensures
        is_failure(res, adapter@, Stage::Tcp, "cannot launch "@ + client_bin@ + ": "@ + error@),
{
    let mut m = concat("cannot launch ", client_bin);
    m.append(": ");
    m.append(error);
    ProbeResponse::failure(adapter, Stage::Tcp, m)
}

/// The client did not finish within the request's timeout.
pub fn timed_out(adapter: String, timeout_ms: u64) -> (res: ProbeResponse)
    ensures
        is_failure(
            res,
            adapter@,
            Stage::TlsHandshake,
            "timed out after "@ + decimal(timeout_ms as nat) + " ms"@,
        ),
{
    let mut m = owned("timed out after ");
    let mut digits: Vec<char> = Vec::new();
    push_decimal(&mut digits, timeout_ms);
    let d = string_of(&digits);
    m.append(d.as_str());
    m.append(" ms");
    ProbeResponse::failure(adapter, Stage::TlsHandshake, m)
}

/// Waiting for the client failed; `error` is the system's reason.
pub fn client_failed(adapter: String, error: &str) -> (res: ProbeResponse)
    ensures
        is_failure(res, adapter@, Stage::Tcp, "client failed: "@ + error@),
{
    ProbeResponse::failure(adapter, Stage::Tcp, concat("client failed: ", error))
}

/// The transcript kept as raw evidence: the command line, then stdout and stderr.
pub open spec fn transcript_spec(
    client_bin: Seq<char>,
    args: Seq<Seq<char>>,
    stdout: Seq<char>,
    stderr: Seq<char>,
) -> Seq<char> {
    "$ "@ + client_bin + " "@ + join(args, " "@) + "\n--- stdout ---\n"@ + stdout
        + "\n--- stderr ---\n"@ + stderr
}

pub fn transcript(client_bin: &str, args: &[String], stdout: &str, stderr: &str) -> (res: String)
    ensures
        res@ == transcript_spec(client_bin@, views(args@), stdout@, stderr@),
{
    let mut out = owned("$ ");
    out.append(client_bin);
    out.append(" ");
    let joined = join_strings(args, " ");
    out.append(joined.as_str());
    out.append("\n--- stdout ---\n");
    out.append(stdout);
    out.append("\n--- stderr ---\n");
    out.append(stderr);
    out
}

/// Standard base64 (RFC 4648 alphabet, with padding) of `bytes`.
pub uninterp spec fn base64_standard(bytes: Seq<u8>) -> Seq<char>;

/// `base64::engine::general_purpose::STANDARD.encode`. The result is named by
/// `base64_standard`; the input bound keeps the crate's buffer-size computation from
/// overflowing, which it reports by panicking.
#[verifier::external_body]
fn base64_encode(bytes: &[u8]) -> (res: String)
    requires
        bytes@.len() <= usize::MAX / 2,
    ensures
        res@ == base64_standard(bytes@),
{
    base64::Engine::encode(&base64::engine::general_purpose::STANDARD, bytes)
}

/// Attaches the base64 of the transcript as the raw-record evidence.
pub fn attach_capture(response: &mut ProbeResponse, transcript: &str)
    requires
        transcript.spec_bytes().len() <= usize::MAX / 2,
    ensures
        final(response).evidence.uds_dump_b64 matches Some(b) && b@ == base64_standard(
            transcript.spec_bytes(),
        ),
        final(response).adapter == old(response).adapter,
        final(response).handshake_success == old(response).handshake_success,
        final(response).negotiated == old(response).negotiated,
        final(response).messages == old(response).messages,
        final(response).alert == old(response).alert,
        final(response).cert_chain == old(response).cert_chain,
        final(response).http == old(response).http,
        final(response).failed_stage == old(response).failed_stage,
        final(response).error_summary == old(response).error_summary,
        final(response).diagnostics == old(response).diagnostics,
        final(response).evidence.bytes_sent == old(response).evidence.bytes_sent,
        final(response).evidence.bytes_received == old(response).evidence.bytes_received,
        final(response).evidence.keylog == old(response).evidence.keylog,
        final(response).duration_ms == old(response).duration_ms,
{
    let encoded = base64_encode(transcript.as_bytes());
    response.evidence.uds_dump_b64 = Some(encoded);
}

// ---------------------------------------------------------------------------
// The same readers on string slices
// ---------------------------------------------------------------------------

/// What follows `needle` on the first line of `haystack` that has something after it.
pub fn value_after(haystack: &str, needle: &str) -> (res: Option<String>)
    ensures
        opt_view(res) == value_after_spec(haystack@, needle@),
{
    value_after_chars(&chars_of(haystack), needle)
}

pub fn parse_alert(text: &str) -> (res: Option<Alert>)
    ensures
        alert_view(res) == parse_alert_spec(text@),
{
    parse_alert_chars(&chars_of(text))
}

pub fn parse_http(text: &str) -> (res: Option<HttpOutcome>)
    ensures
        http_view(res) == parse_http_spec(text@),
{
    parse_http_chars(&chars_of(text))
}

pub fn parse_openssl_certs(stdout: &str) -> (res: Vec<Certificate>)
    ensures
        bare_certs(res@, certs_spec(stdout@)),
{
    certs_from_chars(&chars_of(stdout))
}

pub fn byte_counts(text: &str) -> (res: (u64, u64))
    ensures
        (res.0 as nat, res.1 as nat) == byte_counts_spec(text@),
{
    byte_counts_chars(&chars_of(text))
}

/// The line most likely to explain a failure, so the error summary is one sentence.
pub fn first_error_line(text: &str) -> (res: Option<String>)
    ensures
        opt_view(res) == first_error_spec(text@),
{
    first_error_chars(&chars_of(text))
}

} // verus!
