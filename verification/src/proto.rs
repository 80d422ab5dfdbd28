//! Wire contract between the worker and the TLS prober adapters.
//!
//! Every adapter exposes `GET /healthz`, `GET /capabilities` (answered with
//! [`Capabilities`]) and `POST /probe` ([`ProbeRequest`] in, [`ProbeResponse`] out).

use vstd::prelude::*;

use crate::text::{owned, views};

verus! {

/// Header carrying the caller's request id to an adapter.
pub const HEADER_REQUEST_ID: &'static str = "x-pqcas-request-id";

pub open spec fn opt_view(o: Option<String>) -> Option<Seq<char>> {
    match o {
        Some(s) => Some(s@),
        None => None,
    }
}

/// Where the handshake should be aimed.
#[derive(Clone, Debug)]
pub struct Target {
    pub host: String,
    pub port: u16,
    /// SNI to present; defaults to `host` when absent.
    pub sni: Option<String>,
    /// Request path for the optional post-handshake `GET`.
    pub http_path: Option<String>,
}

/// What evidence the caller wants retained.
#[derive(Clone, Copy, Debug, PartialEq, Eq, Structural)]
pub struct CaptureOptions {
    pub raw_records: bool,
    pub keylog: bool,
}

impl CaptureOptions {
    /// Nothing retained.
    pub fn none() -> (res: Self)
        ensures
            !res.raw_records,
            !res.keylog,
    {
        CaptureOptions { raw_records: false, keylog: false }
    }
}

#[derive(Clone, Debug)]
pub struct ProbeRequest {
    pub target: Target,
    /// `key_share` / `supported_groups` entries to offer, in preference order.
    pub kem_groups: Vec<String>,
    /// `signature_algorithms` entries to offer.
    pub sig_algs: Vec<String>,
    pub tls_versions: Vec<String>,
    pub cipher_suites: Vec<String>,
    pub timeout_ms: u64,
    pub capture: CaptureOptions,
}

/// TLS 1.3 first, then TLS 1.2.
pub open spec fn default_tls_version_views() -> Seq<Seq<char>> {
    seq!["TLSv1.3"@, "TLSv1.2"@]
}

pub fn default_tls_versions() -> (res: Vec<String>)
    ensures
        views(res@) == default_tls_version_views(),
{
    let mut v: Vec<String> = Vec::new();
    v.push(owned("TLSv1.3"));
    v.push(owned("TLSv1.2"));
    assert(views(v@) =~= default_tls_version_views());
    v
}

pub fn default_timeout_ms() -> (res: u64)
    ensures
        res == 15_000,
{
    15_000
}

impl ProbeRequest {
    /// A request with nothing offered yet and the default versions and timeout.
    pub fn new(target: Target) -> (res: Self)
        ensures
            res.target == target,
            res.kem_groups@.len() == 0,
            res.sig_algs@.len() == 0,
            views(res.tls_versions@) == default_tls_version_views(),
            res.cipher_suites@.len() == 0,
            res.timeout_ms == 15_000,
            !res.capture.raw_records,
            !res.capture.keylog,
    {
        ProbeRequest {
            target,
            kem_groups: Vec::new(),
            sig_algs: Vec::new(),
            tls_versions: default_tls_versions(),
            cipher_suites: Vec::new(),
            timeout_ms: default_timeout_ms(),
            capture: CaptureOptions::none(),
        }
    }
}

/// The stage a probe got to before it stopped.
#[derive(Clone, Copy, Debug, PartialEq, Eq, Structural)]
pub enum Stage {
    Dns,
    Tcp,
    TlsHandshake,
    HttpRequest,
    Complete,
}

impl Stage {
    pub open spec fn wire(self) -> Seq<char> {
        match self {
            Stage::Dns => "dns"@,
            Stage::Tcp => "tcp"@,
            Stage::TlsHandshake => "tls_handshake"@,
            Stage::HttpRequest => "http_request"@,
            Stage::Complete => "complete"@,
        }
    }

    pub fn as_str(self) -> (res: &'static str)
        ensures
            res@ == self.wire(),
    {
        match self {
            Stage::Dns => "dns",
            Stage::Tcp => "tcp",
            Stage::TlsHandshake => "tls_handshake",
            Stage::HttpRequest => "http_request",
            Stage::Complete => "complete",
        }
    }
}

#[derive(Clone, Copy, Debug, PartialEq, Eq, Structural)]
pub enum Direction {
    /// Client -> Server
    Outbound,
    /// Client <- Server
    Inbound,
}

/// One handshake record rendered as a row of the subtask trace.
#[derive(Clone, Debug)]
pub struct HandshakeMessage {
    pub index: u32,
    pub direction: Direction,
    /// `ClientHello`, `ServerHello`, `Alert`, ...
    pub kind: String,
    /// Ordered label/value pairs shown underneath the message chip.
    pub fields: Vec<MessageField>,
}

#[derive(Clone, Debug)]
pub struct MessageField {
    pub label: String,
    pub values: Vec<String>,
}

/// A field as label and values.
pub open spec fn field_view(f: MessageField) -> (Seq<char>, Seq<Seq<char>>) {
    (f.label@, views(f.values@))
}

pub open spec fn field_views(fs: Seq<MessageField>) -> Seq<(Seq<char>, Seq<Seq<char>>)> {
    fs.map_values(|f: MessageField| field_view(f))
}

pub open spec fn message_view(m: HandshakeMessage) -> (
    u32,
    Direction,
    Seq<char>,
    Seq<(Seq<char>, Seq<Seq<char>>)>,
) {
    (m.index, m.direction, m.kind@, field_views(m.fields@))
}

pub open spec fn message_views(ms: Seq<HandshakeMessage>) -> Seq<
    (u32, Direction, Seq<char>, Seq<(Seq<char>, Seq<Seq<char>>)>),
> {
    ms.map_values(|m: HandshakeMessage| message_view(m))
}

impl MessageField {
    pub fn new(label: String, values: Vec<String>) -> (res: Self)
        ensures
            res.label == label,
            res.values == values,
    {
        MessageField { label, values }
    }

    /// A field with exactly one value.
    pub fn single(label: String, value: String) -> (res: Self)
        ensures
            res.label == label,
            res.values@ == seq![value],
            field_view(res) == (label@, seq![value@]),
    {
        let mut values: Vec<String> = Vec::new();
        values.push(value);
        let res = MessageField { label, values };
        assert(views(res.values@) =~= seq![res.values@[0]@]);
        res
    }
}

#[derive(Clone, Debug)]
pub struct Alert {
    pub level: String,
    pub description: String,
}

pub open spec fn alert_view(a: Option<Alert>) -> Option<(Seq<char>, Seq<char>)> {
    match a {
        Some(a) => Some((a.level@, a.description@)),
        None => None,
    }
}

#[derive(Clone, Debug)]
pub struct Negotiated {
    pub tls_version: Option<String>,
    pub cipher_suite: Option<String>,
    pub group: Option<String>,
    pub cert_verify_sig_alg: Option<String>,
}

pub open spec fn negotiated_view(n: Negotiated) -> (
    Option<Seq<char>>,
    Option<Seq<char>>,
    Option<Seq<char>>,
    Option<Seq<char>>,
) {
    (
        opt_view(n.tls_version),
        opt_view(n.cipher_suite),
        opt_view(n.group),
        opt_view(n.cert_verify_sig_alg),
    )
}

impl Negotiated {
    /// Nothing negotiated.
    pub fn empty() -> (res: Self)
        ensures
            res.tls_version is None,
            res.cipher_suite is None,
            res.group is None,
            res.cert_verify_sig_alg is None,
    {
        Negotiated { tls_version: None, cipher_suite: None, group: None, cert_verify_sig_alg: None }
    }
}

impl Default for Negotiated {
    fn default() -> (res: Self)
        ensures
            res.tls_version is None,
            res.cipher_suite is None,
            res.group is None,
            res.cert_verify_sig_alg is None,
    {
        Negotiated::empty()
    }
}

#[derive(Clone, Debug)]
pub struct Certificate {
    pub subject: String,
    pub issuer: String,
    pub not_before: Option<String>,
    pub not_after: Option<String>,
    pub signature_algorithm: Option<String>,
    pub public_key_algorithm: Option<String>,
    pub sha256_fingerprint: Option<String>,
}

#[derive(Clone, Debug)]
pub struct HttpOutcome {
    pub status: u16,
    pub headers: Vec<MessageField>,
    pub body_excerpt: Option<String>,
}

pub open spec fn http_view(h: Option<HttpOutcome>) -> Option<
    (u16, Seq<(Seq<char>, Seq<Seq<char>>)>, Option<Seq<char>>),
> {
    match h {
        Some(h) => Some((h.status, field_views(h.headers@), opt_view(h.body_excerpt))),
        None => None,
    }
}

/// Raw bytes kept for the evidence panel.
#[derive(Clone, Debug)]
pub struct Evidence {
    pub bytes_sent: u64,
    pub bytes_received: u64,
    /// base64 of the raw record capture, only when `capture.raw_records` was set.
    pub uds_dump_b64: Option<String>,
    pub keylog: Option<String>,
}

impl Evidence {
    /// Byte counts and nothing else.
    pub fn counts(bytes_sent: u64, bytes_received: u64) -> (res: Self)
        ensures
            res.bytes_sent == bytes_sent,
            res.bytes_received == bytes_received,
            res.uds_dump_b64 is None,
            res.keylog is None,
    {
        Evidence { bytes_sent, bytes_received, uds_dump_b64: None, keylog: None }
    }
}

impl Default for Evidence {
    fn default() -> (res: Self)
        ensures
            res.bytes_sent == 0,
            res.bytes_received == 0,
            res.uds_dump_b64 is None,
            res.keylog is None,
    {
        Evidence::counts(0, 0)
    }
}

/// Free-form adapter internals surfaced in the `Diagnostics` collapsible.
#[derive(Clone, Debug)]
pub enum Diagnostics {
    /// Nothing reported.
    Null,
    /// What the Rust adapters report: the groups and signature algorithms offered.
    Offered { offered_groups: Vec<String>, offered_sig_algs: Vec<String> },
    /// Anything else an adapter sent, kept as JSON text.
    Other(String),
}

#[derive(Clone, Debug)]
pub struct ProbeResponse {
    pub adapter: String,
    pub handshake_success: bool,
    pub negotiated: Negotiated,
    pub messages: Vec<HandshakeMessage>,
    pub alert: Option<Alert>,
    pub cert_chain: Vec<Certificate>,
    pub http: Option<HttpOutcome>,
    pub failed_stage: Stage,
    pub error_summary: Option<String>,
    pub diagnostics: Diagnostics,
    pub evidence: Evidence,
    pub duration_ms: u64,
}

/// `res` is the response for a probe that never reached the wire: from `adapter`,
/// stopped at `stage`, with `error` as its summary and nothing else recorded.
pub open spec fn is_failure(res: ProbeResponse, adapter: Seq<char>, stage: Stage, error: Seq<char>) -> bool {
    &&& res.adapter@ == adapter
    &&& !res.handshake_success
    &&& res.negotiated.tls_version is None
    &&& res.negotiated.cipher_suite is None
    &&& res.negotiated.group is None
    &&& res.negotiated.cert_verify_sig_alg is None
    &&& res.messages@.len() == 0
    &&& res.alert is None
    &&& res.cert_chain@.len() == 0
    &&& res.http is None
    &&& res.failed_stage == stage
    &&& opt_view(res.error_summary) == Some(error)
    &&& res.diagnostics is Null
    &&& res.evidence.bytes_sent == 0
    &&& res.evidence.bytes_received == 0
    &&& res.evidence.uds_dump_b64 is None
    &&& res.evidence.keylog is None
    &&& res.duration_ms == 0
}

impl ProbeResponse {
    /// A response for something that never reached the wire (adapter refused the request,
    /// container unreachable, timeout in the worker).
    pub fn failure(adapter: String, stage: Stage, error: String) -> (res: Self)
        ensures
            res.adapter == adapter,
            !res.handshake_success,
            res.negotiated.tls_version is None,
            res.negotiated.cipher_suite is None,
            res.negotiated.group is None,
            res.negotiated.cert_verify_sig_alg is None,
            res.messages@.len() == 0,
            res.alert is None,
            res.cert_chain@.len() == 0,
            res.http is None,
            res.failed_stage == stage,
            res.error_summary == Some(error),
            res.diagnostics is Null,
            res.evidence.bytes_sent == 0,
            res.evidence.bytes_received == 0,
            res.evidence.uds_dump_b64 is None,
            res.evidence.keylog is None,
            res.duration_ms == 0,
    {
        ProbeResponse {
            adapter,
            handshake_success: false,
            negotiated: Negotiated::empty(),
            messages: Vec::new(),
            alert: None,
            cert_chain: Vec::new(),
            http: None,
            failed_stage: stage,
            error_summary: Some(error),
            diagnostics: Diagnostics::Null,
            evidence: Evidence::counts(0, 0),
            duration_ms: 0,
        }
    }
}

/// Advertised by each adapter so the UI can tell "this stack cannot do that algorithm"
/// (`unsupported`) from "that adapter is not deployed" (`disabled`).
#[derive(Clone, Debug)]
pub struct Capabilities {
    pub adapter: String,
    pub version: String,
    pub kem_groups: Vec<String>,
    pub sig_algs: Vec<String>,
    pub tls_versions: Vec<String>,
}

} // verus!
