//! Handling of one test subtask: what to offer, and how the outcome is recorded.

use vstd::prelude::*;

use crate::domain::classify_spec;
use crate::jobs::{ProbeJob, TestEvent};
use crate::proto::{
    default_tls_version_views, is_failure, opt_view, Capabilities, CaptureOptions, Evidence,
    ProbeRequest, ProbeResponse, Stage, Target,
};
use crate::status::{ExecStatus, ReportStatus, ResultStatus};
use crate::text::{chars_of, concat, owned, string_of, trim, trimmed, views};

verus! {

/// The handshake a subtask asks for: its one group and one signature algorithm against
/// the test's target, with raw records captured.
pub fn probe_request_for(job: &ProbeJob) -> (res: ProbeRequest)
    ensures
        res.target.host == job.host,
        res.target.port == job.port,
        res.target.sni == Some(job.host),
        res.target.http_path == Some(job.http_path),
        views(res.kem_groups@) == seq![job.group_name@],
        views(res.sig_algs@) == seq![job.sig_alg@],
        views(res.tls_versions@) == default_tls_version_views(),
        res.cipher_suites@.len() == 0,
        res.timeout_ms == job.timeout_ms,
        res.capture.raw_records,
        !res.capture.keylog,
{
    let mut request = ProbeRequest::new(
        Target {
            host: job.host.clone(),
            port: job.port,
            sni: Some(job.host.clone()),
            http_path: Some(job.http_path.clone()),
        },
    );
    let mut groups: Vec<String> = Vec::new();
    groups.push(job.group_name.clone());
    let mut sigs: Vec<String> = Vec::new();
    sigs.push(job.sig_alg.clone());
    assert(views(groups@) =~= seq![job.group_name@]);
    assert(views(sigs@) =~= seq![job.sig_alg@]);
    request.kem_groups = groups;
    request.sig_algs = sigs;
    request.timeout_ms = job.timeout_ms;
    request.capture = CaptureOptions { raw_records: true, keylog: false };
    request
}

/// The algorithms a subtask offers: its group, then its signature algorithm.
pub fn offered_for(job: &ProbeJob) -> (res: Vec<String>)
    ensures
        views(res@) == seq![job.group_name@, job.sig_alg@],
{
    let mut v: Vec<String> = Vec::new();
    v.push(job.group_name.clone());
    v.push(job.sig_alg.clone());
    assert(views(v@) =~= seq![job.group_name@, job.sig_alg@]);
    v
}

/// Why a subtask for an adapter the deployment does not run was not attempted.
pub fn disabled_reason(adapter: &str) -> (res: String)
    ensures
        res@ == "adapter "@ + adapter@ + " is not enabled in this deployment"@,
{
    let mut out = concat("adapter ", adapter);
    out.append(" is not enabled in this deployment");
    out
}

/// What the subtask row records for an adapter the deployment does not run: the worker
/// did not run it (`error`), the cell is greyed out as `disabled` rather than reported as
/// a failure of the target, no report exists, and the reason is kept.
pub fn disabled_row(adapter: &str) -> (res: (ExecStatus, ResultStatus, ReportStatus, String))
    ensures
        res.0 == ExecStatus::Error,
        res.1 == ResultStatus::Disabled,
        res.2 == ReportStatus::Missing,
        res.3@ == "adapter "@ + adapter@ + " is not enabled in this deployment"@,
{
    (ExecStatus::Error, ResultStatus::Disabled, ReportStatus::Missing, disabled_reason(adapter))
}

/// The evidence kept with a subtask's report. The raw capture is asked for on every
/// subtask but kept only when the handshake failed: failures are where it is needed, and
/// keeping it for every success would balloon the store.
pub fn stored_evidence(response: &ProbeResponse) -> (res: Evidence)
    ensures
        res.uds_dump_b64 == if response.handshake_success {
            None
        } else {
            response.evidence.uds_dump_b64
        },
        res.bytes_sent == response.evidence.bytes_sent,
        res.bytes_received == response.evidence.bytes_received,
        res.keylog == response.evidence.keylog,
{
    Evidence {
        bytes_sent: response.evidence.bytes_sent,
        bytes_received: response.evidence.bytes_received,
        uds_dump_b64: if response.handshake_success {
            None
        } else {
            response.evidence.uds_dump_b64.clone()
        },
        keylog: response.evidence.keylog.clone(),
    }
}

// ---------------------------------------------------------------------------
// Probes the adapter client could not carry out
// ---------------------------------------------------------------------------
//
// A transport problem comes back as a failed response rather than an error, so a dead
// adapter shows up as a red cell with a readable reason instead of stalling the task.

/// The adapter is not in the deployment's table.
pub fn not_configured(adapter: &str) -> (res: ProbeResponse)
    ensures
        is_failure(res, adapter@, Stage::Tcp, "adapter "@ + adapter@ + " is not configured"@),
{
    let mut m = concat("adapter ", adapter);
    m.append(" is not configured");
    ProbeResponse::failure(owned(adapter), Stage::Tcp, m)
}

/// The adapter could not be reached; `error` is the transport's reason.
pub fn adapter_unreachable(adapter: &str, error: &str) -> (res: ProbeResponse)
    ensures
        is_failure(res, adapter@, Stage::Tcp, "adapter unreachable: "@ + error@),
{
    ProbeResponse::failure(owned(adapter), Stage::Tcp, concat("adapter unreachable: ", error))
}

/// The adapter answered with a non-success HTTP status (`status`, as printed) and `body`.
pub fn adapter_refused(adapter: &str, status: &str, body: &str) -> (res: ProbeResponse)
    ensures
        is_failure(
            res,
            adapter@,
            Stage::Tcp,
            "adapter returned "@ + status@ + ": "@ + trim(body@),
        ),
{
    let mut m = concat("adapter returned ", status);
    m.append(": ");
    let t = string_of(&trimmed(&chars_of(body)));
    m.append(t.as_str());
    ProbeResponse::failure(owned(adapter), Stage::Tcp, m)
}

/// The adapter's report could not be read; `error` is the decoder's reason.
pub fn unreadable_report(adapter: &str, error: &str) -> (res: ProbeResponse)
    ensures
        is_failure(res, adapter@, Stage::Tcp, "adapter sent an unreadable report: "@ + error@),
{
    ProbeResponse::failure(
        owned(adapter),
        Stage::Tcp,
        concat("adapter sent an unreadable report: ", error),
    )
}

/// The status of a probed subtask: classified against the adapter's capabilities, or,
/// when those could not be fetched, passed or failed by the handshake alone.
pub fn subtask_result(response: &ProbeResponse, offered: &[String], capabilities: Option<&Capabilities>) -> (res:
    ResultStatus)
    ensures
        match capabilities {
            Some(caps) => res == classify_spec(response.handshake_success, views(offered@), *caps),
            None => res == if response.handshake_success {
                ResultStatus::Passed
            } else {
                ResultStatus::Failed
            },
        },
{
    match capabilities {
        Some(caps) => crate::domain::classify(response, offered, caps),
        None => if response.handshake_success {
            ResultStatus::Passed
        } else {
            ResultStatus::Failed
        },
    }
}

/// The live event announcing a subtask's new state.
pub fn subtask_updated(job: &ProbeJob, exec_status: ExecStatus, result_status: ResultStatus) -> (res:
    TestEvent)
    ensures
        res == (TestEvent::SubtaskUpdated {
            subtask_id: job.subtask_id,
            exec_status,
            result_status,
            group_name: job.group_name,
            sig_alg: job.sig_alg,
        }),
{
    TestEvent::SubtaskUpdated {
        subtask_id: job.subtask_id,
        exec_status,
        result_status,
        group_name: job.group_name.clone(),
        sig_alg: job.sig_alg.clone(),
    }
}

} // verus!
