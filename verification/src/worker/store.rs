//! The status decisions behind the worker's database writes.

use vstd::prelude::*;

use crate::jobs::TestEvent;
use crate::proto::ProbeResponse;
use crate::status::{ReportStatus, TaskStatus};

verus! {

/// A report is `complete` when the handshake worked or the trace shows how it failed;
/// a failure with no trace at all is `partial`.
pub fn report_status_for(response: &ProbeResponse) -> (res: ReportStatus)
    ensures
        res == if response.handshake_success {
            ReportStatus::Complete
        } else if response.messages@.len() == 0 {
            ReportStatus::Partial
        } else {
            ReportStatus::Complete
        },
{
    if response.handshake_success {
        ReportStatus::Complete
    } else if response.messages.len() == 0 {
        ReportStatus::Partial
    } else {
        ReportStatus::Complete
    }
}

/// Counts reported when a test closes.
#[derive(Clone, Copy, Debug, PartialEq, Eq, Structural)]
pub struct TestProgress {
    pub passed: i64,
    pub failed: i64,
}

/// Whether and how a test closes, from its subtask counts: it stays open while anything
/// is queued or running; it failed only when every subtask errored on the worker's side
/// (a target that fails handshakes is a finished test with red cells).
pub fn test_outcome(outstanding: i64, errored: i64, total: i64) -> (res: Option<TaskStatus>)
    ensures
        outstanding > 0 ==> res is None,
        outstanding <= 0 ==> res == Some(
            if errored == total && total > 0 {
                TaskStatus::Failed
            } else {
                TaskStatus::Finished
            },
        ),
{
    if outstanding > 0 {
        return None;
    }
    if errored == total && total > 0 {
        Some(TaskStatus::Failed)
    } else {
        Some(TaskStatus::Finished)
    }
}

/// The live event announcing a closed test; counts are sent as `u32`.
pub fn test_finished(test_id: u128, progress: TestProgress) -> (res: TestEvent)
    ensures
        res == (TestEvent::TestFinished {
            test_id,
            passed: progress.passed as u32,
            failed: progress.failed as u32,
        }),
{
    TestEvent::TestFinished {
        test_id,
        passed: progress.passed as u32,
        failed: progress.failed as u32,
    }
}

} // verus!
