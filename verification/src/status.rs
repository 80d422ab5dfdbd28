//! Status vocabularies shared by the API, the worker and the UI. Each value has one
//! wire spelling (snake_case); `as_str` writes it and `from_wire` reads it back.

use vstd::prelude::*;

use crate::text::{concat, str_eq};

verus! {
/// Lifecycle of a whole test task (the chip next to the host:port heading).
#[derive(Clone, Copy, Debug, PartialEq, Eq, Hash, Structural)]
pub enum TaskStatus {
    Pending,
    Running,
    Finished,
    Failed,
    Cancelled,
}

impl TaskStatus {
    /// The wire spelling of this value.
    pub open spec fn wire(self) -> Seq<char> {
        match self {
            TaskStatus::Pending => "pending"@,
            TaskStatus::Running => "running"@,
            TaskStatus::Finished => "finished"@,
            TaskStatus::Failed => "failed"@,
            TaskStatus::Cancelled => "cancelled"@,
        }
    }

    /// The value whose wire spelling is `s`, if any.
    pub open spec fn parse_wire(s: Seq<char>) -> Option<Self> {
        if s == "pending"@ {
            Some(TaskStatus::Pending)
        } else if s == "running"@ {
            Some(TaskStatus::Running)
        } else if s == "finished"@ {
            Some(TaskStatus::Finished)
        } else if s == "failed"@ {
            Some(TaskStatus::Failed)
        } else if s == "cancelled"@ {
            Some(TaskStatus::Cancelled)
        } else {
            None
        }
    }

    pub fn as_str(self) -> (res: &'static str)
        ensures
            res@ == self.wire(),
    {
        match self {
            TaskStatus::Pending => "pending",
            TaskStatus::Running => "running",
            TaskStatus::Finished => "finished",
            TaskStatus::Failed => "failed",
            TaskStatus::Cancelled => "cancelled",
        }
    }

    /// Reads a wire spelling; anything else is refused with `unknown TaskStatus: <input>`.
    pub fn from_wire(s: &str) -> (res: Result<Self, String>)
        ensures
            match res {
                Ok(v) => Self::parse_wire(s@) == Some(v),
                Err(e) => Self::parse_wire(s@) is None && e@ == "unknown TaskStatus: "@ + s@,
            },
    {
        if str_eq(s, "pending") {
            Ok(TaskStatus::Pending)
        } else if str_eq(s, "running") {
            Ok(TaskStatus::Running)
        } else if str_eq(s, "finished") {
            Ok(TaskStatus::Finished)
        } else if str_eq(s, "failed") {
            Ok(TaskStatus::Failed)
        } else if str_eq(s, "cancelled") {
            Ok(TaskStatus::Cancelled)
        } else {
            Err(concat("unknown TaskStatus: ", s))
        }
    }

    /// A spelling that reads as a value is that value's spelling.
    pub proof fn lemma_parse_is_wire(s: Seq<char>)
        ensures
            Self::parse_wire(s) matches Some(v) ==> v.wire() == s,
    {
    }

    /// Reading back what `as_str` wrote gives the same value.
    pub proof fn lemma_wire_round_trip(v: Self)
        ensures
            Self::parse_wire(v.wire()) == Some(v),
    {
        reveal_strlit("pending");
        reveal_strlit("running");
        reveal_strlit("finished");
        reveal_strlit("failed");
        reveal_strlit("cancelled");
        assert("pending"@[0] != "running"@[0]);
        assert("pending"@.len() != "finished"@.len());
        assert("pending"@.len() != "failed"@.len());
        assert("pending"@.len() != "cancelled"@.len());
        assert("running"@.len() != "finished"@.len());
        assert("running"@.len() != "failed"@.len());
        assert("running"@.len() != "cancelled"@.len());
        assert("finished"@.len() != "failed"@.len());
        assert("finished"@.len() != "cancelled"@.len());
        assert("failed"@.len() != "cancelled"@.len());
    }
}

impl std::str::FromStr for TaskStatus {
    type Err = String;

    fn from_str(s: &str) -> (res: Result<Self, String>)
        ensures
            match res {
                Ok(v) => Self::parse_wire(s@) == Some(v),
                Err(e) => Self::parse_wire(s@) is None && e@ == "unknown TaskStatus: "@ + s@,
            },
    {
        Self::from_wire(s)
    }
}

/// Did the subtask get to run at all.
#[derive(Clone, Copy, Debug, PartialEq, Eq, Hash, Structural)]
pub enum ExecStatus {
    Queued,
    Running,
    Finished,
    Error,
}

impl ExecStatus {
    /// The wire spelling of this value.
    pub open spec fn wire(self) -> Seq<char> {
        match self {
            ExecStatus::Queued => "queued"@,
            ExecStatus::Running => "running"@,
            ExecStatus::Finished => "finished"@,
            ExecStatus::Error => "error"@,
        }
    }

    /// The value whose wire spelling is `s`, if any.
    pub open spec fn parse_wire(s: Seq<char>) -> Option<Self> {
        if s == "queued"@ {
            Some(ExecStatus::Queued)
        } else if s == "running"@ {
            Some(ExecStatus::Running)
        } else if s == "finished"@ {
            Some(ExecStatus::Finished)
        } else if s == "error"@ {
            Some(ExecStatus::Error)
        } else {
            None
        }
    }

    pub fn as_str(self) -> (res: &'static str)
        ensures
            res@ == self.wire(),
    {
        match self {
            ExecStatus::Queued => "queued",
            ExecStatus::Running => "running",
            ExecStatus::Finished => "finished",
            ExecStatus::Error => "error",
        }
    }

    /// Reads a wire spelling; anything else is refused with `unknown ExecStatus: <input>`.
    pub fn from_wire(s: &str) -> (res: Result<Self, String>)
        ensures
            match res {
                Ok(v) => Self::parse_wire(s@) == Some(v),
                Err(e) => Self::parse_wire(s@) is None && e@ == "unknown ExecStatus: "@ + s@,
            },
    {
        if str_eq(s, "queued") {
            Ok(ExecStatus::Queued)
        } else if str_eq(s, "running") {
            Ok(ExecStatus::Running)
        } else if str_eq(s, "finished") {
            Ok(ExecStatus::Finished)
        } else if str_eq(s, "error") {
            Ok(ExecStatus::Error)
        } else {
            Err(concat("unknown ExecStatus: ", s))
        }
    }

    /// A spelling that reads as a value is that value's spelling.
    pub proof fn lemma_parse_is_wire(s: Seq<char>)
        ensures
            Self::parse_wire(s) matches Some(v) ==> v.wire() == s,
    {
    }

    /// Reading back what `as_str` wrote gives the same value.
    pub proof fn lemma_wire_round_trip(v: Self)
        ensures
            Self::parse_wire(v.wire()) == Some(v),
    {
        reveal_strlit("queued");
        reveal_strlit("running");
        reveal_strlit("finished");
        reveal_strlit("error");
        assert("queued"@.len() != "running"@.len());
        assert("queued"@.len() != "finished"@.len());
        assert("queued"@.len() != "error"@.len());
        assert("running"@.len() != "finished"@.len());
        assert("running"@.len() != "error"@.len());
        assert("finished"@.len() != "error"@.len());
    }
}

impl std::str::FromStr for ExecStatus {
    type Err = String;

    fn from_str(s: &str) -> (res: Result<Self, String>)
        ensures
            match res {
                Ok(v) => Self::parse_wire(s@) == Some(v),
                Err(e) => Self::parse_wire(s@) is None && e@ == "unknown ExecStatus: "@ + s@,
            },
    {
        Self::from_wire(s)
    }
}

/// Did the thing under test behave. Drives the matrix cell colour.
#[derive(Clone, Copy, Debug, PartialEq, Eq, Hash, Structural)]
pub enum ResultStatus {
    Pending,
    Passed,
    Failed,
    Unsupported,
    Disabled,
}

impl ResultStatus {
    /// The wire spelling of this value.
    pub open spec fn wire(self) -> Seq<char> {
        match self {
            ResultStatus::Pending => "pending"@,
            ResultStatus::Passed => "passed"@,
            ResultStatus::Failed => "failed"@,
            ResultStatus::Unsupported => "unsupported"@,
            ResultStatus::Disabled => "disabled"@,
        }
    }

    /// The value whose wire spelling is `s`, if any.
    pub open spec fn parse_wire(s: Seq<char>) -> Option<Self> {
        if s == "pending"@ {
            Some(ResultStatus::Pending)
        } else if s == "passed"@ {
            Some(ResultStatus::Passed)
        } else if s == "failed"@ {
            Some(ResultStatus::Failed)
        } else if s == "unsupported"@ {
            Some(ResultStatus::Unsupported)
        } else if s == "disabled"@ {
            Some(ResultStatus::Disabled)
        } else {
            None
        }
    }

    pub fn as_str(self) -> (res: &'static str)
        ensures
            res@ == self.wire(),
    {
        match self {
            ResultStatus::Pending => "pending",
            ResultStatus::Passed => "passed",
            ResultStatus::Failed => "failed",
            ResultStatus::Unsupported => "unsupported",
            ResultStatus::Disabled => "disabled",
        }
    }

    /// Reads a wire spelling; anything else is refused with `unknown ResultStatus: <input>`.
    pub fn from_wire(s: &str) -> (res: Result<Self, String>)
        ensures
            match res {
                Ok(v) => Self::parse_wire(s@) == Some(v),
                Err(e) => Self::parse_wire(s@) is None && e@ == "unknown ResultStatus: "@ + s@,
            },
    {
        if str_eq(s, "pending") {
            Ok(ResultStatus::Pending)
        } else if str_eq(s, "passed") {
            Ok(ResultStatus::Passed)
        } else if str_eq(s, "failed") {
            Ok(ResultStatus::Failed)
        } else if str_eq(s, "unsupported") {
            Ok(ResultStatus::Unsupported)
        } else if str_eq(s, "disabled") {
            Ok(ResultStatus::Disabled)
        } else {
            Err(concat("unknown ResultStatus: ", s))
        }
    }

    /// A spelling that reads as a value is that value's spelling.
    pub proof fn lemma_parse_is_wire(s: Seq<char>)
        ensures
            Self::parse_wire(s) matches Some(v) ==> v.wire() == s,
    {
    }

    /// Reading back what `as_str` wrote gives the same value.
    pub proof fn lemma_wire_round_trip(v: Self)
        ensures
            Self::parse_wire(v.wire()) == Some(v),
    {
        reveal_strlit("pending");
        reveal_strlit("passed");
        reveal_strlit("failed");
        reveal_strlit("unsupported");
        reveal_strlit("disabled");
        assert("pending"@.len() != "passed"@.len());
        assert("pending"@.len() != "failed"@.len());
        assert("pending"@.len() != "unsupported"@.len());
        assert("pending"@.len() != "disabled"@.len());
        assert("passed"@[0] != "failed"@[0]);
        assert("passed"@.len() != "unsupported"@.len());
        assert("passed"@.len() != "disabled"@.len());
        assert("failed"@.len() != "unsupported"@.len());
        assert("failed"@.len() != "disabled"@.len());
        assert("unsupported"@.len() != "disabled"@.len());
    }
}

impl std::str::FromStr for ResultStatus {
    type Err = String;

    fn from_str(s: &str) -> (res: Result<Self, String>)
        ensures
            match res {
                Ok(v) => Self::parse_wire(s@) == Some(v),
                Err(e) => Self::parse_wire(s@) is None && e@ == "unknown ResultStatus: "@ + s@,
            },
    {
        Self::from_wire(s)
    }
}

/// Whether a full report blob was captured for the subtask.
#[derive(Clone, Copy, Debug, PartialEq, Eq, Hash, Structural)]
pub enum ReportStatus {
    Missing,
    Partial,
    Complete,
}

impl ReportStatus {
    /// The wire spelling of this value.
    pub open spec fn wire(self) -> Seq<char> {
        match self {
            ReportStatus::Missing => "missing"@,
            ReportStatus::Partial => "partial"@,
            ReportStatus::Complete => "complete"@,
        }
    }

    /// The value whose wire spelling is `s`, if any.
    pub open spec fn parse_wire(s: Seq<char>) -> Option<Self> {
        if s == "missing"@ {
            Some(ReportStatus::Missing)
        } else if s == "partial"@ {
            Some(ReportStatus::Partial)
        } else if s == "complete"@ {
            Some(ReportStatus::Complete)
        } else {
            None
        }
    }

    pub fn as_str(self) -> (res: &'static str)
        ensures
            res@ == self.wire(),
    {
        match self {
            ReportStatus::Missing => "missing",
            ReportStatus::Partial => "partial",
            ReportStatus::Complete => "complete",
        }
    }

    /// Reads a wire spelling; anything else is refused with `unknown ReportStatus: <input>`.
    pub fn from_wire(s: &str) -> (res: Result<Self, String>)
        ensures
            match res {
                Ok(v) => Self::parse_wire(s@) == Some(v),
                Err(e) => Self::parse_wire(s@) is None && e@ == "unknown ReportStatus: "@ + s@,
            },
    {
        if str_eq(s, "missing") {
            Ok(ReportStatus::Missing)
        } else if str_eq(s, "partial") {
            Ok(ReportStatus::Partial)
        } else if str_eq(s, "complete") {
            Ok(ReportStatus::Complete)
        } else {
            Err(concat("unknown ReportStatus: ", s))
        }
    }

    /// A spelling that reads as a value is that value's spelling.
    pub proof fn lemma_parse_is_wire(s: Seq<char>)
        ensures
            Self::parse_wire(s) matches Some(v) ==> v.wire() == s,
    {
    }

    /// Reading back what `as_str` wrote gives the same value.
    pub proof fn lemma_wire_round_trip(v: Self)
        ensures
            Self::parse_wire(v.wire()) == Some(v),
    {
        reveal_strlit("missing");
        reveal_strlit("partial");
        reveal_strlit("complete");
        assert("missing"@[0] != "partial"@[0]);
        assert("missing"@.len() != "complete"@.len());
        assert("partial"@.len() != "complete"@.len());
    }
}

impl std::str::FromStr for ReportStatus {
    type Err = String;

    fn from_str(s: &str) -> (res: Result<Self, String>)
        ensures
            match res {
                Ok(v) => Self::parse_wire(s@) == Some(v),
                Err(e) => Self::parse_wire(s@) is None && e@ == "unknown ReportStatus: "@ + s@,
            },
    {
        Self::from_wire(s)
    }
}

/// Which flavour of KEM DEMO run this is.
#[derive(Clone, Copy, Debug, PartialEq, Eq, Hash, Structural)]
pub enum KemRunMode {
    LibraryCompat,
    GroupCompat,
    Priority,
}

impl KemRunMode {
    /// The wire spelling of this value.
    pub open spec fn wire(self) -> Seq<char> {
        match self {
            KemRunMode::LibraryCompat => "library_compat"@,
            KemRunMode::GroupCompat => "group_compat"@,
            KemRunMode::Priority => "priority"@,
        }
    }

    /// The value whose wire spelling is `s`, if any.
    pub open spec fn parse_wire(s: Seq<char>) -> Option<Self> {
        if s == "library_compat"@ {
            Some(KemRunMode::LibraryCompat)
        } else if s == "group_compat"@ {
            Some(KemRunMode::GroupCompat)
        } else if s == "priority"@ {
            Some(KemRunMode::Priority)
        } else {
            None
        }
    }

    pub fn as_str(self) -> (res: &'static str)
        ensures
            res@ == self.wire(),
    {
        match self {
            KemRunMode::LibraryCompat => "library_compat",
            KemRunMode::GroupCompat => "group_compat",
            KemRunMode::Priority => "priority",
        }
    }

    /// Reads a wire spelling; anything else is refused with `unknown KemRunMode: <input>`.
    pub fn from_wire(s: &str) -> (res: Result<Self, String>)
        ensures
            match res {
                Ok(v) => Self::parse_wire(s@) == Some(v),
                Err(e) => Self::parse_wire(s@) is None && e@ == "unknown KemRunMode: "@ + s@,
            },
    {
        if str_eq(s, "library_compat") {
            Ok(KemRunMode::LibraryCompat)
        } else if str_eq(s, "group_compat") {
            Ok(KemRunMode::GroupCompat)
        } else if str_eq(s, "priority") {
            Ok(KemRunMode::Priority)
        } else {
            Err(concat("unknown KemRunMode: ", s))
        }
    }

    /// A spelling that reads as a value is that value's spelling.
    pub proof fn lemma_parse_is_wire(s: Seq<char>)
        ensures
            Self::parse_wire(s) matches Some(v) ==> v.wire() == s,
    {
    }

    /// Reading back what `as_str` wrote gives the same value.
    pub proof fn lemma_wire_round_trip(v: Self)
        ensures
            Self::parse_wire(v.wire()) == Some(v),
    {
        reveal_strlit("library_compat");
        reveal_strlit("group_compat");
        reveal_strlit("priority");
        assert("library_compat"@.len() != "group_compat"@.len());
        assert("library_compat"@.len() != "priority"@.len());
        assert("group_compat"@.len() != "priority"@.len());
    }
}

impl std::str::FromStr for KemRunMode {
    type Err = String;

    fn from_str(s: &str) -> (res: Result<Self, String>)
        ensures
            match res {
                Ok(v) => Self::parse_wire(s@) == Some(v),
                Err(e) => Self::parse_wire(s@) is None && e@ == "unknown KemRunMode: "@ + s@,
            },
    {
        Self::from_wire(s)
    }
}

/// ACVP capability under exercise in the CAVP module.
#[derive(Clone, Copy, Debug, PartialEq, Eq, Hash, Structural)]
pub enum Capability {
    KeyGen,
    SigGen,
    SigVer,
}

impl Capability {
    /// The wire spelling of this value.
    pub open spec fn wire(self) -> Seq<char> {
        match self {
            Capability::KeyGen => "key_gen"@,
            Capability::SigGen => "sig_gen"@,
            Capability::SigVer => "sig_ver"@,
        }
    }

    /// The value whose wire spelling is `s`, if any.
    pub open spec fn parse_wire(s: Seq<char>) -> Option<Self> {
        if s == "key_gen"@ {
            Some(Capability::KeyGen)
        } else if s == "sig_gen"@ {
            Some(Capability::SigGen)
        } else if s == "sig_ver"@ {
            Some(Capability::SigVer)
        } else {
            None
        }
    }

    pub fn as_str(self) -> (res: &'static str)
        ensures
            res@ == self.wire(),
    {
        match self {
            Capability::KeyGen => "key_gen",
            Capability::SigGen => "sig_gen",
            Capability::SigVer => "sig_ver",
        }
    }

    /// Reads a wire spelling; anything else is refused with `unknown Capability: <input>`.
    pub fn from_wire(s: &str) -> (res: Result<Self, String>)
        ensures
            match res {
                Ok(v) => Self::parse_wire(s@) == Some(v),
                Err(e) => Self::parse_wire(s@) is None && e@ == "unknown Capability: "@ + s@,
            },
    {
        if str_eq(s, "key_gen") {
            Ok(Capability::KeyGen)
        } else if str_eq(s, "sig_gen") {
            Ok(Capability::SigGen)
        } else if str_eq(s, "sig_ver") {
            Ok(Capability::SigVer)
        } else {
            Err(concat("unknown Capability: ", s))
        }
    }

    /// A spelling that reads as a value is that value's spelling.
    pub proof fn lemma_parse_is_wire(s: Seq<char>)
        ensures
            Self::parse_wire(s) matches Some(v) ==> v.wire() == s,
    {
    }

    /// Reading back what `as_str` wrote gives the same value.
    pub proof fn lemma_wire_round_trip(v: Self)
        ensures
            Self::parse_wire(v.wire()) == Some(v),
    {
        reveal_strlit("key_gen");
        reveal_strlit("sig_gen");
        reveal_strlit("sig_ver");
        assert("key_gen"@[0] != "sig_gen"@[0]);
        assert("key_gen"@[0] != "sig_ver"@[0]);
        assert("sig_gen"@[4] != "sig_ver"@[4]);
    }
}

impl std::str::FromStr for Capability {
    type Err = String;

    fn from_str(s: &str) -> (res: Result<Self, String>)
        ensures
            match res {
                Ok(v) => Self::parse_wire(s@) == Some(v),
                Err(e) => Self::parse_wire(s@) is None && e@ == "unknown Capability: "@ + s@,
            },
    {
        Self::from_wire(s)
    }
}

impl Capability {
    /// The spelling ACVP itself uses in `prompt.json`.
    pub open spec fn acvp(self) -> Seq<char> {
        match self {
            Capability::KeyGen => "keyGen"@,
            Capability::SigGen => "sigGen"@,
            Capability::SigVer => "sigVer"@,
        }
    }

    pub open spec fn parse_acvp(mode: Seq<char>) -> Option<Self> {
        if mode == "keyGen"@ {
            Some(Capability::KeyGen)
        } else if mode == "sigGen"@ {
            Some(Capability::SigGen)
        } else if mode == "sigVer"@ {
            Some(Capability::SigVer)
        } else {
            None
        }
    }

    /// The spelling ACVP itself uses in `prompt.json`.
    pub fn acvp_mode(self) -> (res: &'static str)
        ensures
            res@ == self.acvp(),
    {
        match self {
            Capability::KeyGen => "keyGen",
            Capability::SigGen => "sigGen",
            Capability::SigVer => "sigVer",
        }
    }

    pub fn from_acvp_mode(mode: &str) -> (res: Option<Self>)
        ensures
            res == Self::parse_acvp(mode@),
    {
        if str_eq(mode, "keyGen") {
            Some(Capability::KeyGen)
        } else if str_eq(mode, "sigGen") {
            Some(Capability::SigGen)
        } else if str_eq(mode, "sigVer") {
            Some(Capability::SigVer)
        } else {
            None
        }
    }

    /// An ACVP spelling that reads as a capability is that capability's spelling.
    pub proof fn lemma_parse_acvp_is_acvp(mode: Seq<char>)
        ensures
            Self::parse_acvp(mode) matches Some(c) ==> c.acvp() == mode,
    {
    }

    /// Reading back the ACVP spelling gives the same capability.
    pub proof fn lemma_acvp_round_trip(c: Self)
        ensures
            Self::parse_acvp(c.acvp()) == Some(c),
    {
        reveal_strlit("keyGen");
        reveal_strlit("sigGen");
        reveal_strlit("sigVer");
        assert("keyGen"@[0] != "sigGen"@[0]);
        assert("keyGen"@[0] != "sigVer"@[0]);
        assert("sigGen"@[3] != "sigVer"@[3]);
    }
}

} // verus!
