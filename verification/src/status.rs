//! Status model: three disjoint enumerations for pipelines, builds and
//! steps, each with a stable integer encoding (the wire contract) and a
//! canonical lowercase string form (the storage contract). Both encodings
//! round-trip; a parser maps unknown inputs to the `Unspecified` sentinel.

use vstd::prelude::*;
use crate::util::str_eq;

verus! {

#[derive(Clone, Copy, Debug, PartialEq, Eq, Structural)]
pub enum PipelineStatus {
    Unspecified,
    Pending,
    Running,
    Completed,
    Failed,
}

#[derive(Clone, Copy, Debug, PartialEq, Eq, Structural)]
pub enum BuildStatus {
    Unspecified,
    Pending,
    Running,
    Success,
    Failed,
    Cancelled,
    TimedOut,
}

#[derive(Clone, Copy, Debug, PartialEq, Eq, Structural)]
pub enum StepStatus {
    Unspecified,
    Pending,
    Running,
    Success,
    Failed,
    Cancelled,
    TimedOut,
    Skipped,
}

impl PipelineStatus {
    pub open spec fn spec_code(self) -> i32 {
        match self {
            PipelineStatus::Unspecified => 0,
            PipelineStatus::Pending => 1,
            PipelineStatus::Running => 2,
            PipelineStatus::Completed => 3,
            PipelineStatus::Failed => 4,
        }
    }

    pub open spec fn spec_from_code(code: i32) -> PipelineStatus {
        if code == 1 {
            PipelineStatus::Pending
        } else if code == 2 {
            PipelineStatus::Running
        } else if code == 3 {
            PipelineStatus::Completed
        } else if code == 4 {
            PipelineStatus::Failed
        } else {
            PipelineStatus::Unspecified
        }
    }

    pub open spec fn spec_str(self) -> Seq<char> {
        match self {
            PipelineStatus::Unspecified => "unspecified"@,
            PipelineStatus::Pending => "pending"@,
            PipelineStatus::Running => "running"@,
            PipelineStatus::Completed => "completed"@,
            PipelineStatus::Failed => "failed"@,
        }
    }

    /// The stable integer encoding used on the wire.
    pub fn code(&self) -> (r: i32)
        ensures
            r == self.spec_code(),
    {
        match self {
            PipelineStatus::Unspecified => 0,
            PipelineStatus::Pending => 1,
            PipelineStatus::Running => 2,
            PipelineStatus::Completed => 3,
            PipelineStatus::Failed => 4,
        }
    }

    /// Decodes an integer; anything outside the known range is `Unspecified`.
    pub fn from_code(code: i32) -> (r: PipelineStatus)
        ensures
            r == PipelineStatus::spec_from_code(code),
    {
        if code == 1 {
            PipelineStatus::Pending
        } else if code == 2 {
            PipelineStatus::Running
        } else if code == 3 {
            PipelineStatus::Completed
        } else if code == 4 {
            PipelineStatus::Failed
        } else {
            PipelineStatus::Unspecified
        }
    }

    /// The canonical lowercase string form used by the store.
    pub fn as_str(&self) -> (r: &'static str)
        ensures
            r@ == self.spec_str(),
    {
        match self {
            PipelineStatus::Unspecified => "unspecified",
            PipelineStatus::Pending => "pending",
            PipelineStatus::Running => "running",
            PipelineStatus::Completed => "completed",
            PipelineStatus::Failed => "failed",
        }
    }

    pub open spec fn spec_parse(s: Seq<char>) -> PipelineStatus {
        if s == "pending"@ {
            PipelineStatus::Pending
        } else if s == "running"@ {
            PipelineStatus::Running
        } else if s == "completed"@ {
            PipelineStatus::Completed
        } else if s == "failed"@ {
            PipelineStatus::Failed
        } else {
            PipelineStatus::Unspecified
        }
    }

    /// Parses a canonical string form; unknown strings give `Unspecified`.
    pub fn parse(s: &str) -> (r: PipelineStatus)
        ensures
            r == PipelineStatus::spec_parse(s@),
    {
        if str_eq(s, "pending") {
            PipelineStatus::Pending
        } else if str_eq(s, "running") {
            PipelineStatus::Running
        } else if str_eq(s, "completed") {
            PipelineStatus::Completed
        } else if str_eq(s, "failed") {
            PipelineStatus::Failed
        } else {
            PipelineStatus::Unspecified
        }
    }
}

impl BuildStatus {
    pub open spec fn spec_code(self) -> i32 {
        match self {
            BuildStatus::Unspecified => 0,
            BuildStatus::Pending => 1,
            BuildStatus::Running => 2,
            BuildStatus::Success => 3,
            BuildStatus::Failed => 4,
            BuildStatus::Cancelled => 5,
            BuildStatus::TimedOut => 6,
        }
    }

    pub open spec fn spec_from_code(code: i32) -> BuildStatus {
        if code == 1 {
            BuildStatus::Pending
        } else if code == 2 {
            BuildStatus::Running
        } else if code == 3 {
            BuildStatus::Success
        } else if code == 4 {
            BuildStatus::Failed
        } else if code == 5 {
            BuildStatus::Cancelled
        } else if code == 6 {
            BuildStatus::TimedOut
        } else {
            BuildStatus::Unspecified
        }
    }

    pub open spec fn spec_str(self) -> Seq<char> {
        match self {
            BuildStatus::Unspecified => "unspecified"@,
            BuildStatus::Pending => "pending"@,
            BuildStatus::Running => "running"@,
            BuildStatus::Success => "success"@,
            BuildStatus::Failed => "failed"@,
            BuildStatus::Cancelled => "cancelled"@,
            BuildStatus::TimedOut => "timedout"@,
        }
    }

    /// A build status from which no further transition is permitted.
    pub open spec fn spec_is_terminal(self) -> bool {
        match self {
            BuildStatus::Success => true,
            BuildStatus::Failed => true,
            BuildStatus::Cancelled => true,
            BuildStatus::TimedOut => true,
            _ => false,
        }
    }

    pub fn is_terminal(&self) -> (r: bool)
        ensures
            r == self.spec_is_terminal(),
    {
        match self {
            BuildStatus::Success => true,
            BuildStatus::Failed => true,
            BuildStatus::Cancelled => true,
            BuildStatus::TimedOut => true,
            _ => false,
        }
    }

    /// The stable integer encoding used on the wire.
    pub fn code(&self) -> (r: i32)
        ensures
            r == self.spec_code(),
    {
        match self {
            BuildStatus::Unspecified => 0,
            BuildStatus::Pending => 1,
            BuildStatus::Running => 2,
            BuildStatus::Success => 3,
            BuildStatus::Failed => 4,
            BuildStatus::Cancelled => 5,
            BuildStatus::TimedOut => 6,
        }
    }

    /// Decodes an integer; anything outside the known range is `Unspecified`.
    pub fn from_code(code: i32) -> (r: BuildStatus)
        ensures
            r == BuildStatus::spec_from_code(code),
    {
        if code == 1 {
            BuildStatus::Pending
        } else if code == 2 {
            BuildStatus::Running
        } else if code == 3 {
            BuildStatus::Success
        } else if code == 4 {
            BuildStatus::Failed
        } else if code == 5 {
            BuildStatus::Cancelled
        } else if code == 6 {
            BuildStatus::TimedOut
        } else {
            BuildStatus::Unspecified
        }
    }

    /// The canonical lowercase string form used by the store.
    pub fn as_str(&self) -> (r: &'static str)
        ensures
            r@ == self.spec_str(),
    {
        match self {
            BuildStatus::Unspecified => "unspecified",
            BuildStatus::Pending => "pending",
            BuildStatus::Running => "running",
            BuildStatus::Success => "success",
            BuildStatus::Failed => "failed",
            BuildStatus::Cancelled => "cancelled",
            BuildStatus::TimedOut => "timedout",
        }
    }

    pub open spec fn spec_parse(s: Seq<char>) -> BuildStatus {
        if s == "pending"@ {
            BuildStatus::Pending
        } else if s == "running"@ {
            BuildStatus::Running
        } else if s == "success"@ {
            BuildStatus::Success
        } else if s == "failed"@ {
            BuildStatus::Failed
        } else if s == "cancelled"@ {
            BuildStatus::Cancelled
        } else if s == "timedout"@ {
            BuildStatus::TimedOut
        } else {
            BuildStatus::Unspecified
        }
    }

    /// Parses a canonical string form; unknown strings give `Unspecified`.
    pub fn parse(s: &str) -> (r: BuildStatus)
        ensures
            r == BuildStatus::spec_parse(s@),
    {
        if str_eq(s, "pending") {
            BuildStatus::Pending
        } else if str_eq(s, "running") {
            BuildStatus::Running
        } else if str_eq(s, "success") {
            BuildStatus::Success
        } else if str_eq(s, "failed") {
            BuildStatus::Failed
        } else if str_eq(s, "cancelled") {
            BuildStatus::Cancelled
        } else if str_eq(s, "timedout") {
            BuildStatus::TimedOut
        } else {
            BuildStatus::Unspecified
        }
    }
}

impl StepStatus {
    pub open spec fn spec_code(self) -> i32 {
        match self {
            StepStatus::Unspecified => 0,
            StepStatus::Pending => 1,
            StepStatus::Running => 2,
            StepStatus::Success => 3,
            StepStatus::Failed => 4,
            StepStatus::Cancelled => 5,
            StepStatus::TimedOut => 6,
            StepStatus::Skipped => 7,
        }
    }

    pub open spec fn spec_from_code(code: i32) -> StepStatus {
        if code == 1 {
            StepStatus::Pending
        } else if code == 2 {
            StepStatus::Running
        } else if code == 3 {
            StepStatus::Success
        } else if code == 4 {
            StepStatus::Failed
        } else if code == 5 {
            StepStatus::Cancelled
        } else if code == 6 {
            StepStatus::TimedOut
        } else if code == 7 {
            StepStatus::Skipped
        } else {
            StepStatus::Unspecified
        }
    }

    pub open spec fn spec_str(self) -> Seq<char> {
        match self {
            StepStatus::Unspecified => "unspecified"@,
            StepStatus::Pending => "pending"@,
            StepStatus::Running => "running"@,
            StepStatus::Success => "success"@,
            StepStatus::Failed => "failed"@,
            StepStatus::Cancelled => "cancelled"@,
            StepStatus::TimedOut => "timedout"@,
            StepStatus::Skipped => "skipped"@,
        }
    }

    /// A step status from which no further transition is permitted.
    pub open spec fn spec_is_terminal(self) -> bool {
        match self {
            StepStatus::Success => true,
            StepStatus::Failed => true,
            StepStatus::Cancelled => true,
            StepStatus::TimedOut => true,
            StepStatus::Skipped => true,
            _ => false,
        }
    }

    /// A terminal status that is not `Success`: it makes dependents
    /// unrunnable.
    pub open spec fn spec_is_non_success_terminal(self) -> bool {
        self.spec_is_terminal() && self != StepStatus::Success
    }

    pub fn is_terminal(&self) -> (r: bool)
        ensures
            r == self.spec_is_terminal(),
    {
        match self {
            StepStatus::Success => true,
            StepStatus::Failed => true,
            StepStatus::Cancelled => true,
            StepStatus::TimedOut => true,
            StepStatus::Skipped => true,
            _ => false,
        }
    }

    /// The stable integer encoding used on the wire.
    pub fn code(&self) -> (r: i32)
        ensures
            r == self.spec_code(),
    {
        match self {
            StepStatus::Unspecified => 0,
            StepStatus::Pending => 1,
            StepStatus::Running => 2,
            StepStatus::Success => 3,
            StepStatus::Failed => 4,
            StepStatus::Cancelled => 5,
            StepStatus::TimedOut => 6,
            StepStatus::Skipped => 7,
        }
    }

    /// Decodes an integer; anything outside the known range is `Unspecified`.
    pub fn from_code(code: i32) -> (r: StepStatus)
        ensures
            r == StepStatus::spec_from_code(code),
    {
        if code == 1 {
            StepStatus::Pending
        } else if code == 2 {
            StepStatus::Running
        } else if code == 3 {
            StepStatus::Success
        } else if code == 4 {
            StepStatus::Failed
        } else if code == 5 {
            StepStatus::Cancelled
        } else if code == 6 {
            StepStatus::TimedOut
        } else if code == 7 {
            StepStatus::Skipped
        } else {
            StepStatus::Unspecified
        }
    }

    /// The canonical lowercase string form used by the store.
    pub fn as_str(&self) -> (r: &'static str)
        ensures
            r@ == self.spec_str(),
    {
        match self {
            StepStatus::Unspecified => "unspecified",
            StepStatus::Pending => "pending",
            StepStatus::Running => "running",
            StepStatus::Success => "success",
            StepStatus::Failed => "failed",
            StepStatus::Cancelled => "cancelled",
            StepStatus::TimedOut => "timedout",
            StepStatus::Skipped => "skipped",
        }
    }

    pub open spec fn spec_parse(s: Seq<char>) -> StepStatus {
        if s == "pending"@ {
            StepStatus::Pending
        } else if s == "running"@ {
            StepStatus::Running
        } else if s == "success"@ {
            StepStatus::Success
        } else if s == "failed"@ {
            StepStatus::Failed
        } else if s == "cancelled"@ {
            StepStatus::Cancelled
        } else if s == "timedout"@ {
            StepStatus::TimedOut
        } else if s == "skipped"@ {
            StepStatus::Skipped
        } else {
            StepStatus::Unspecified
        }
    }

    /// Parses a canonical string form; unknown strings give `Unspecified`.
    pub fn parse(s: &str) -> (r: StepStatus)
        ensures
            r == StepStatus::spec_parse(s@),
    {
        if str_eq(s, "pending") {
            StepStatus::Pending
        } else if str_eq(s, "running") {
            StepStatus::Running
        } else if str_eq(s, "success") {
            StepStatus::Success
        } else if str_eq(s, "failed") {
            StepStatus::Failed
        } else if str_eq(s, "cancelled") {
            StepStatus::Cancelled
        } else if str_eq(s, "timedout") {
            StepStatus::TimedOut
        } else if str_eq(s, "skipped") {
            StepStatus::Skipped
        } else {
            StepStatus::Unspecified
        }
    }
}

/// Round trip of the string encoding: for every pipeline status value,
/// parsing its canonical string form gives the value back.
pub proof fn lemma_pipeline_status_string_round_trip(s: PipelineStatus)
    ensures
        PipelineStatus::spec_parse(s.spec_str()) == s,
{
    reveal_strlit("unspecified");
    reveal_strlit("pending");
    reveal_strlit("running");
    reveal_strlit("completed");
    reveal_strlit("failed");
    assert(("running"@)[0] != ("pending"@)[0]);
    match s {
        PipelineStatus::Unspecified => {
            assert(("unspecified"@).len() == 11);
            assert(PipelineStatus::spec_parse("unspecified"@) == PipelineStatus::Unspecified);
        },
        PipelineStatus::Pending => {
            assert(PipelineStatus::spec_parse("pending"@) == PipelineStatus::Pending);
        },
        PipelineStatus::Running => {
            assert(PipelineStatus::spec_parse("running"@) == PipelineStatus::Running);
        },
        PipelineStatus::Completed => {
            assert(("completed"@).len() == 9);
            assert(PipelineStatus::spec_parse("completed"@) == PipelineStatus::Completed);
        },
        PipelineStatus::Failed => {
            assert(("failed"@).len() == 6);
            assert(PipelineStatus::spec_parse("failed"@) == PipelineStatus::Failed);
        },
    }
}

/// Round trip of the string encoding: for every build status value,
/// parsing its canonical string form gives the value back.
pub proof fn lemma_build_status_string_round_trip(s: BuildStatus)
    ensures
        BuildStatus::spec_parse(s.spec_str()) == s,
{
    reveal_strlit("unspecified");
    reveal_strlit("pending");
    reveal_strlit("running");
    reveal_strlit("success");
    reveal_strlit("failed");
    reveal_strlit("cancelled");
    reveal_strlit("timedout");
    assert(("unspecified"@).len() == 11);
    assert(("pending"@).len() == 7);
    assert(("running"@).len() == 7);
    assert(("success"@).len() == 7);
    assert(("failed"@).len() == 6);
    assert(("cancelled"@).len() == 9);
    assert(("timedout"@).len() == 8);
    assert(("running"@)[0] != ("pending"@)[0]);
    assert(("success"@)[0] != ("pending"@)[0]);
    assert(("success"@)[0] != ("running"@)[0]);
    match s {
        BuildStatus::Unspecified => {
            assert(BuildStatus::spec_parse("unspecified"@) == BuildStatus::Unspecified);
        },
        BuildStatus::Pending => {
            assert(BuildStatus::spec_parse("pending"@) == BuildStatus::Pending);
        },
        BuildStatus::Running => {
            assert(BuildStatus::spec_parse("running"@) == BuildStatus::Running);
        },
        BuildStatus::Success => {
            assert(BuildStatus::spec_parse("success"@) == BuildStatus::Success);
        },
        BuildStatus::Failed => {
            assert(BuildStatus::spec_parse("failed"@) == BuildStatus::Failed);
        },
        BuildStatus::Cancelled => {
            assert(BuildStatus::spec_parse("cancelled"@) == BuildStatus::Cancelled);
        },
        BuildStatus::TimedOut => {
            assert(BuildStatus::spec_parse("timedout"@) == BuildStatus::TimedOut);
        },
    }
}

/// Round trip of the string encoding: for every step status value,
/// parsing its canonical string form gives the value back.
pub proof fn lemma_step_status_string_round_trip(s: StepStatus)
    ensures
        StepStatus::spec_parse(s.spec_str()) == s,
{
    reveal_strlit("unspecified");
    reveal_strlit("pending");
    reveal_strlit("running");
    reveal_strlit("success");
    reveal_strlit("failed");
    reveal_strlit("cancelled");
    reveal_strlit("timedout");
    reveal_strlit("skipped");
    assert(("unspecified"@).len() == 11);
    assert(("pending"@).len() == 7);
    assert(("running"@).len() == 7);
    assert(("success"@).len() == 7);
    assert(("failed"@).len() == 6);
    assert(("cancelled"@).len() == 9);
    assert(("timedout"@).len() == 8);
    assert(("skipped"@).len() == 7);
    assert(("running"@)[0] != ("pending"@)[0]);
    assert(("success"@)[0] != ("pending"@)[0]);
    assert(("success"@)[0] != ("running"@)[0]);
    assert(("skipped"@)[0] != ("pending"@)[0]);
    assert(("skipped"@)[0] != ("running"@)[0]);
    assert(("skipped"@)[1] != ("success"@)[1]);
    match s {
        StepStatus::Unspecified => {
            assert(StepStatus::spec_parse("unspecified"@) == StepStatus::Unspecified);
        },
        StepStatus::Pending => {
            assert(StepStatus::spec_parse("pending"@) == StepStatus::Pending);
        },
        StepStatus::Running => {
            assert(StepStatus::spec_parse("running"@) == StepStatus::Running);
        },
        StepStatus::Success => {
            assert(StepStatus::spec_parse("success"@) == StepStatus::Success);
        },
        StepStatus::Failed => {
            assert(StepStatus::spec_parse("failed"@) == StepStatus::Failed);
        },
        StepStatus::Cancelled => {
            assert(StepStatus::spec_parse("cancelled"@) == StepStatus::Cancelled);
        },
        StepStatus::TimedOut => {
            assert(StepStatus::spec_parse("timedout"@) == StepStatus::TimedOut);
        },
        StepStatus::Skipped => {
            assert(StepStatus::spec_parse("skipped"@) == StepStatus::Skipped);
        },
    }
}

/// Round trip of the integer encoding, for all three enumerations.
pub proof fn lemma_status_code_round_trip(p: PipelineStatus, b: BuildStatus, s: StepStatus)
    ensures
        PipelineStatus::spec_from_code(p.spec_code()) == p,
        BuildStatus::spec_from_code(b.spec_code()) == b,
        StepStatus::spec_from_code(s.spec_code()) == s,
{
}


/// The status columns as the persistence layer's row types carry them.
/// Each mirrors its engine enumeration one for one.
#[derive(Clone, Copy, Debug, PartialEq, Eq, Structural)]
pub enum DbPipelineStatus {
    Unspecified,
    Pending,
    Running,
    Completed,
    Failed,
}

#[derive(Clone, Copy, Debug, PartialEq, Eq, Structural)]
pub enum DbBuildStatus {
    Unspecified,
    Pending,
    Running,
    Success,
    Failed,
    Cancelled,
    TimedOut,
}

#[derive(Clone, Copy, Debug, PartialEq, Eq, Structural)]
pub enum DbStepStatus {
    Unspecified,
    Pending,
    Running,
    Success,
    Failed,
    Cancelled,
    TimedOut,
    Skipped,
}

impl DbPipelineStatus {
    pub open spec fn spec_from_status(s: PipelineStatus) -> DbPipelineStatus {
        match s {
            PipelineStatus::Unspecified => DbPipelineStatus::Unspecified,
            PipelineStatus::Pending => DbPipelineStatus::Pending,
            PipelineStatus::Running => DbPipelineStatus::Running,
            PipelineStatus::Completed => DbPipelineStatus::Completed,
            PipelineStatus::Failed => DbPipelineStatus::Failed,
        }
    }

    pub fn from_status(s: PipelineStatus) -> (r: DbPipelineStatus)
        ensures
            r == DbPipelineStatus::spec_from_status(s),
    {
        match s {
            PipelineStatus::Unspecified => DbPipelineStatus::Unspecified,
            PipelineStatus::Pending => DbPipelineStatus::Pending,
            PipelineStatus::Running => DbPipelineStatus::Running,
            PipelineStatus::Completed => DbPipelineStatus::Completed,
            PipelineStatus::Failed => DbPipelineStatus::Failed,
        }
    }

    pub open spec fn spec_to_status(self) -> PipelineStatus {
        match self {
            DbPipelineStatus::Unspecified => PipelineStatus::Unspecified,
            DbPipelineStatus::Pending => PipelineStatus::Pending,
            DbPipelineStatus::Running => PipelineStatus::Running,
            DbPipelineStatus::Completed => PipelineStatus::Completed,
            DbPipelineStatus::Failed => PipelineStatus::Failed,
        }
    }

    pub fn to_status(self) -> (r: PipelineStatus)
        ensures
            r == self.spec_to_status(),
    {
        match self {
            DbPipelineStatus::Unspecified => PipelineStatus::Unspecified,
            DbPipelineStatus::Pending => PipelineStatus::Pending,
            DbPipelineStatus::Running => PipelineStatus::Running,
            DbPipelineStatus::Completed => PipelineStatus::Completed,
            DbPipelineStatus::Failed => PipelineStatus::Failed,
        }
    }
}

impl DbBuildStatus {
    pub open spec fn spec_from_status(s: BuildStatus) -> DbBuildStatus {
        match s {
            BuildStatus::Unspecified => DbBuildStatus::Unspecified,
            BuildStatus::Pending => DbBuildStatus::Pending,
            BuildStatus::Running => DbBuildStatus::Running,
            BuildStatus::Success => DbBuildStatus::Success,
            BuildStatus::Failed => DbBuildStatus::Failed,
            BuildStatus::Cancelled => DbBuildStatus::Cancelled,
            BuildStatus::TimedOut => DbBuildStatus::TimedOut,
        }
    }

    pub fn from_status(s: BuildStatus) -> (r: DbBuildStatus)
        ensures
            r == DbBuildStatus::spec_from_status(s),
    {
        match s {
            BuildStatus::Unspecified => DbBuildStatus::Unspecified,
            BuildStatus::Pending => DbBuildStatus::Pending,
            BuildStatus::Running => DbBuildStatus::Running,
            BuildStatus::Success => DbBuildStatus::Success,
            BuildStatus::Failed => DbBuildStatus::Failed,
            BuildStatus::Cancelled => DbBuildStatus::Cancelled,
            BuildStatus::TimedOut => DbBuildStatus::TimedOut,
        }
    }

    pub open spec fn spec_to_status(self) -> BuildStatus {
        match self {
            DbBuildStatus::Unspecified => BuildStatus::Unspecified,
            DbBuildStatus::Pending => BuildStatus::Pending,
            DbBuildStatus::Running => BuildStatus::Running,
            DbBuildStatus::Success => BuildStatus::Success,
            DbBuildStatus::Failed => BuildStatus::Failed,
            DbBuildStatus::Cancelled => BuildStatus::Cancelled,
            DbBuildStatus::TimedOut => BuildStatus::TimedOut,
        }
    }

    pub fn to_status(self) -> (r: BuildStatus)
        ensures
            r == self.spec_to_status(),
    {
        match self {
            DbBuildStatus::Unspecified => BuildStatus::Unspecified,
            DbBuildStatus::Pending => BuildStatus::Pending,
            DbBuildStatus::Running => BuildStatus::Running,
            DbBuildStatus::Success => BuildStatus::Success,
            DbBuildStatus::Failed => BuildStatus::Failed,
            DbBuildStatus::Cancelled => BuildStatus::Cancelled,
            DbBuildStatus::TimedOut => BuildStatus::TimedOut,
        }
    }
}

impl DbStepStatus {
    pub open spec fn spec_from_status(s: StepStatus) -> DbStepStatus {
        match s {
            StepStatus::Unspecified => DbStepStatus::Unspecified,
            StepStatus::Pending => DbStepStatus::Pending,
            StepStatus::Running => DbStepStatus::Running,
            StepStatus::Success => DbStepStatus::Success,
            StepStatus::Failed => DbStepStatus::Failed,
            StepStatus::Cancelled => DbStepStatus::Cancelled,
            StepStatus::TimedOut => DbStepStatus::TimedOut,
            StepStatus::Skipped => DbStepStatus::Skipped,
        }
    }

    pub fn from_status(s: StepStatus) -> (r: DbStepStatus)
        ensures
            r == DbStepStatus::spec_from_status(s),
    {
        match s {
            StepStatus::Unspecified => DbStepStatus::Unspecified,
            StepStatus::Pending => DbStepStatus::Pending,
            StepStatus::Running => DbStepStatus::Running,
            StepStatus::Success => DbStepStatus::Success,
            StepStatus::Failed => DbStepStatus::Failed,
            StepStatus::Cancelled => DbStepStatus::Cancelled,
            StepStatus::TimedOut => DbStepStatus::TimedOut,
            StepStatus::Skipped => DbStepStatus::Skipped,
        }
    }

    pub open spec fn spec_to_status(self) -> StepStatus {
        match self {
            DbStepStatus::Unspecified => StepStatus::Unspecified,
            DbStepStatus::Pending => StepStatus::Pending,
            DbStepStatus::Running => StepStatus::Running,
            DbStepStatus::Success => StepStatus::Success,
            DbStepStatus::Failed => StepStatus::Failed,
            DbStepStatus::Cancelled => StepStatus::Cancelled,
            DbStepStatus::TimedOut => StepStatus::TimedOut,
            DbStepStatus::Skipped => StepStatus::Skipped,
        }
    }

    pub fn to_status(self) -> (r: StepStatus)
        ensures
            r == self.spec_to_status(),
    {
        match self {
            DbStepStatus::Unspecified => StepStatus::Unspecified,
            DbStepStatus::Pending => StepStatus::Pending,
            DbStepStatus::Running => StepStatus::Running,
            DbStepStatus::Success => StepStatus::Success,
            DbStepStatus::Failed => StepStatus::Failed,
            DbStepStatus::Cancelled => StepStatus::Cancelled,
            DbStepStatus::TimedOut => StepStatus::TimedOut,
            DbStepStatus::Skipped => StepStatus::Skipped,
        }
    }
}

/// Round trip through the persistence-side enumerations: storing and
/// reloading any status gives the status back.
pub proof fn lemma_db_status_round_trip(p: PipelineStatus, b: BuildStatus, s: StepStatus)
    ensures
        DbPipelineStatus::spec_from_status(p).spec_to_status() == p,
        DbBuildStatus::spec_from_status(b).spec_to_status() == b,
        DbStepStatus::spec_from_status(s).spec_to_status() == s,
{
}

} // verus!
