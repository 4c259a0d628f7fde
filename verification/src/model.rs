//! Core data model: pipelines, steps, builds, per-build step results and
//! log lines, together with the engine's error taxonomy. Timestamps are
//! milliseconds since the epoch; key/value maps are association lists.

use vstd::prelude::*;
use crate::status::{BuildStatus, PipelineStatus, StepStatus};
use crate::util::spec_decimal;
use crate::util::u64_to_string;
use crate::util::{join_names, spec_join};

verus! {

/// One command in a pipeline's graph.
#[derive(Debug, Clone)]
pub struct Step {
    pub id: String,
    pub name: String,
    pub command: String,
    pub timeout_seconds: u32,
    pub environment: Vec<(String, String)>,
    pub dependencies: Vec<String>,
    pub status: StepStatus,
    pub created_at: u64,
    pub updated_at: u64,
}

/// A named DAG definition of steps to execute.
#[derive(Debug, Clone)]
pub struct Pipeline {
    pub id: String,
    pub name: String,
    pub repository: String,
    pub workspace_id: String,
    pub description: Option<String>,
    pub default_branch: String,
    pub status: PipelineStatus,
    pub steps: Vec<Step>,
    pub created_at: u64,
    pub updated_at: u64,
}

/// One execution attempt of a pipeline against a branch and commit.
#[derive(Debug, Clone)]
pub struct Build {
    pub id: String,
    pub pipeline_id: String,
    pub branch: String,
    pub commit: String,
    pub status: BuildStatus,
    pub started_at: Option<u64>,
    pub completed_at: Option<u64>,
    pub parameters: Vec<(String, String)>,
    pub created_at: u64,
    pub updated_at: u64,
}

/// The recorded outcome of one step in one build.
#[derive(Debug, Clone)]
pub struct StepResult {
    pub step_id: String,
    pub status: StepStatus,
    pub output: String,
    pub error: String,
    pub exit_code: Option<i32>,
    pub started_at: Option<u64>,
    pub completed_at: Option<u64>,
}

/// An append-only log line of one build.
#[derive(Debug, Clone)]
pub struct BuildLog {
    pub build_id: String,
    pub step_id: String,
    pub content: String,
    pub timestamp: u64,
}

/// A request to create a build of a pipeline.
#[derive(Debug, Clone)]
pub struct CreateBuildRequest {
    pub pipeline_id: String,
    pub branch: String,
    pub commit: String,
    pub parameters: Vec<(String, String)>,
}

/// Why a pipeline failed structural validation.
#[derive(Debug, Clone)]
pub enum ValidationError {
    /// The pipeline has no steps.
    Empty,
    /// Two steps share the named id.
    DuplicateStepId(String),
    /// The named step depends on an id that names no step.
    MissingDependency { step: String, dependency: String },
    /// The named steps form a dependency cycle; the path starts and ends at
    /// the same step.
    CyclicDependency(Vec<String>),
}

/// The engine's error taxonomy.
#[derive(Debug, Clone)]
pub enum EngineError {
    ValidationError(String),
    DatabaseError(String),
    GitError(String),
    WorkspaceError(String),
    ExecutorError(String),
    ConfigError(String),
}

/// How long artifacts are kept: a cleanup keeps the newest versions of
/// each artifact id according to these settings.
#[derive(Debug, Clone)]
pub struct RetentionPolicy {
    pub keep_last_n: Option<usize>,
    pub keep_successful: bool,
    pub min_age_days: Option<u32>,
    pub patterns_to_keep: Vec<String>,
}

/// Errors of the artifact store.
#[derive(Debug, Clone)]
pub enum ArtifactError {
    StorageError(String),
    InsufficientSpace { needed: u64, available: u64 },
    NotFound(String),
    Invalid(String),
}

/// Errors of the version-control helper.
#[derive(Debug, Clone)]
pub enum GitError {
    Git(String),
    InvalidPath(String),
    Auth(String),
    Timeout(String),
    Join(String),
}

/// Settings for the version-control helper.
#[derive(Debug, Clone)]
pub struct GitConfig {
    pub timeout_seconds: u64,
    pub ssh_key_path: Option<String>,
    pub username: Option<String>,
    pub password: Option<String>,
}

impl Default for GitConfig {
    /// Five minutes of timeout and the conventional `git` user.
    fn default() -> (r: GitConfig)
        ensures
            r.timeout_seconds == 300,
            r.ssh_key_path is None,
            r.username matches Some(u) && u@ == "git"@,
            r.password is None,
    {
        GitConfig {
            timeout_seconds: 300,
            ssh_key_path: None,
            username: Some(String::from_str("git")),
            password: None,
        }
    }
}

impl Build {
    /// A build as it is first recorded: pending, with no start or end time.
    pub fn new_pending(
        id: String,
        pipeline_id: String,
        branch: String,
        commit: String,
        parameters: Vec<(String, String)>,
        now: u64,
    ) -> (r: Build)
        ensures
            r.id == id,
            r.pipeline_id == pipeline_id,
            r.branch == branch,
            r.commit == commit,
            r.status == BuildStatus::Pending,
            r.started_at is None,
            r.completed_at is None,
            r.parameters == parameters,
            r.created_at == now,
            r.updated_at == now,
    {
        Build {
            id,
            pipeline_id,
            branch,
            commit,
            status: BuildStatus::Pending,
            started_at: None,
            completed_at: None,
            parameters,
            created_at: now,
            updated_at: now,
        }
    }

    /// Cancels a build. A pending or running build becomes cancelled with
    /// its completion time set; cancelling a build in any other state,
    /// terminal states included, changes nothing, so cancellation is
    /// idempotent.
    pub fn cancel(&mut self, now: u64)
        ensures
            (old(self).status == BuildStatus::Pending || old(self).status == BuildStatus::Running)
                ==> {
                &&& final(self).status == BuildStatus::Cancelled
                &&& final(self).completed_at == Some(now)
                &&& final(self).id == old(self).id
                &&& final(self).pipeline_id == old(self).pipeline_id
                &&& final(self).branch == old(self).branch
                &&& final(self).commit == old(self).commit
                &&& final(self).started_at == old(self).started_at
                &&& final(self).parameters == old(self).parameters
                &&& final(self).created_at == old(self).created_at
                &&& final(self).updated_at == old(self).updated_at
            },
            !(old(self).status == BuildStatus::Pending || old(self).status == BuildStatus::Running)
                ==> *final(self) == *old(self),
            old(self).status.spec_is_terminal() ==> *final(self) == *old(self),
    {
        let cancellable = match self.status {
            BuildStatus::Pending => true,
            BuildStatus::Running => true,
            _ => false,
        };
        if cancellable {
            self.status = BuildStatus::Cancelled;
            self.completed_at = Some(now);
        }
    }
}

impl StepResult {
    /// The result of a command the executor ran to completion: exit code
    /// zero is success, any other exit code is failure.
    pub fn from_execution(
        step_id: String,
        exit_code: i32,
        output: String,
        error: String,
        started_at: u64,
        completed_at: u64,
    ) -> (r: StepResult)
        ensures
            r.step_id == step_id,
            r.status == if exit_code == 0 {
                StepStatus::Success
            } else {
                StepStatus::Failed
            },
            r.output == output,
            r.error == error,
            r.exit_code == Some(exit_code),
            r.started_at == Some(started_at),
            r.completed_at == Some(completed_at),
    {
        let status = if exit_code == 0 {
            StepStatus::Success
        } else {
            StepStatus::Failed
        };
        StepResult {
            step_id,
            status,
            output,
            error,
            exit_code: Some(exit_code),
            started_at: Some(started_at),
            completed_at: Some(completed_at),
        }
    }

    /// The result synthesised when a step outlives its timeout: no exit
    /// code, and an error message naming the limit in seconds.
    pub fn timed_out(step_id: String, timeout_seconds: u64, started_at: u64, completed_at: u64) -> (r:
        StepResult)
        ensures
            r.step_id == step_id,
            r.status == StepStatus::TimedOut,
            r.output@ == Seq::<char>::empty(),
            r.error@ == "timeout after "@ + spec_decimal(timeout_seconds as int) + "s"@,
            r.exit_code is None,
            r.started_at == Some(started_at),
            r.completed_at == Some(completed_at),
    {
        let mut error = String::from_str("timeout after ");
        let secs = u64_to_string(timeout_seconds);
        error.append(secs.as_str());
        error.append("s");
        StepResult {
            step_id,
            status: StepStatus::TimedOut,
            output: String::new(),
            error,
            exit_code: None,
            started_at: Some(started_at),
            completed_at: Some(completed_at),
        }
    }

    /// The result synthesised when the runner itself failed before the
    /// command could produce an outcome.
    pub fn infra_failed(step_id: String, message: String, started_at: u64, completed_at: u64) -> (r:
        StepResult)
        ensures
            r.step_id == step_id,
            r.status == StepStatus::Failed,
            r.output@ == Seq::<char>::empty(),
            r.error == message,
            r.exit_code is None,
            r.started_at == Some(started_at),
            r.completed_at == Some(completed_at),
    {
        StepResult {
            step_id,
            status: StepStatus::Failed,
            output: String::new(),
            error: message,
            exit_code: None,
            started_at: Some(started_at),
            completed_at: Some(completed_at),
        }
    }
}


impl EngineError {
    /// The message each error displays, prefixed by its kind.
    pub open spec fn spec_message(self) -> Seq<char> {
        match self {
            EngineError::ValidationError(m) => "Validation error: "@ + m@,
            EngineError::DatabaseError(m) => "Database error: "@ + m@,
            EngineError::GitError(m) => "Git error: "@ + m@,
            EngineError::WorkspaceError(m) => "Workspace error: "@ + m@,
            EngineError::ExecutorError(m) => "Executor error: "@ + m@,
            EngineError::ConfigError(m) => "Config error: "@ + m@,
        }
    }

    pub fn message(&self) -> (r: String)
        ensures
            r@ == self.spec_message(),
    {
        match self {
            EngineError::ValidationError(m) => {
                let mut r = String::from_str("Validation error: ");
                r.append(m.as_str());
                r
            },
            EngineError::DatabaseError(m) => {
                let mut r = String::from_str("Database error: ");
                r.append(m.as_str());
                r
            },
            EngineError::GitError(m) => {
                let mut r = String::from_str("Git error: ");
                r.append(m.as_str());
                r
            },
            EngineError::WorkspaceError(m) => {
                let mut r = String::from_str("Workspace error: ");
                r.append(m.as_str());
                r
            },
            EngineError::ExecutorError(m) => {
                let mut r = String::from_str("Executor error: ");
                r.append(m.as_str());
                r
            },
            EngineError::ConfigError(m) => {
                let mut r = String::from_str("Config error: ");
                r.append(m.as_str());
                r
            },
        }
    }
}

impl GitError {
    /// The message each error displays, prefixed by its kind.
    pub open spec fn spec_message(self) -> Seq<char> {
        match self {
            GitError::Git(m) => "Git error: "@ + m@,
            GitError::InvalidPath(m) => "Invalid path error: "@ + m@,
            GitError::Auth(m) => "Authentication error: "@ + m@,
            GitError::Timeout(m) => "Timeout error: "@ + m@,
            GitError::Join(m) => "Join error: "@ + m@,
        }
    }

    pub fn message(&self) -> (r: String)
        ensures
            r@ == self.spec_message(),
    {
        match self {
            GitError::Git(m) => {
                let mut r = String::from_str("Git error: ");
                r.append(m.as_str());
                r
            },
            GitError::InvalidPath(m) => {
                let mut r = String::from_str("Invalid path error: ");
                r.append(m.as_str());
                r
            },
            GitError::Auth(m) => {
                let mut r = String::from_str("Authentication error: ");
                r.append(m.as_str());
                r
            },
            GitError::Timeout(m) => {
                let mut r = String::from_str("Timeout error: ");
                r.append(m.as_str());
                r
            },
            GitError::Join(m) => {
                let mut r = String::from_str("Join error: ");
                r.append(m.as_str());
                r
            },
        }
    }
}

impl ValidationError {
    /// The diagnostic each validation error displays.
    pub open spec fn spec_message(self) -> Seq<char> {
        match self {
            ValidationError::Empty => "Pipeline must contain at least one step"@,
            ValidationError::DuplicateStepId(d) => "Duplicate step id: "@ + d@,
            ValidationError::MissingDependency { step, dependency } => "Step '"@ + step@
                + "' depends on non-existent step '"@ + dependency@ + "'"@,
            ValidationError::CyclicDependency(path) => "Cyclic dependency detected: "@ + spec_join(
                path.deep_view(),
                " -> "@,
            ),
        }
    }

    pub fn message(&self) -> (r: String)
        ensures
            r@ == self.spec_message(),
    {
        match self {
            ValidationError::Empty => String::from_str("Pipeline must contain at least one step"),
            ValidationError::DuplicateStepId(d) => {
                let mut r = String::from_str("Duplicate step id: ");
                r.append(d.as_str());
                r
            },
            ValidationError::MissingDependency { step, dependency } => {
                let mut r = String::from_str("Step '");
                r.append(step.as_str());
                r.append("' depends on non-existent step '");
                r.append(dependency.as_str());
                r.append("'");
                r
            },
            ValidationError::CyclicDependency(path) => {
                let mut r = String::from_str("Cyclic dependency detected: ");
                let joined = join_names(path, " -> ");
                r.append(joined.as_str());
                r
            },
        }
    }
}

} // verus!
