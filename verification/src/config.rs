//! The engine-side configuration value: a pipeline definition as loaded
//! from a file, validated and converted into the `Pipeline` model. Parsing
//! the file format itself happens outside; this module owns what the
//! resulting values mean.

use vstd::prelude::*;
use crate::model::{Pipeline, Step, ValidationError};
use crate::status::{PipelineStatus, StepStatus};
use crate::util::{clone_names, clone_pairs, fresh_id, now_millis, spec_decimal, u64_to_string};
use crate::validate::{spec_error_cause, valid_graph, validate_graph};

verus! {

/// Engine configuration: working directories and the pipeline to run.
#[derive(Debug, Clone)]
pub struct Config {
    pub workspace_dir: String,
    pub artifact_dir: String,
    pub pipeline: Pipeline,
}

/// A pipeline definition as a plain value.
#[derive(Debug, Clone)]
pub struct PipelineConfig {
    pub name: String,
    pub repository: String,
    pub description: Option<String>,
    pub default_branch: String,
    pub steps: Vec<StepConfig>,
}

/// One step of a pipeline definition.
#[derive(Debug, Clone)]
pub struct StepConfig {
    pub name: String,
    pub command: String,
    pub environment: Vec<(String, String)>,
    pub dependencies: Vec<String>,
    pub timeout_seconds: u32,
}

/// The step names of a configured pipeline, as character sequences.
pub open spec fn config_names_view(steps: Seq<Step>) -> Seq<Seq<char>> {
    Seq::new(steps.len(), |i: int| steps[i].name@)
}

/// The dependency names of a configured pipeline, as character sequences.
pub open spec fn config_deps_view(steps: Seq<Step>) -> Seq<Seq<Seq<char>>> {
    Seq::new(
        steps.len(),
        |i: int| Seq::new(steps[i].dependencies@.len(), |k: int| steps[i].dependencies@[k]@),
    )
}

impl Config {
    /// A fresh configuration around an empty pending pipeline.
    pub fn new(workspace_dir: String, artifact_dir: String) -> (r: Config)
        ensures
            r.workspace_dir == workspace_dir,
            r.artifact_dir == artifact_dir,
            r.pipeline.steps@.len() == 0,
            r.pipeline.status == PipelineStatus::Pending,
            r.pipeline.id@.len() == 36,
            r.pipeline.workspace_id@.len() == 36,
            r.pipeline.name@ == Seq::<char>::empty(),
            r.pipeline.description is None,
    {
        let now = now_millis();
        Config {
            workspace_dir,
            artifact_dir,
            pipeline: Pipeline {
                id: fresh_id(),
                name: String::new(),
                repository: String::new(),
                workspace_id: fresh_id(),
                description: None,
                default_branch: String::new(),
                status: PipelineStatus::Pending,
                steps: Vec::new(),
                created_at: now,
                updated_at: now,
            },
        }
    }

    /// Converts the configuration into a runnable pipeline: a fresh
    /// pipeline id, and step ids generated in order as `step-1`, `step-2`
    /// and so on, every step starting out pending.
    pub fn to_pipeline(&self) -> (r: Pipeline)
        ensures
            r.name@ == self.pipeline.name@,
            r.repository@ == self.pipeline.repository@,
            r.workspace_id@ == self.pipeline.workspace_id@,
            r.default_branch@ == self.pipeline.default_branch@,
            r.status == PipelineStatus::Pending,
            r.id@.len() == 36,
            r.created_at == r.updated_at,
            r.steps@.len() == self.pipeline.steps@.len(),
            forall|i: int|
                0 <= i < r.steps@.len() ==> (#[trigger] r.steps@[i]).id@ == "step-"@
                    + spec_decimal(i + 1),
            forall|i: int|
                0 <= i < r.steps@.len() ==> (#[trigger] r.steps@[i]).name@
                    == self.pipeline.steps@[i].name@,
            forall|i: int|
                0 <= i < r.steps@.len() ==> (#[trigger] r.steps@[i]).command@
                    == self.pipeline.steps@[i].command@,
            forall|i: int|
                0 <= i < r.steps@.len() ==> (#[trigger] r.steps@[i]).timeout_seconds
                    == self.pipeline.steps@[i].timeout_seconds,
            forall|i: int|
                0 <= i < r.steps@.len() ==> (#[trigger] r.steps@[i]).status == StepStatus::Pending,
            forall|i: int|
                0 <= i < r.steps@.len() ==> (#[trigger] r.steps@[i]).dependencies@.len()
                    == self.pipeline.steps@[i].dependencies@.len(),
            forall|i: int, k: int|
                0 <= i < r.steps@.len() && 0 <= k < r.steps@[i].dependencies@.len()
                    ==> (#[trigger] r.steps@[i].dependencies@[k])@
                    == self.pipeline.steps@[i].dependencies@[k]@,
    {
        let now = now_millis();
        let n = self.pipeline.steps.len();
        let mut steps: Vec<Step> = Vec::new();
        let mut i: usize = 0;
        while i < n
            invariant
                i <= n,
                n == self.pipeline.steps@.len(),
                steps@.len() == i,
                forall|j: int|
                    0 <= j < i ==> (#[trigger] steps@[j]).id@ == "step-"@ + spec_decimal(j + 1),
                forall|j: int|
                    0 <= j < i ==> (#[trigger] steps@[j]).name@ == self.pipeline.steps@[j].name@,
                forall|j: int|
                    0 <= j < i ==> (#[trigger] steps@[j]).command@
                        == self.pipeline.steps@[j].command@,
                forall|j: int|
                    0 <= j < i ==> (#[trigger] steps@[j]).timeout_seconds
                        == self.pipeline.steps@[j].timeout_seconds,
                forall|j: int|
                    0 <= j < i ==> (#[trigger] steps@[j]).status == StepStatus::Pending,
                forall|j: int|
                    0 <= j < i ==> (#[trigger] steps@[j]).dependencies@.len()
                        == self.pipeline.steps@[j].dependencies@.len(),
                forall|j: int, k: int|
                    0 <= j < i && 0 <= k < steps@[j].dependencies@.len()
                        ==> (#[trigger] steps@[j].dependencies@[k])@
                        == self.pipeline.steps@[j].dependencies@[k]@,
            decreases n - i,
        {
            let src = &self.pipeline.steps[i];
            let mut step_id = String::from_str("step-");
            let number = u64_to_string((i as u64) + 1);
            step_id.append(number.as_str());
            let step = Step {
                id: step_id,
                name: src.name.clone(),
                command: src.command.clone(),
                timeout_seconds: src.timeout_seconds,
                environment: clone_pairs(&src.environment),
                dependencies: clone_names(&src.dependencies),
                status: StepStatus::Pending,
                created_at: now,
                updated_at: now,
            };
            steps.push(step);
            i = i + 1;
        }
        Pipeline {
            id: fresh_id(),
            name: self.pipeline.name.clone(),
            repository: self.pipeline.repository.clone(),
            workspace_id: self.pipeline.workspace_id.clone(),
            description: match &self.pipeline.description {
                Some(d) => Some(d.clone()),
                None => None,
            },
            default_branch: self.pipeline.default_branch.clone(),
            status: PipelineStatus::Pending,
            steps,
            created_at: now,
            updated_at: now,
        }
    }

    /// Validates the configured pipeline over step names: names must be
    /// unique, every dependency must name a step, and the graph must be
    /// acyclic. The configuration must hold at least one step.
    pub fn validate(&self) -> (r: Result<(), ValidationError>)
        ensures
            r is Ok <==> valid_graph(
                config_names_view(self.pipeline.steps@),
                config_deps_view(self.pipeline.steps@),
            ),
            r matches Err(e) ==> spec_error_cause(
                config_names_view(self.pipeline.steps@),
                config_deps_view(self.pipeline.steps@),
                e,
            ),
    {
        let ghost idv = config_names_view(self.pipeline.steps@);
        let ghost dnv = config_deps_view(self.pipeline.steps@);
        let n = self.pipeline.steps.len();
        let mut names: Vec<String> = Vec::new();
        let mut dep_names: Vec<Vec<String>> = Vec::new();
        let mut i: usize = 0;
        while i < n
            invariant
                i <= n,
                n == self.pipeline.steps@.len(),
                idv == config_names_view(self.pipeline.steps@),
                dnv == config_deps_view(self.pipeline.steps@),
                names@.len() == i,
                dep_names@.len() == i,
                forall|j: int| 0 <= j < i ==> #[trigger] names@[j]@ == idv[j],
                forall|j: int| 0 <= j < i ==> #[trigger] dep_names@[j]@.len() == dnv[j].len(),
                forall|j: int, k: int|
                    0 <= j < i && 0 <= k < dep_names@[j]@.len() ==> #[trigger] dep_names@[j]@[k]@
                        == dnv[j][k],
            decreases n - i,
        {
            names.push(self.pipeline.steps[i].name.clone());
            let row = clone_names(&self.pipeline.steps[i].dependencies);
            dep_names.push(row);
            i = i + 1;
        }
        proof {
            assert(names.deep_view() =~= idv);
            assert forall|j: int| 0 <= j < n implies #[trigger] dep_names.deep_view()[j] =~=
            dnv[j] by {}
            assert(dep_names.deep_view() =~= dnv);
        }
        match validate_graph(names, &dep_names) {
            Ok(_plan) => Ok(()),
            Err(e) => Err(e),
        }
    }
}

impl StepConfig {
    /// Turns one configured step into a pending model step under the given
    /// id.
    pub fn into_step(self, id: String, now: u64) -> (r: Step)
        ensures
            r.id == id,
            r.name == self.name,
            r.command == self.command,
            r.timeout_seconds == self.timeout_seconds,
            r.environment == self.environment,
            r.dependencies == self.dependencies,
            r.status == StepStatus::Pending,
            r.created_at == now,
            r.updated_at == now,
    {
        Step {
            id,
            name: self.name,
            command: self.command,
            timeout_seconds: self.timeout_seconds,
            environment: self.environment,
            dependencies: self.dependencies,
            status: StepStatus::Pending,
            created_at: now,
            updated_at: now,
        }
    }
}

impl PipelineConfig {
    /// Turns a pipeline definition into a pending pipeline with fresh
    /// identifiers; every configured step keeps its fields and gets a
    /// fresh id.
    pub fn try_into_pipeline(self) -> (r: Result<Pipeline, String>)
        ensures
            r matches Ok(p) ==> {
                &&& p.name == self.name
                &&& p.repository == self.repository
                &&& p.description == self.description
                &&& p.default_branch == self.default_branch
                &&& p.status == PipelineStatus::Pending
                &&& p.id@.len() == 36
                &&& p.workspace_id@.len() == 36
                &&& p.steps@.len() == self.steps@.len()
                &&& forall|i: int|
                    0 <= i < p.steps@.len() ==> {
                        let s = #[trigger] p.steps@[i];
                        &&& s.id@.len() == 36
                        &&& s.name == self.steps@[i].name
                        &&& s.command == self.steps@[i].command
                        &&& s.timeout_seconds == self.steps@[i].timeout_seconds
                        &&& s.environment == self.steps@[i].environment
                        &&& s.dependencies == self.steps@[i].dependencies
                        &&& s.status == StepStatus::Pending
                    }
            },
            r is Ok,
    {
        let now = now_millis();
        let ghost configs = self.steps@;
        let mut steps: Vec<Step> = Vec::new();
        let mut remaining = self.steps;
        let n = remaining.len();
        // consume the configured steps front to back
        let mut rev: Vec<StepConfig> = Vec::new();
        while remaining.len() > 0
            invariant
                rev@.len() + remaining@.len() == n,
                forall|j: int|
                    0 <= j < rev@.len() ==> #[trigger] rev@[j] == configs[n - 1 - j],
                forall|j: int| 0 <= j < remaining@.len() ==> #[trigger] remaining@[j] == configs[j],
            decreases remaining@.len(),
    {
            let c = remaining.pop().unwrap();
            rev.push(c);
        }
        while rev.len() > 0
            invariant
                steps@.len() + rev@.len() == n,
                forall|j: int|
                    0 <= j < rev@.len() ==> #[trigger] rev@[j] == configs[n - 1 - j],
                forall|j: int|
                    0 <= j < steps@.len() ==> {
                        let s = #[trigger] steps@[j];
                        &&& s.id@.len() == 36
                        &&& s.name == configs[j].name
                        &&& s.command == configs[j].command
                        &&& s.timeout_seconds == configs[j].timeout_seconds
                        &&& s.environment == configs[j].environment
                        &&& s.dependencies == configs[j].dependencies
                        &&& s.status == StepStatus::Pending
                        &&& s.created_at == now
                        &&& s.updated_at == now
                    },
            decreases rev@.len(),
        {
            let c = rev.pop().unwrap();
            let step = c.into_step(fresh_id(), now);
            steps.push(step);
        }
        Ok(
            Pipeline {
                id: fresh_id(),
                name: self.name,
                repository: self.repository,
                workspace_id: fresh_id(),
                description: self.description,
                default_branch: self.default_branch,
                status: PipelineStatus::Pending,
                steps,
                created_at: now,
                updated_at: now,
            },
        )
    }
}

} // verus!
