//! The engine's decision logic: validating a pipeline before anything is
//! spawned, creating the pending build record that a trigger returns, and
//! summarising step results into a pipeline status. The surrounding
//! lifecycle — persistence, subprocesses, transport — calls in from
//! outside with plain values.

use vstd::prelude::*;
use crate::model::{Build, Pipeline, StepResult, ValidationError};
use crate::status::{PipelineStatus, StepStatus};
use crate::util::{clone_names, fresh_id};
use crate::validate::{
    dep_edge, spec_error_cause, valid_graph, validate_graph, Plan,
};

verus! {

/// The update published to subscribers when a step changes status.
#[derive(Debug, Clone)]
pub struct StepStatusUpdate {
    pub build_id: String,
    pub step_name: String,
    pub status: StepStatus,
}

impl StepStatusUpdate {
    pub fn new(build_id: String, step_name: String, status: StepStatus) -> (r: StepStatusUpdate)
        ensures
            r.build_id == build_id,
            r.step_name == step_name,
            r.status == status,
    {
        StepStatusUpdate { build_id, step_name, status }
    }
}

/// The step ids of a pipeline's steps, as character sequences.
pub open spec fn step_ids_view(steps: Seq<crate::model::Step>) -> Seq<Seq<char>> {
    Seq::new(steps.len(), |i: int| steps[i].id@)
}

/// The dependency names of a pipeline's steps, as character sequences.
pub open spec fn step_deps_view(steps: Seq<crate::model::Step>) -> Seq<Seq<Seq<char>>> {
    Seq::new(
        steps.len(),
        |i: int| Seq::new(steps[i].dependencies@.len(), |k: int| steps[i].dependencies@[k]@),
    )
}

impl Pipeline {
    /// Validates this pipeline's step graph: it must be non-empty, step
    /// ids must be unique, every dependency must name a step, and the
    /// graph must be acyclic. On success the resolved plan is returned;
    /// otherwise the error says exactly what was wrong.
    pub fn validate(&self) -> (r: Result<Plan, ValidationError>)
        ensures
            r is Ok <==> valid_graph(step_ids_view(self.steps@), step_deps_view(self.steps@)),
            r matches Ok(p) ==> {
                &&& p.wf()
                &&& p.ids.deep_view() == step_ids_view(self.steps@)
                &&& forall|i: int, j: int|
                    p.edge(i, j) <==> dep_edge(
                        step_ids_view(self.steps@),
                        step_deps_view(self.steps@),
                        i,
                        j,
                    )
            },
            r matches Err(e) ==> spec_error_cause(
                step_ids_view(self.steps@),
                step_deps_view(self.steps@),
                e,
            ),
    {
        let ghost idv = step_ids_view(self.steps@);
        let ghost dnv = step_deps_view(self.steps@);
        let n = self.steps.len();
        let mut ids: Vec<String> = Vec::new();
        let mut dep_names: Vec<Vec<String>> = Vec::new();
        let mut i: usize = 0;
        while i < n
            invariant
                i <= n,
                n == self.steps@.len(),
                idv == step_ids_view(self.steps@),
                dnv == step_deps_view(self.steps@),
                ids@.len() == i,
                dep_names@.len() == i,
                forall|j: int| 0 <= j < i ==> #[trigger] ids@[j]@ == idv[j],
                forall|j: int| 0 <= j < i ==> #[trigger] dep_names@[j]@.len() == dnv[j].len(),
                forall|j: int, k: int|
                    0 <= j < i && 0 <= k < dep_names@[j]@.len() ==> #[trigger] dep_names@[j]@[k]@
                        == dnv[j][k],
            decreases n - i,
        {
            ids.push(self.steps[i].id.clone());
            let row = clone_names(&self.steps[i].dependencies);
            dep_names.push(row);
            i = i + 1;
        }
        proof {
            assert(ids.deep_view() =~= idv);
            assert forall|j: int| 0 <= j < n implies #[trigger] dep_names.deep_view()[j] =~=
            dnv[j] by {}
            assert(dep_names.deep_view() =~= dnv);
        }
        validate_graph(ids, &dep_names)
    }
}

/// Decides a trigger request: a pipeline that fails validation is
/// rejected outright, and no build record exists for it; a valid pipeline
/// gets a fresh pending build of its default branch at `HEAD`.
pub fn trigger_build(pipeline: &Pipeline, now: u64) -> (r: Result<Build, ValidationError>)
    ensures
        r is Ok <==> valid_graph(step_ids_view(pipeline.steps@), step_deps_view(pipeline.steps@)),
        r matches Ok(b) ==> {
            &&& b.pipeline_id@ == pipeline.id@
            &&& b.branch@ == pipeline.default_branch@
            &&& b.commit@ == "HEAD"@
            &&& b.status == crate::status::BuildStatus::Pending
            &&& b.started_at is None
            &&& b.completed_at is None
            &&& b.parameters@.len() == 0
            &&& b.created_at == now
            &&& b.updated_at == now
            &&& b.id@.len() == 36
        },
        r matches Err(e) ==> spec_error_cause(
            step_ids_view(pipeline.steps@),
            step_deps_view(pipeline.steps@),
            e,
        ),
{
    match pipeline.validate() {
        Ok(_plan) => Ok(
            Build::new_pending(
                fresh_id(),
                pipeline.id.clone(),
                pipeline.default_branch.clone(),
                String::from_str("HEAD"),
                Vec::new(),
                now,
            ),
        ),
        Err(e) => Err(e),
    }
}

/// The pipeline status recorded after an execution: failed when any step
/// failed, completed otherwise.
pub fn pipeline_status_after(results: &Vec<StepResult>) -> (r: PipelineStatus)
    ensures
        r == PipelineStatus::Failed <==> exists|j: int|
            0 <= j < results@.len() && (#[trigger] results@[j]).status == StepStatus::Failed,
        r == PipelineStatus::Failed || r == PipelineStatus::Completed,
{
    let n = results.len();
    let mut any_failed = false;
    let mut i: usize = 0;
    while i < n
        invariant
            i <= n,
            n == results@.len(),
            any_failed <==> exists|j: int|
                0 <= j < i && (#[trigger] results@[j]).status == StepStatus::Failed,
        decreases n - i,
    {
        match results[i].status {
            StepStatus::Failed => {
                any_failed = true;
                proof {
                    assert(results@[i as int].status == StepStatus::Failed);
                }
            },
            _ => {},
        }
        i = i + 1;
    }
    if any_failed {
        PipelineStatus::Failed
    } else {
        PipelineStatus::Completed
    }
}

} // verus!
