//! The command-line tool's execution tracker: per-pipeline progress as
//! the user sees it. The shared map and its locking live outside; the
//! meaning of one pipeline's record and of an update applied to it is
//! defined and verified here.

use vstd::prelude::*;

verus! {

/// The coarse state a tracked pipeline or step is in.
#[derive(Clone, Copy, Debug, PartialEq, Eq, Structural)]
pub enum ExecutionState {
    Pending,
    Running,
    Success,
    Failed,
    Cancelled,
}

/// What the tracker knows about one step.
#[derive(Debug, Clone)]
pub struct StepStatus {
    pub name: String,
    pub state: ExecutionState,
    pub start_time: Option<u64>,
    pub end_time: Option<u64>,
    pub exit_code: Option<i32>,
    pub error: Option<String>,
}

/// What the tracker knows about one pipeline execution.
#[derive(Debug, Clone)]
pub struct PipelineStatus {
    pub id: String,
    pub name: String,
    pub state: ExecutionState,
    pub steps: Vec<(String, StepStatus)>,
    pub start_time: u64,
    pub end_time: Option<u64>,
}

/// A partial update: only the fields that are present change.
#[derive(Debug, Clone)]
pub struct StepStatusUpdate {
    pub state: Option<ExecutionState>,
    pub start_time: Option<u64>,
    pub end_time: Option<u64>,
    pub exit_code: Option<i32>,
    pub error: Option<String>,
}

/// Every tracked step has ended, in success or failure.
pub open spec fn all_steps_completed(steps: Seq<(String, StepStatus)>) -> bool {
    forall|i: int|
        0 <= i < steps.len() ==> ((#[trigger] steps[i]).1.state == ExecutionState::Success
            || steps[i].1.state == ExecutionState::Failed)
}

/// Some tracked step failed.
pub open spec fn any_step_failed(steps: Seq<(String, StepStatus)>) -> bool {
    exists|i: int| 0 <= i < steps.len() && (#[trigger] steps[i]).1.state == ExecutionState::Failed
}

impl StepStatusUpdate {
    /// An update that changes nothing.
    pub fn none() -> (r: StepStatusUpdate)
        ensures
            r.state is None,
            r.start_time is None,
            r.end_time is None,
            r.exit_code is None,
            r.error is None,
    {
        StepStatusUpdate {
            state: None,
            start_time: None,
            end_time: None,
            exit_code: None,
            error: None,
        }
    }

    /// Applies the update: each present field overwrites the step's,
    /// absent fields leave it alone.
    pub fn apply(&self, status: &mut StepStatus)
        ensures
            final(status).name == old(status).name,
            final(status).state == if self.state is Some {
                self.state.unwrap()
            } else {
                old(status).state
            },
            final(status).start_time == if self.start_time is Some {
                self.start_time
            } else {
                old(status).start_time
            },
            final(status).end_time == if self.end_time is Some {
                self.end_time
            } else {
                old(status).end_time
            },
            final(status).exit_code == if self.exit_code is Some {
                self.exit_code
            } else {
                old(status).exit_code
            },
            self.error matches Some(e) ==> final(status).error matches Some(f) && f@ == e@,
            self.error is None ==> final(status).error == old(status).error,
    {
        match &self.state {
            Some(state) => {
                status.state = *state;
            },
            None => {},
        }
        match &self.start_time {
            Some(start_time) => {
                status.start_time = Some(*start_time);
            },
            None => {},
        }
        match &self.end_time {
            Some(end_time) => {
                status.end_time = Some(*end_time);
            },
            None => {},
        }
        match &self.exit_code {
            Some(exit_code) => {
                status.exit_code = Some(*exit_code);
            },
            None => {},
        }
        match &self.error {
            Some(error) => {
                status.error = Some(error.clone());
            },
            None => {},
        }
    }
}

impl PipelineStatus {
    /// A freshly tracked pipeline: pending, with one pending step record
    /// per step name.
    pub fn new(id: String, name: String, step_names: Vec<String>, start_time: u64) -> (r:
        PipelineStatus)
        ensures
            r.id == id,
            r.name == name,
            r.state == ExecutionState::Pending,
            r.start_time == start_time,
            r.end_time is None,
            r.steps@.len() == step_names@.len(),
            forall|i: int|
                0 <= i < step_names@.len() ==> {
                    let e = #[trigger] r.steps@[i];
                    &&& e.0@ == step_names@[i]@
                    &&& e.1.name@ == step_names@[i]@
                    &&& e.1.state == ExecutionState::Pending
                    &&& e.1.start_time is None
                    &&& e.1.end_time is None
                    &&& e.1.exit_code is None
                    &&& e.1.error is None
                },
    {
        let n = step_names.len();
        let mut steps: Vec<(String, StepStatus)> = Vec::new();
        let mut i: usize = 0;
        while i < n
            invariant
                i <= n,
                n == step_names@.len(),
                steps@.len() == i,
                forall|j: int|
                    0 <= j < i ==> {
                        let e = #[trigger] steps@[j];
                        &&& e.0@ == step_names@[j]@
                        &&& e.1.name@ == step_names@[j]@
                        &&& e.1.state == ExecutionState::Pending
                        &&& e.1.start_time is None
                        &&& e.1.end_time is None
                        &&& e.1.exit_code is None
                        &&& e.1.error is None
                    },
            decreases n - i,
        {
            let sname = step_names[i].clone();
            let record = StepStatus {
                name: step_names[i].clone(),
                state: ExecutionState::Pending,
                start_time: None,
                end_time: None,
                exit_code: None,
                error: None,
            };
            steps.push((sname, record));
            i = i + 1;
        }
        PipelineStatus { id, name, state: ExecutionState::Pending, steps, start_time, end_time: None }
    }

    /// Whether the pipeline is still pending or running.
    pub fn is_active(&self) -> (r: bool)
        ensures
            r <==> (self.state == ExecutionState::Pending || self.state
                == ExecutionState::Running),
    {
        match self.state {
            ExecutionState::Pending => true,
            ExecutionState::Running => true,
            _ => false,
        }
    }

    /// Applies an update to the named step, if it is tracked, and then
    /// rolls the pipeline state up: once every step has ended, the
    /// pipeline is failed when any step failed and successful otherwise,
    /// and its end time is recorded.
    pub fn update_step(&mut self, step: &String, update: &StepStatusUpdate, now: u64)
        ensures
            final(self).id == old(self).id,
            final(self).name == old(self).name,
            final(self).start_time == old(self).start_time,
            final(self).steps@.len() == old(self).steps@.len(),
            (forall|i: int|
                0 <= i < old(self).steps@.len() ==> (#[trigger] old(self).steps@[i]).0@ != step@)
                ==> *final(self) == *old(self),
            (exists|i: int|
                0 <= i < old(self).steps@.len() && (#[trigger] old(self).steps@[i]).0@ == step@)
                ==> {
                &&& (all_steps_completed(final(self).steps@) && any_step_failed(
                    final(self).steps@,
                ) ==> final(self).state == ExecutionState::Failed)
                &&& (all_steps_completed(final(self).steps@) && !any_step_failed(
                    final(self).steps@,
                ) ==> final(self).state == ExecutionState::Success)
                &&& (all_steps_completed(final(self).steps@) ==> final(self).end_time == Some(
                    now,
                ))
            },
            !all_steps_completed(final(self).steps@) ==> final(self).state == old(self).state
                && final(self).end_time == old(self).end_time,
    {
        let n = self.steps.len();
        let mut target: Option<usize> = None;
        let mut i: usize = 0;
        while i < n
            invariant
                i <= n,
                n == self.steps@.len(),
                target is None ==> forall|j: int| 0 <= j < i ==> (#[trigger] self.steps@[j]).0@
                    != step@,
                target matches Some(x) ==> x < n && self.steps@[x as int].0@ == step@,
            decreases n - i,
        {
            if target.is_none() && self.steps[i].0.eq(step) {
                target = Some(i);
                proof {
                    assert(self.steps@[i as int].0@ == step@);
                }
            }
            i = i + 1;
        }
        match target {
            None => {
            },
            Some(x) => {
                let mut entry = self.steps.remove(x);
                update.apply(&mut entry.1);
                self.steps.insert(x, entry);
                let all_completed = self.all_completed();
                let any_failed = self.any_failed();
                if all_completed {
                    self.state = if any_failed {
                        ExecutionState::Failed
                    } else {
                        ExecutionState::Success
                    };
                    self.end_time = Some(now);
                }
            },
        }
    }

    fn all_completed(&self) -> (r: bool)
        ensures
            r == all_steps_completed(self.steps@),
    {
        let n = self.steps.len();
        let mut i: usize = 0;
        let mut r = true;
        while i < n
            invariant
                i <= n,
                n == self.steps@.len(),
                r <==> forall|j: int|
                    0 <= j < i ==> ((#[trigger] self.steps@[j]).1.state == ExecutionState::Success
                        || self.steps@[j].1.state == ExecutionState::Failed),
            decreases n - i,
        {
            match self.steps[i].1.state {
                ExecutionState::Success => {},
                ExecutionState::Failed => {},
                _ => {
                    r = false;
                    proof {
                        assert(!(self.steps@[i as int].1.state == ExecutionState::Success
                            || self.steps@[i as int].1.state == ExecutionState::Failed));
                    }
                },
            }
            i = i + 1;
        }
        r
    }

    fn any_failed(&self) -> (r: bool)
        ensures
            r == any_step_failed(self.steps@),
    {
        let n = self.steps.len();
        let mut i: usize = 0;
        let mut r = false;
        while i < n
            invariant
                i <= n,
                n == self.steps@.len(),
                r <==> exists|j: int|
                    0 <= j < i && (#[trigger] self.steps@[j]).1.state == ExecutionState::Failed,
            decreases n - i,
        {
            match self.steps[i].1.state {
                ExecutionState::Failed => {
                    r = true;
                    proof {
                        assert(self.steps@[i as int].1.state == ExecutionState::Failed);
                    }
                },
                _ => {},
            }
            i = i + 1;
        }
        r
    }

    /// Applies a pipeline-level update: state and end time, when present.
    pub fn update_pipeline(&mut self, update: &StepStatusUpdate)
        ensures
            final(self).id == old(self).id,
            final(self).name == old(self).name,
            final(self).steps == old(self).steps,
            final(self).start_time == old(self).start_time,
            final(self).state == if update.state is Some {
                update.state.unwrap()
            } else {
                old(self).state
            },
            final(self).end_time == if update.end_time is Some {
                update.end_time
            } else {
                old(self).end_time
            },
    {
        match &update.state {
            Some(state) => {
                self.state = *state;
            },
            None => {},
        }
        match &update.end_time {
            Some(end_time) => {
                self.end_time = Some(*end_time);
            },
            None => {},
        }
    }
}

} // verus!
