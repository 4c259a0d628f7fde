use lightci::exec::Execution;
use lightci::model::{Pipeline, Step, StepResult, ValidationError};
use lightci::status::{BuildStatus, PipelineStatus, StepStatus};

fn step(id: &str, deps: &[&str]) -> Step {
    Step {
        id: id.to_string(),
        name: id.to_string(),
        command: String::new(),
        timeout_seconds: 0,
        environment: Vec::new(),
        dependencies: deps.iter().map(|d| d.to_string()).collect(),
        status: StepStatus::Pending,
        created_at: 0,
        updated_at: 0,
    }
}

fn pipeline(steps: Vec<Step>) -> Pipeline {
    Pipeline {
        id: "p-1".to_string(),
        name: "test-pipeline".to_string(),
        repository: "https://example.invalid/repo.git".to_string(),
        workspace_id: "w-1".to_string(),
        description: None,
        default_branch: "main".to_string(),
        status: PipelineStatus::Pending,
        steps,
        created_at: 0,
        updated_at: 0,
    }
}

fn index_of(e: &Execution, id: &str) -> usize {
    e.results()
        .iter()
        .position(|r| r.step_id == id)
        .expect("step not found")
}

fn result_of<'a>(e: &'a Execution, id: &str) -> &'a StepResult {
    &e.results()[index_of(e, id)]
}

/// Drives a build to completion, completing every launched step with the
/// exit code the caller assigns to its id. Returns the execution.
fn run_build(p: &Pipeline, exit_code_of: impl Fn(&str) -> i32) -> Execution {
    let plan = p.validate().expect("pipeline should validate");
    let mut e = Execution::new(plan);
    let mut time: u64 = 1;
    let mut guard = 0;
    while !e.is_done() {
        guard += 1;
        assert!(guard < 1000, "driver loop did not terminate");
        let launched = e.launch_ready(time);
        time += 1;
        for idx in launched {
            let id = e.results()[idx].step_id.clone();
            let code = exit_code_of(&id);
            let status = if code == 0 { StepStatus::Success } else { StepStatus::Failed };
            e.record_completion(idx, status, String::new(), String::new(), Some(code), time);
            time += 1;
        }
    }
    e
}

#[test]
fn test_linear_success() {
    // A -> B -> C, every command succeeding: all steps succeed in
    // dependency order and the build succeeds
    let p = pipeline(vec![step("A", &[]), step("B", &["A"]), step("C", &["B"])]);
    let e = run_build(&p, |_| 0);
    assert_eq!(result_of(&e, "A").status, StepStatus::Success);
    assert_eq!(result_of(&e, "B").status, StepStatus::Success);
    assert_eq!(result_of(&e, "C").status, StepStatus::Success);
    assert_eq!(e.build_status(), BuildStatus::Success);
    let a_start = result_of(&e, "A").started_at.unwrap();
    let b_start = result_of(&e, "B").started_at.unwrap();
    let c_start = result_of(&e, "C").started_at.unwrap();
    assert!(a_start <= b_start && b_start <= c_start);
    assert!(result_of(&e, "A").completed_at.unwrap() <= b_start);
    assert!(result_of(&e, "B").completed_at.unwrap() <= c_start);
}

#[test]
fn test_parallel_fan_in() {
    // A and B are independent; C depends on both: A and B launch in the
    // same wave, and C starts only after both completed
    let p = pipeline(vec![step("A", &[]), step("B", &[]), step("C", &["A", "B"])]);
    let plan = p.validate().unwrap();
    let mut e = Execution::new(plan);
    let first_wave = e.launch_ready(10);
    assert_eq!(first_wave.len(), 2);
    let ids: Vec<String> = first_wave.iter().map(|&i| e.results()[i].step_id.clone()).collect();
    assert!(ids.contains(&"A".to_string()) && ids.contains(&"B".to_string()));
    // C is not ready while its dependencies run
    assert!(e.launch_ready(11).is_empty());
    e.record_completion(index_of(&e, "A"), StepStatus::Success, String::new(), String::new(), Some(0), 110);
    // still not ready: B has not completed
    assert!(e.launch_ready(111).is_empty());
    e.record_completion(index_of(&e, "B"), StepStatus::Success, String::new(), String::new(), Some(0), 112);
    let second_wave = e.launch_ready(120);
    assert_eq!(second_wave.len(), 1);
    assert_eq!(e.results()[second_wave[0]].step_id, "C");
    let c_start = result_of(&e, "C").started_at.unwrap();
    let a_done = result_of(&e, "A").completed_at.unwrap();
    let b_done = result_of(&e, "B").completed_at.unwrap();
    assert!(c_start >= a_done.max(b_done));
    e.record_completion(index_of(&e, "C"), StepStatus::Success, String::new(), String::new(), Some(0), 130);
    assert!(e.is_done());
    assert_eq!(e.build_status(), BuildStatus::Success);
}

#[test]
fn test_failure_propagation() {
    // A -> B, A exits non-zero: A fails, B is skipped, the build fails
    let p = pipeline(vec![step("A", &[]), step("B", &["A"])]);
    let e = run_build(&p, |id| if id == "A" { 1 } else { 0 });
    assert_eq!(result_of(&e, "A").status, StepStatus::Failed);
    assert_eq!(result_of(&e, "B").status, StepStatus::Skipped);
    assert_eq!(e.build_status(), BuildStatus::Failed);
}

#[test]
fn test_transitive_skip() {
    // A -> B -> C and A -> D: when A fails, every step above it is
    // skipped at once
    let p = pipeline(vec![
        step("A", &[]),
        step("B", &["A"]),
        step("C", &["B"]),
        step("D", &["A"]),
    ]);
    let e = run_build(&p, |id| if id == "A" { 7 } else { 0 });
    assert_eq!(result_of(&e, "A").status, StepStatus::Failed);
    assert_eq!(result_of(&e, "B").status, StepStatus::Skipped);
    assert_eq!(result_of(&e, "C").status, StepStatus::Skipped);
    assert_eq!(result_of(&e, "D").status, StepStatus::Skipped);
    assert_eq!(e.build_status(), BuildStatus::Failed);
}

#[test]
fn test_no_step_launches_twice() {
    let p = pipeline(vec![step("A", &[]), step("B", &["A"])]);
    let plan = p.validate().unwrap();
    let mut e = Execution::new(plan);
    let w1 = e.launch_ready(1);
    assert_eq!(w1.len(), 1);
    // while A runs, nothing new is ready and A is not handed out again
    assert!(e.launch_ready(2).is_empty());
    assert!(e.launch_ready(3).is_empty());
    e.record_completion(w1[0], StepStatus::Success, String::new(), String::new(), Some(0), 4);
    // after completion, only B launches, never A again
    let w2 = e.launch_ready(5);
    assert_eq!(w2.len(), 1);
    assert_eq!(e.results()[w2[0]].step_id, "B");
    assert!(e.launch_ready(6).is_empty());
}

#[test]
fn test_cancellation() {
    // A -> B, cancel while A runs: A ends cancelled, B is skipped, the
    // build is cancelled
    let p = pipeline(vec![step("A", &[]), step("B", &["A"])]);
    let plan = p.validate().unwrap();
    let mut e = Execution::new(plan);
    let w1 = e.launch_ready(1);
    assert_eq!(w1.len(), 1);
    e.request_cancel();
    // no new work launches after a cancellation request
    assert!(e.launch_ready(2).is_empty());
    // the in-flight runner honours the signal and reports cancellation
    e.record_completion(
        w1[0],
        StepStatus::Cancelled,
        String::new(),
        "cancelled".to_string(),
        None,
        100,
    );
    assert_eq!(result_of(&e, "A").status, StepStatus::Cancelled);
    assert_eq!(result_of(&e, "B").status, StepStatus::Skipped);
    e.finalize_cancelled(101);
    assert!(e.is_done());
    assert_eq!(e.build_status(), BuildStatus::Cancelled);
}

#[test]
fn test_cancellation_of_unlaunched_steps() {
    // two independent steps; cancel before the second wave: the step that
    // never launched ends cancelled
    let p = pipeline(vec![step("A", &[]), step("B", &["A"]), step("C", &["A"])]);
    let plan = p.validate().unwrap();
    let mut e = Execution::new(plan);
    let w1 = e.launch_ready(1);
    assert_eq!(w1.len(), 1);
    e.request_cancel();
    e.record_completion(w1[0], StepStatus::Success, String::new(), String::new(), Some(0), 2);
    assert!(e.launch_ready(3).is_empty());
    e.finalize_cancelled(4);
    assert!(e.is_done());
    assert_eq!(result_of(&e, "A").status, StepStatus::Success);
    assert_eq!(result_of(&e, "B").status, StepStatus::Cancelled);
    assert_eq!(result_of(&e, "C").status, StepStatus::Cancelled);
    assert_eq!(e.build_status(), BuildStatus::Cancelled);
}

#[test]
fn test_timeout_fails_build_and_skips_dependents() {
    let p = pipeline(vec![step("A", &[]), step("B", &["A"])]);
    let plan = p.validate().unwrap();
    let mut e = Execution::new(plan);
    let w1 = e.launch_ready(1);
    e.record_completion(
        w1[0],
        StepStatus::TimedOut,
        String::new(),
        "timeout after 30s".to_string(),
        None,
        31,
    );
    assert_eq!(result_of(&e, "A").status, StepStatus::TimedOut);
    assert_eq!(result_of(&e, "B").status, StepStatus::Skipped);
    assert!(e.is_done());
    assert_eq!(e.build_status(), BuildStatus::Failed);
}

#[test]
fn test_every_step_gets_a_result() {
    // a wider graph: after the driver finishes, every step has a
    // terminal result
    let p = pipeline(vec![
        step("A", &[]),
        step("B", &[]),
        step("C", &["A", "B"]),
        step("D", &["C"]),
        step("E", &["A"]),
    ]);
    let e = run_build(&p, |_| 0);
    assert_eq!(e.results().len(), 5);
    for r in e.results().iter() {
        assert_eq!(r.status, StepStatus::Success);
        assert!(r.started_at.is_some() && r.completed_at.is_some());
        assert!(r.started_at.unwrap() <= r.completed_at.unwrap());
    }
    assert_eq!(e.build_status(), BuildStatus::Success);
}

#[test]
fn test_trigger_build_rejects_cycle_without_build() {
    let p = pipeline(vec![step("A", &["B"]), step("B", &["A"])]);
    let r = lightci::engine::trigger_build(&p, 42);
    match r {
        Err(ValidationError::CyclicDependency(path)) => {
            assert!(path.len() >= 3);
            assert_eq!(path.first(), path.last());
        }
        other => panic!("expected a cycle error, got {:?}", other),
    }
}

#[test]
fn test_trigger_build_creates_pending_build() {
    let p = pipeline(vec![step("A", &[]), step("B", &["A"])]);
    let b = lightci::engine::trigger_build(&p, 42).expect("valid pipeline should trigger");
    assert_eq!(b.pipeline_id, "p-1");
    assert_eq!(b.branch, "main");
    assert_eq!(b.commit, "HEAD");
    assert_eq!(b.status, BuildStatus::Pending);
    assert_eq!(b.id.len(), 36);
    assert!(b.started_at.is_none() && b.completed_at.is_none());
    assert_eq!(b.created_at, 42);
}

#[test]
fn test_cancel_terminal_build_is_noop() {
    let p = pipeline(vec![step("A", &[])]);
    let mut b = lightci::engine::trigger_build(&p, 1).unwrap();
    b.status = BuildStatus::Success;
    b.completed_at = Some(9);
    let before = (b.status, b.completed_at);
    b.cancel(100);
    assert_eq!((b.status, b.completed_at), before);
    // cancelling twice changes nothing either
    b.cancel(200);
    assert_eq!((b.status, b.completed_at), before);
}

#[test]
fn test_cancel_pending_build() {
    let p = pipeline(vec![step("A", &[])]);
    let mut b = lightci::engine::trigger_build(&p, 1).unwrap();
    b.cancel(50);
    assert_eq!(b.status, BuildStatus::Cancelled);
    assert_eq!(b.completed_at, Some(50));
    // a second cancel is a no-op
    b.cancel(60);
    assert_eq!(b.completed_at, Some(50));
}

#[test]
fn test_pipeline_status_after_results() {
    let ok = StepResult::from_execution("A".to_string(), 0, String::new(), String::new(), 1, 2);
    let bad = StepResult::from_execution("B".to_string(), 3, String::new(), String::new(), 1, 2);
    assert_eq!(
        lightci::engine::pipeline_status_after(&vec![ok.clone()]),
        PipelineStatus::Completed
    );
    assert_eq!(
        lightci::engine::pipeline_status_after(&vec![ok, bad]),
        PipelineStatus::Failed
    );
}
