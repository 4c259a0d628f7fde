use lightci::model::{Pipeline, Step, ValidationError};
use lightci::status::{PipelineStatus, StepStatus};

fn step(id: &str, deps: &[&str]) -> Step {
    Step {
        id: id.to_string(),
        name: id.to_string(),
        command: "true".to_string(),
        timeout_seconds: 0,
        environment: Vec::new(),
        dependencies: deps.iter().map(|d| d.to_string()).collect(),
        status: StepStatus::Pending,
        created_at: 0,
        updated_at: 0,
    }
}

fn pipeline(steps: Vec<Step>) -> Pipeline {
    Pipeline {
        id: "p".to_string(),
        name: "p".to_string(),
        repository: String::new(),
        workspace_id: "w".to_string(),
        description: None,
        default_branch: "main".to_string(),
        status: PipelineStatus::Pending,
        steps,
        created_at: 0,
        updated_at: 0,
    }
}

#[test]
fn test_empty_pipeline_is_rejected() {
    let p = pipeline(vec![]);
    assert!(matches!(p.validate(), Err(ValidationError::Empty)));
}

#[test]
fn test_valid_pipeline_accepted() {
    let p = pipeline(vec![step("A", &[]), step("B", &["A"]), step("C", &["A", "B"])]);
    let plan = p.validate().expect("should validate");
    assert_eq!(plan.ids.len(), 3);
    assert_eq!(plan.deps[0].len(), 0);
    assert_eq!(plan.deps[1], vec![0usize]);
    assert_eq!(plan.deps[2], vec![0usize, 1usize]);
}

#[test]
fn test_missing_dependency() {
    let p = pipeline(vec![step("A", &["nonexistent"])]);
    match p.validate() {
        Err(ValidationError::MissingDependency { step, dependency }) => {
            assert_eq!(step, "A");
            assert_eq!(dependency, "nonexistent");
        }
        Ok(_) => panic!("expected a missing dependency, got a valid plan"),
        Err(other) => panic!("expected a missing dependency, got {:?}", other),
    }
}

#[test]
fn test_cycle_rejected_with_path() {
    let p = pipeline(vec![step("A", &["B"]), step("B", &["A"])]);
    match p.validate() {
        Err(ValidationError::CyclicDependency(path)) => {
            // the path walks real edges from a step back to itself
            assert!(path.len() >= 3);
            assert_eq!(path.first(), path.last());
            for id in &path {
                assert!(id == "A" || id == "B");
            }
        }
        Ok(_) => panic!("expected a cycle, got a valid plan"),
        Err(other) => panic!("expected a cycle, got {:?}", other),
    }
}

#[test]
fn test_self_dependency_is_a_cycle() {
    let p = pipeline(vec![step("A", &["A"])]);
    match p.validate() {
        Err(ValidationError::CyclicDependency(path)) => {
            assert_eq!(path, vec!["A".to_string(), "A".to_string()]);
        }
        Ok(_) => panic!("expected a cycle, got a valid plan"),
        Err(other) => panic!("expected a cycle, got {:?}", other),
    }
}

#[test]
fn test_longer_cycle_detected() {
    let p = pipeline(vec![
        step("entry", &[]),
        step("A", &["entry", "C"]),
        step("B", &["A"]),
        step("C", &["B"]),
    ]);
    assert!(matches!(p.validate(), Err(ValidationError::CyclicDependency(_))));
}

#[test]
fn test_duplicate_step_id_rejected() {
    let p = pipeline(vec![step("A", &[]), step("A", &[])]);
    match p.validate() {
        Err(ValidationError::DuplicateStepId(d)) => assert_eq!(d, "A"),
        Ok(_) => panic!("expected a duplicate id, got a valid plan"),
        Err(other) => panic!("expected a duplicate id, got {:?}", other),
    }
}

#[test]
fn test_diamond_is_acyclic() {
    let p = pipeline(vec![
        step("A", &[]),
        step("B", &["A"]),
        step("C", &["A"]),
        step("D", &["B", "C"]),
    ]);
    assert!(p.validate().is_ok());
}

#[test]
fn test_dependency_graph_dependents() {
    // B depends on A; C depends on A and B
    let p = pipeline(vec![step("A", &[]), step("B", &["A"]), step("C", &["A", "B"])]);
    let plan = p.validate().unwrap();
    let dependents = plan.dependents();
    assert_eq!(dependents.len(), 3);
    assert_eq!(dependents[0], vec![1usize, 2usize]);
    assert_eq!(dependents[1], vec![2usize]);
    assert!(dependents[2].is_empty());
}
