use lightci::cli_config;
use lightci::config::{Config, PipelineConfig, StepConfig};
use lightci::model::{Pipeline, Step, ValidationError};
use lightci::status::{PipelineStatus, StepStatus};

fn config_step(name: &str, command: &str, deps: &[&str]) -> Step {
    Step {
        id: String::new(),
        name: name.to_string(),
        command: command.to_string(),
        timeout_seconds: 300,
        environment: Vec::new(),
        dependencies: deps.iter().map(|d| d.to_string()).collect(),
        status: StepStatus::Pending,
        created_at: 0,
        updated_at: 0,
    }
}

fn config_with(steps: Vec<Step>) -> Config {
    Config {
        workspace_dir: "/tmp/ws".to_string(),
        artifact_dir: "/tmp/artifacts".to_string(),
        pipeline: Pipeline {
            id: "cfg".to_string(),
            name: "Test Pipeline".to_string(),
            repository: "https://github.com/test/repo".to_string(),
            workspace_id: "w".to_string(),
            description: Some("A test pipeline".to_string()),
            default_branch: "main".to_string(),
            status: PipelineStatus::Pending,
            steps,
            created_at: 0,
            updated_at: 0,
        },
    }
}

#[test]
fn test_convert_to_pipeline() {
    let config = config_with(vec![config_step("Build", "cargo build", &[])]);
    let pipeline = config.to_pipeline();
    assert_eq!(pipeline.name, "Test Pipeline");
    assert_eq!(pipeline.repository, "https://github.com/test/repo");
    assert_eq!(pipeline.steps.len(), 1);
    assert_eq!(pipeline.steps[0].name, "Build");
    assert_eq!(pipeline.steps[0].command, "cargo build");
    assert_eq!(pipeline.steps[0].id, "step-1");
    assert_eq!(pipeline.steps[0].status, StepStatus::Pending);
}

#[test]
fn test_generated_step_ids_count_up() {
    let config = config_with(vec![
        config_step("Build", "cargo build", &[]),
        config_step("Test", "cargo test", &["Build"]),
        config_step("Package", "cargo package", &["Test"]),
    ]);
    let pipeline = config.to_pipeline();
    let ids: Vec<&str> = pipeline.steps.iter().map(|s| s.id.as_str()).collect();
    assert_eq!(ids, vec!["step-1", "step-2", "step-3"]);
}

#[test]
fn test_config_validate_by_name() {
    let good = config_with(vec![
        config_step("Build", "cargo build", &[]),
        config_step("Test", "cargo test", &["Build"]),
    ]);
    assert!(good.validate().is_ok());
    let missing = config_with(vec![config_step("Test", "cargo test", &["Build"])]);
    assert!(matches!(
        missing.validate(),
        Err(ValidationError::MissingDependency { .. })
    ));
    let dup = config_with(vec![
        config_step("Build", "a", &[]),
        config_step("Build", "b", &[]),
    ]);
    assert!(matches!(dup.validate(), Err(ValidationError::DuplicateStepId(_))));
}

#[test]
fn test_try_into_pipeline() {
    let pc = PipelineConfig {
        name: "Test Pipeline".to_string(),
        repository: "https://github.com/test/repo".to_string(),
        description: None,
        default_branch: "main".to_string(),
        steps: vec![StepConfig {
            name: "Build".to_string(),
            command: "cargo build".to_string(),
            environment: Vec::new(),
            dependencies: Vec::new(),
            timeout_seconds: 300,
        }],
    };
    let p = pc.try_into_pipeline().expect("conversion succeeds");
    assert_eq!(p.name, "Test Pipeline");
    assert_eq!(p.status, PipelineStatus::Pending);
    assert_eq!(p.id.len(), 36);
    assert_eq!(p.steps.len(), 1);
    assert_eq!(p.steps[0].name, "Build");
    assert_eq!(p.steps[0].id.len(), 36);
}

#[test]
fn test_cli_template_is_valid() {
    let t = cli_config::PipelineConfig::template();
    assert_eq!(t.name, "default");
    assert_eq!(t.version.as_deref(), Some("1.0"));
    assert_eq!(t.steps.len(), 2);
    assert_eq!(t.steps[0].0, "build");
    assert_eq!(t.steps[1].0, "test");
    assert_eq!(t.steps[1].1.depends_on, vec!["build".to_string()]);
    assert!(t.validate().is_ok());
}

fn cli_step(deps: &[&str]) -> cli_config::StepConfig {
    cli_config::StepConfig {
        name: "s".to_string(),
        command: "true".to_string(),
        environment: Vec::new(),
        depends_on: deps.iter().map(|d| d.to_string()).collect(),
        timeout: None,
        retries: None,
        working_dir: None,
    }
}

#[test]
fn test_validate_config_with_cycle() {
    let config = cli_config::PipelineConfig {
        name: "test".to_string(),
        version: Some("1.0".to_string()),
        environment: Vec::new(),
        steps: vec![
            ("a".to_string(), cli_step(&["b"])),
            ("b".to_string(), cli_step(&["a"])),
        ],
    };
    match config.validate() {
        Err(ValidationError::CyclicDependency(path)) => {
            assert!(path.len() >= 3);
            assert_eq!(path.first(), path.last());
        }
        other => panic!("expected a cycle, got {:?}", other),
    }
}

#[test]
fn test_cli_empty_config_rejected() {
    let config = cli_config::PipelineConfig {
        name: "test".to_string(),
        version: None,
        environment: Vec::new(),
        steps: Vec::new(),
    };
    assert!(matches!(config.validate(), Err(ValidationError::Empty)));
}

#[test]
fn test_cli_validate_dependencies() {
    let good = cli_config::PipelineConfig {
        name: "t".to_string(),
        version: None,
        environment: Vec::new(),
        steps: vec![
            ("a".to_string(), cli_step(&[])),
            ("b".to_string(), cli_step(&["a"])),
        ],
    };
    assert!(good.validate_dependencies().is_ok());
    let bad = cli_config::PipelineConfig {
        name: "t".to_string(),
        version: None,
        environment: Vec::new(),
        steps: vec![("a".to_string(), cli_step(&["ghost"]))],
    };
    match bad.validate_dependencies() {
        Err(ValidationError::MissingDependency { step, dependency }) => {
            assert_eq!(step, "a");
            assert_eq!(dependency, "ghost");
        }
        other => panic!("expected a missing dependency, got {:?}", other),
    }
}
