use lightci::artifact::{select_artifacts_to_remove, ArtifactMetadata, ArtifactStore};
use lightci::logger::LogLevel;
use lightci::model::{EngineError, GitConfig, GitError, RetentionPolicy, StepResult, ValidationError};
use lightci::status::StepStatus;
use lightci::tracker::{ExecutionState, PipelineStatus, StepStatusUpdate};
use lightci::util::{format_duration, u64_to_string};
use lightci::workspace::FileSystemWorkspaceManager;

#[test]
fn test_format_duration() {
    assert_eq!(format_duration(0), "0s");
    assert_eq!(format_duration(45), "45s");
    assert_eq!(format_duration(59), "59s");
    assert_eq!(format_duration(60), "1m 0s");
    assert_eq!(format_duration(125), "2m 5s");
    assert_eq!(format_duration(3599), "59m 59s");
    assert_eq!(format_duration(3600), "1h 0m 0s");
    assert_eq!(format_duration(3665), "1h 1m 5s");
    assert_eq!(format_duration(7322), "2h 2m 2s");
}

#[test]
fn test_u64_rendering() {
    assert_eq!(u64_to_string(0), "0");
    assert_eq!(u64_to_string(7), "7");
    assert_eq!(u64_to_string(10), "10");
    assert_eq!(u64_to_string(90210), "90210");
    assert_eq!(u64_to_string(u64::MAX), "18446744073709551615");
}

#[test]
fn test_step_result_from_execution() {
    let ok = StepResult::from_execution(
        "s".to_string(),
        0,
        "out".to_string(),
        String::new(),
        5,
        9,
    );
    assert_eq!(ok.status, StepStatus::Success);
    assert_eq!(ok.exit_code, Some(0));
    assert_eq!(ok.output, "out");
    assert_eq!((ok.started_at, ok.completed_at), (Some(5), Some(9)));
    let bad = StepResult::from_execution(
        "s".to_string(),
        2,
        String::new(),
        "boom".to_string(),
        5,
        9,
    );
    assert_eq!(bad.status, StepStatus::Failed);
    assert_eq!(bad.exit_code, Some(2));
    assert_eq!(bad.error, "boom");
}

#[test]
fn test_step_result_timed_out_message() {
    let r = StepResult::timed_out("s".to_string(), 30, 1, 31);
    assert_eq!(r.status, StepStatus::TimedOut);
    assert_eq!(r.error, "timeout after 30s");
    assert_eq!(r.exit_code, None);
}

#[test]
fn test_git_config_default() {
    let c = GitConfig::default();
    assert_eq!(c.timeout_seconds, 300);
    assert_eq!(c.username.as_deref(), Some("git"));
    assert!(c.ssh_key_path.is_none() && c.password.is_none());
}

#[test]
fn test_log_level_names() {
    assert_eq!(LogLevel::Info.as_str(), "info");
    assert_eq!(LogLevel::Error.as_str(), "error");
    assert_eq!(LogLevel::Debug.as_str(), "debug");
}

#[test]
fn test_workspace_path_layout() {
    let m = FileSystemWorkspaceManager::new("/var/lib/builds".to_string());
    assert_eq!(m.get_workspace_path("b-1"), "/var/lib/builds/b-1");
}

#[test]
fn test_tracker_update_and_rollup() {
    let mut p = PipelineStatus::new(
        "p-1".to_string(),
        "test-pipeline".to_string(),
        vec!["step1".to_string(), "step2".to_string()],
        10,
    );
    assert_eq!(p.state, ExecutionState::Pending);
    assert!(p.is_active());
    let mut done = StepStatusUpdate::none();
    done.state = Some(ExecutionState::Success);
    done.end_time = Some(20);
    p.update_step(&"step1".to_string(), &done, 20);
    // one step is still pending: the pipeline has not ended
    assert!(p.end_time.is_none());
    let mut failed = StepStatusUpdate::none();
    failed.state = Some(ExecutionState::Failed);
    failed.exit_code = Some(3);
    p.update_step(&"step2".to_string(), &failed, 30);
    assert_eq!(p.state, ExecutionState::Failed);
    assert_eq!(p.end_time, Some(30));
    assert!(!p.is_active());
}

#[test]
fn test_tracker_all_success_rollup() {
    let mut p = PipelineStatus::new(
        "p-1".to_string(),
        "test-pipeline".to_string(),
        vec!["only".to_string()],
        0,
    );
    let mut done = StepStatusUpdate::none();
    done.state = Some(ExecutionState::Success);
    p.update_step(&"only".to_string(), &done, 7);
    assert_eq!(p.state, ExecutionState::Success);
    assert_eq!(p.end_time, Some(7));
}

#[test]
fn test_tracker_unknown_step_is_ignored() {
    let mut p = PipelineStatus::new(
        "p-1".to_string(),
        "test-pipeline".to_string(),
        vec!["step1".to_string()],
        0,
    );
    let mut done = StepStatusUpdate::none();
    done.state = Some(ExecutionState::Success);
    p.update_step(&"ghost".to_string(), &done, 7);
    assert_eq!(p.state, ExecutionState::Pending);
    assert!(p.end_time.is_none());
}

fn artifact(id: &str, version: &str, created_at: u64) -> ArtifactMetadata {
    ArtifactMetadata {
        id: id.to_string(),
        version: version.to_string(),
        build_id: "b".to_string(),
        pipeline_id: "p".to_string(),
        step_id: "s".to_string(),
        created_at,
        size_bytes: 1,
        content_hash: String::new(),
        retention_policy: RetentionPolicy {
            keep_last_n: Some(1),
            keep_successful: true,
            min_age_days: None,
            patterns_to_keep: Vec::new(),
        },
    }
}

#[test]
fn test_retention_keeps_newest_per_id() {
    let arts = vec![
        artifact("lib", "1.0.0", 100),
        artifact("lib", "1.0.1", 200),
        artifact("lib", "1.0.2", 300),
        artifact("doc", "1.0.0", 50),
    ];
    // keep the newest one of each id: the two older lib versions go
    let removed = select_artifacts_to_remove(&arts, 1);
    assert_eq!(removed, vec![0usize, 1usize]);
    // keeping two leaves only the oldest lib version to remove
    let removed2 = select_artifacts_to_remove(&arts, 2);
    assert_eq!(removed2, vec![0usize]);
    // keeping three removes nothing
    assert!(select_artifacts_to_remove(&arts, 3).is_empty());
}

#[test]
fn test_retention_breaks_ties_by_position() {
    let arts = vec![artifact("lib", "a", 100), artifact("lib", "b", 100)];
    // equal creation times: the earlier entry outranks the later one
    let removed = select_artifacts_to_remove(&arts, 1);
    assert_eq!(removed, vec![1usize]);
}

#[test]
fn test_artifact_store_root() {
    let store = ArtifactStore::new("/var/lib/artifacts".to_string());
    assert_eq!(store.root_dir, "/var/lib/artifacts");
}

#[test]
fn test_error_messages() {
    assert_eq!(
        EngineError::DatabaseError("no such table".to_string()).message(),
        "Database error: no such table"
    );
    assert_eq!(
        EngineError::ConfigError("bad".to_string()).message(),
        "Config error: bad"
    );
    assert_eq!(
        GitError::Auth("denied".to_string()).message(),
        "Authentication error: denied"
    );
    assert_eq!(
        ValidationError::Empty.message(),
        "Pipeline must contain at least one step"
    );
    assert_eq!(
        ValidationError::MissingDependency {
            step: "A".to_string(),
            dependency: "B".to_string()
        }
        .message(),
        "Step 'A' depends on non-existent step 'B'"
    );
    let cyc = ValidationError::CyclicDependency(vec![
        "a".to_string(),
        "b".to_string(),
        "a".to_string(),
    ]);
    assert_eq!(cyc.message(), "Cyclic dependency detected: a -> b -> a");
    assert!(cyc.message().contains("Cyclic dependency"));
}
