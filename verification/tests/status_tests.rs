use lightci::status::{
    BuildStatus, DbBuildStatus, DbPipelineStatus, DbStepStatus, PipelineStatus, StepStatus,
};

fn all_pipeline_statuses() -> Vec<PipelineStatus> {
    vec![
        PipelineStatus::Unspecified,
        PipelineStatus::Pending,
        PipelineStatus::Running,
        PipelineStatus::Completed,
        PipelineStatus::Failed,
    ]
}

fn all_build_statuses() -> Vec<BuildStatus> {
    vec![
        BuildStatus::Unspecified,
        BuildStatus::Pending,
        BuildStatus::Running,
        BuildStatus::Success,
        BuildStatus::Failed,
        BuildStatus::Cancelled,
        BuildStatus::TimedOut,
    ]
}

fn all_step_statuses() -> Vec<StepStatus> {
    vec![
        StepStatus::Unspecified,
        StepStatus::Pending,
        StepStatus::Running,
        StepStatus::Success,
        StepStatus::Failed,
        StepStatus::Cancelled,
        StepStatus::TimedOut,
        StepStatus::Skipped,
    ]
}

#[test]
fn test_pipeline_status_string_round_trip() {
    for s in all_pipeline_statuses() {
        assert_eq!(PipelineStatus::parse(s.as_str()), s);
    }
}

#[test]
fn test_build_status_string_round_trip() {
    for s in all_build_statuses() {
        assert_eq!(BuildStatus::parse(s.as_str()), s);
    }
}

#[test]
fn test_step_status_string_round_trip() {
    for s in all_step_statuses() {
        assert_eq!(StepStatus::parse(s.as_str()), s);
    }
}

#[test]
fn test_status_code_round_trip() {
    for s in all_pipeline_statuses() {
        assert_eq!(PipelineStatus::from_code(s.code()), s);
    }
    for s in all_build_statuses() {
        assert_eq!(BuildStatus::from_code(s.code()), s);
    }
    for s in all_step_statuses() {
        assert_eq!(StepStatus::from_code(s.code()), s);
    }
}

#[test]
fn test_status_codes_are_stable() {
    assert_eq!(PipelineStatus::Unspecified.code(), 0);
    assert_eq!(PipelineStatus::Pending.code(), 1);
    assert_eq!(PipelineStatus::Running.code(), 2);
    assert_eq!(PipelineStatus::Completed.code(), 3);
    assert_eq!(PipelineStatus::Failed.code(), 4);
    assert_eq!(BuildStatus::Success.code(), 3);
    assert_eq!(BuildStatus::TimedOut.code(), 6);
    assert_eq!(StepStatus::Skipped.code(), 7);
}

#[test]
fn test_status_strings_are_canonical() {
    assert_eq!(StepStatus::TimedOut.as_str(), "timedout");
    assert_eq!(StepStatus::Skipped.as_str(), "skipped");
    assert_eq!(BuildStatus::Cancelled.as_str(), "cancelled");
    assert_eq!(PipelineStatus::Completed.as_str(), "completed");
}

#[test]
fn test_unknown_strings_parse_to_unspecified() {
    assert_eq!(PipelineStatus::parse("nonsense"), PipelineStatus::Unspecified);
    assert_eq!(BuildStatus::parse(""), BuildStatus::Unspecified);
    assert_eq!(StepStatus::parse("RUNNING"), StepStatus::Unspecified);
    assert_eq!(StepStatus::parse("unspecified"), StepStatus::Unspecified);
}

#[test]
fn test_unknown_codes_decode_to_unspecified() {
    assert_eq!(PipelineStatus::from_code(99), PipelineStatus::Unspecified);
    assert_eq!(BuildStatus::from_code(-1), BuildStatus::Unspecified);
    assert_eq!(StepStatus::from_code(8), StepStatus::Unspecified);
}

#[test]
fn test_db_status_round_trip() {
    for s in all_pipeline_statuses() {
        assert_eq!(DbPipelineStatus::from_status(s).to_status(), s);
    }
    for s in all_build_statuses() {
        assert_eq!(DbBuildStatus::from_status(s).to_status(), s);
    }
    for s in all_step_statuses() {
        assert_eq!(DbStepStatus::from_status(s).to_status(), s);
    }
}

#[test]
fn test_terminal_statuses() {
    assert!(StepStatus::Success.is_terminal());
    assert!(StepStatus::Failed.is_terminal());
    assert!(StepStatus::Cancelled.is_terminal());
    assert!(StepStatus::TimedOut.is_terminal());
    assert!(StepStatus::Skipped.is_terminal());
    assert!(!StepStatus::Pending.is_terminal());
    assert!(!StepStatus::Running.is_terminal());
    assert!(!StepStatus::Unspecified.is_terminal());
    assert!(BuildStatus::Cancelled.is_terminal());
    assert!(!BuildStatus::Running.is_terminal());
}
