use librepods_core::ci_pipeline::{CIPipeline, PipelineStage, StageStatus};

#[test]
fn test_pipeline_creation() {
    let pipeline = CIPipeline::new("pipeline-1".to_string(), "main".to_string(), "abc123".to_string());
    assert_eq!(pipeline.pipeline_id, "pipeline-1");
    assert_eq!(pipeline.total_stages, 0);
}

#[test]
fn test_add_stage() {
    let mut pipeline = CIPipeline::new("pipeline-1".to_string(), "main".to_string(), "abc123".to_string());
    let stage = PipelineStage {
        stage_id: "stage-1".to_string(),
        stage_name: "Build".to_string(),
        description: "Build stage".to_string(),
        commands: vec!["cargo build".to_string()],
        timeout_seconds: 300,
        status: StageStatus::Pending,
        duration_ms: 0,
        error_message: None,
    };
    pipeline.add_stage(stage);
    assert_eq!(pipeline.total_stages, 1);
}

#[test]
fn test_update_stage_status() {
    let mut pipeline = CIPipeline::new("pipeline-1".to_string(), "main".to_string(), "abc123".to_string());
    let stage = PipelineStage {
        stage_id: "stage-1".to_string(),
        stage_name: "Build".to_string(),
        description: "Build stage".to_string(),
        commands: vec!["cargo build".to_string()],
        timeout_seconds: 300,
        status: StageStatus::Pending,
        duration_ms: 0,
        error_message: None,
    };
    pipeline.add_stage(stage);
    pipeline.update_stage_status("stage-1", StageStatus::Success, 5000);
    assert_eq!(pipeline.completed_stages, 1);
}

#[test]
fn test_is_successful() {
    let mut pipeline = CIPipeline::new("pipeline-1".to_string(), "main".to_string(), "abc123".to_string());
    let stage = PipelineStage {
        stage_id: "stage-1".to_string(),
        stage_name: "Build".to_string(),
        description: "Build stage".to_string(),
        commands: vec!["cargo build".to_string()],
        timeout_seconds: 300,
        status: StageStatus::Pending,
        duration_ms: 0,
        error_message: None,
    };
    pipeline.add_stage(stage);
    pipeline.update_stage_status("stage-1", StageStatus::Success, 5000);
    assert!(pipeline.is_successful());
}
