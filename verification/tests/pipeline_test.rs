use orchestrator::pipeline::{build_scan_pipeline, PhaseResult, PipelineError};
use orchestrator::pipeline_composer::ComposerError;

#[test]
fn phase_result_debug() {
    let pr = PhaseResult {
        operations_applied: 5,
        findings_count: 2,
    };
    let dbg = format!("{pr:?}");
    assert!(dbg.contains("operations_applied"));
    assert!(dbg.contains("findings_count"));
    assert!(dbg.contains('5'));
    assert!(dbg.contains('2'));
}

#[test]
fn phase_result_clone() {
    let pr = PhaseResult {
        operations_applied: 10,
        findings_count: 3,
    };
    let cloned = pr.clone();
    assert_eq!(cloned.operations_applied, 10);
    assert_eq!(cloned.findings_count, 3);
}

#[test]
fn build_scan_pipeline_has_seven_stages() {
    let def = build_scan_pipeline(1, 2);
    assert_eq!(def.stages.len(), 7);
}

#[test]
fn build_scan_pipeline_validates_successfully() {
    let def = build_scan_pipeline(1, 2);
    assert!(
        orchestrator::pipeline_composer::validate_pipeline(&def).is_ok(),
        "scan pipeline DAG should be valid"
    );
}

#[test]
fn build_scan_pipeline_recon_and_crawl_have_no_dependencies() {
    let def = build_scan_pipeline(1, 2);
    let recon = def.stages.iter().find(|s| s.name == "recon").unwrap();
    let crawl = def.stages.iter().find(|s| s.name == "crawl").unwrap();
    assert!(recon.depends_on.is_empty());
    assert!(crawl.depends_on.is_empty());
}

#[test]
fn build_scan_pipeline_fingerprint_depends_on_recon_and_crawl() {
    let def = build_scan_pipeline(1, 2);
    let fp = def.stages.iter().find(|s| s.name == "fingerprint").unwrap();
    assert!(fp.depends_on.contains(&"recon".to_string()));
    assert!(fp.depends_on.contains(&"crawl".to_string()));
    assert!(fp.optional);
}

#[test]
fn build_scan_pipeline_fuzz_depends_on_fingerprint() {
    let def = build_scan_pipeline(1, 2);
    let fuzz = def.stages.iter().find(|s| s.name == "fuzz").unwrap();
    assert_eq!(fuzz.depends_on, vec!["fingerprint"]);
}

#[test]
fn build_scan_pipeline_analyze_and_dom_verify_depend_on_fuzz() {
    let def = build_scan_pipeline(1, 2);
    let analyze = def.stages.iter().find(|s| s.name == "analyze").unwrap();
    let dom_verify = def.stages.iter().find(|s| s.name == "dom_verify").unwrap();
    assert_eq!(analyze.depends_on, vec!["fuzz"]);
    assert_eq!(dom_verify.depends_on, vec!["fuzz"]);
}

#[test]
fn build_scan_pipeline_report_depends_on_analyze_and_dom_verify() {
    let def = build_scan_pipeline(1, 2);
    let report = def.stages.iter().find(|s| s.name == "report").unwrap();
    assert!(report.depends_on.contains(&"analyze".to_string()));
    assert!(report.depends_on.contains(&"dom_verify".to_string()));
}

#[test]
fn build_scan_pipeline_propagates_iteration_settings() {
    let def = build_scan_pipeline(5, 3);
    assert_eq!(def.max_iterations, 5);
    assert_eq!(def.convergence_threshold, 3);
}

#[test]
fn build_scan_pipeline_topological_order_respects_dependencies() {
    let def = build_scan_pipeline(1, 2);
    let order = orchestrator::pipeline_composer::topological_order(&def).unwrap();
    let pos = |name: &str| order.iter().position(|n| n == name).unwrap();
    assert!(pos("recon") < pos("fingerprint"));
    assert!(pos("crawl") < pos("fingerprint"));
    assert!(pos("fingerprint") < pos("fuzz"));
    assert!(pos("fuzz") < pos("analyze"));
    assert!(pos("fuzz") < pos("dom_verify"));
    assert!(pos("analyze") < pos("report"));
    assert!(pos("dom_verify") < pos("report"));
}

#[test]
fn build_scan_pipeline_execution_plan_has_parallel_waves() {
    let def = build_scan_pipeline(1, 2);
    let waves = orchestrator::pipeline_composer::execution_plan(&def).unwrap();
    assert!(waves[0].contains(&"recon".to_string()));
    assert!(waves[0].contains(&"crawl".to_string()));
    let analyze_wave = waves
        .iter()
        .position(|w| w.contains(&"analyze".to_string()))
        .unwrap();
    let dom_verify_wave = waves
        .iter()
        .position(|w| w.contains(&"dom_verify".to_string()))
        .unwrap();
    assert_eq!(
        analyze_wave, dom_verify_wave,
        "analyze and dom_verify should be in the same wave"
    );
}

#[test]
fn pipeline_error_display_audit_log() {
    let err = PipelineError::AuditLog("permission denied".to_string());
    let msg = err.to_string();
    assert_eq!(msg, "audit log: permission denied");
}

#[test]
fn pipeline_error_debug_audit_log() {
    let err = PipelineError::AuditLog("disk full".to_string());
    let dbg = format!("{err:?}");
    assert!(dbg.contains("AuditLog"));
    assert!(dbg.contains("disk full"));
}

#[test]
fn pipeline_error_display_composer() {
    let err = PipelineError::PipelineComposer(ComposerError::EmptyPipeline);
    let msg = err.to_string();
    assert!(msg.starts_with("pipeline definition:"));
    assert!(msg.contains("no stages"));
}

#[test]
fn pipeline_error_from_composer_error() {
    let composer_err = ComposerError::EmptyPipeline;
    let pipeline_err: PipelineError = composer_err.into();
    assert!(matches!(pipeline_err, PipelineError::PipelineComposer(_)));
}

#[test]
fn pipeline_error_stage_messages() {
    assert_eq!(PipelineError::Recon("recon failed".to_string()).to_string(), "recon: recon failed");
    assert_eq!(PipelineError::Config("bad url".to_string()).to_string(), "config: bad url");
    assert_eq!(PipelineError::DomVerify("x".to_string()).to_string(), "dom_verify: x");
    assert_eq!(PipelineError::InteractiveQuit.to_string(), "scan aborted by user");
}

#[test]
fn empty_iterations_converge_at_threshold() {
    let mut progress = orchestrator::pipeline::ScanProgress::new();
    assert!(orchestrator::pipeline::finish_fuzz_iteration(&mut progress, 0, 0, 0, 2, 5));
    assert_eq!(progress.consecutive_zero_findings, 1);
    assert!(!orchestrator::pipeline::finish_fuzz_iteration(&mut progress, 1, 0, 0, 2, 5));
    assert_eq!(progress.consecutive_zero_findings, 2);
}

#[test]
fn a_finding_resets_convergence() {
    let mut progress = orchestrator::pipeline::ScanProgress::new();
    orchestrator::pipeline::update_convergence(&mut progress, 0, 0);
    orchestrator::pipeline::update_convergence(&mut progress, 0, 3);
    assert_eq!(progress.consecutive_zero_findings, 0);
    assert!(orchestrator::pipeline::finish_fuzz_iteration(&mut progress, 1, 1, 0, 1, 5));
}

#[test]
fn last_iteration_never_goes_on() {
    let mut progress = orchestrator::pipeline::ScanProgress::new();
    assert!(!orchestrator::pipeline::finish_fuzz_iteration(&mut progress, 4, 2, 0, 3, 5));
    assert!(!orchestrator::pipeline::fuzz_loop_converged(9, 3, 4, 5));
}

#[test]
fn pipeline_error_display_config() {
    let err = PipelineError::Config("target must be localhost: example.com".to_string());
    let msg = err.to_string();
    assert!(msg.starts_with("config:"));
    assert!(msg.contains("example.com"));
}

#[test]
fn pipeline_error_display_recon() {
    let err = PipelineError::Recon("recon failed".to_string());
    let msg = err.to_string();
    assert!(msg.starts_with("recon:"));
    assert!(msg.contains("recon failed"));
}

#[test]
fn pipeline_error_display_fingerprint() {
    let err = PipelineError::Fingerprint("fp failed".to_string());
    let msg = err.to_string();
    assert!(msg.starts_with("fingerprint:"));
    assert!(msg.contains("fp failed"));
}

#[test]
fn pipeline_error_display_fuzz() {
    let err = PipelineError::Fuzz("fuzz failed".to_string());
    let msg = err.to_string();
    assert!(msg.starts_with("fuzz:"));
    assert!(msg.contains("fuzz failed"));
}

#[test]
fn pipeline_error_display_analysis() {
    let err = PipelineError::Analysis("analysis failed".to_string());
    let msg = err.to_string();
    assert!(msg.starts_with("analysis:"));
    assert!(msg.contains("analysis failed"));
}

#[test]
fn pipeline_error_display_dom_verify() {
    let err = PipelineError::DomVerify("dom verify failed".to_string());
    let msg = err.to_string();
    assert!(msg.starts_with("dom_verify:"));
    assert!(msg.contains("dom verify failed"));
}

#[test]
fn pipeline_error_display_report() {
    let err = PipelineError::Report("report failed".to_string());
    let msg = err.to_string();
    assert!(msg.starts_with("report:"));
    assert!(msg.contains("report failed"));
}

#[test]
fn pipeline_error_debug() {
    let err = PipelineError::Recon("test".to_string());
    let dbg = format!("{err:?}");
    assert!(dbg.contains("Recon"));
}
