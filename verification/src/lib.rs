use vstd::prelude::*;

pub mod clock;
pub mod text;
pub mod strings;
pub mod recon_client;
pub mod order;
pub mod html;
pub mod phase_orchestrator_v2;
pub mod pip_audit;
pub mod playbook_engine;
pub mod pipeline_composer;
pub mod pipeline;
pub mod pipeline_executor_v3;
pub mod plugin_loader;
pub mod pointer_lock_audit;
pub mod popover_audit;
pub mod postmessage_audit;
pub mod preconnect_audit;
pub mod presentation_audit;
pub mod priority_hints_audit;
pub mod progress_reporter;
pub mod prototype_pollution_audit;
pub mod proxy_header_audit;
pub mod race_engine;
pub mod rate_limit_detector;
pub mod redirect_scanner;
pub mod referrer_audit;
pub mod reporting_api_audit;
pub mod reporting_endpoints_audit;
pub mod request_smuggling_audit;
pub mod resize_observer_audit;
pub mod resource_timing_audit;
pub mod response_dedup;

verus! {

} // verus!
