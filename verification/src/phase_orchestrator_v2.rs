//! The phases of a scan and the outcome of running one.
use vstd::prelude::*;
use std::time::Duration;

verus! {

/// A phase of a scan.
#[derive(Debug, Clone, Copy, PartialEq, Eq, Hash, Structural)]
pub enum PhaseId {
    Recon,
    Crawl,
    Enumerate,
    Fingerprint,
    Fuzz,
    Exploit,
    ChainSynthesis,
    Report,
}

impl PhaseId {
    /// The phase's name.
    pub open spec fn label(self) -> Seq<char> {
        match self {
            PhaseId::Recon => "recon"@,
            PhaseId::Crawl => "crawl"@,
            PhaseId::Enumerate => "enumerate"@,
            PhaseId::Fingerprint => "fingerprint"@,
            PhaseId::Fuzz => "fuzz"@,
            PhaseId::Exploit => "exploit"@,
            PhaseId::ChainSynthesis => "chain_synthesis"@,
            PhaseId::Report => "report"@,
        }
    }

    /// Renders the phase's name.
    pub fn to_string(&self) -> (s: String)
        ensures s@ == self.label(),
    {
        match self {
            PhaseId::Recon => String::from_str("recon"),
            PhaseId::Crawl => String::from_str("crawl"),
            PhaseId::Enumerate => String::from_str("enumerate"),
            PhaseId::Fingerprint => String::from_str("fingerprint"),
            PhaseId::Fuzz => String::from_str("fuzz"),
            PhaseId::Exploit => String::from_str("exploit"),
            PhaseId::ChainSynthesis => String::from_str("chain_synthesis"),
            PhaseId::Report => String::from_str("report"),
        }
    }
}

/// Where a phase stands.
#[derive(Debug, Clone, Copy, PartialEq, Eq, Structural)]
pub enum PhaseStatus {
    Pending,
    Running,
    Completed,
    Failed,
    Skipped,
}

impl PhaseStatus {
    /// The status's name.
    pub open spec fn label(self) -> Seq<char> {
        match self {
            PhaseStatus::Pending => "pending"@,
            PhaseStatus::Running => "running"@,
            PhaseStatus::Completed => "completed"@,
            PhaseStatus::Failed => "failed"@,
            PhaseStatus::Skipped => "skipped"@,
        }
    }

    /// Renders the status's name.
    pub fn to_string(&self) -> (s: String)
        ensures s@ == self.label(),
    {
        match self {
            PhaseStatus::Pending => String::from_str("pending"),
            PhaseStatus::Running => String::from_str("running"),
            PhaseStatus::Completed => String::from_str("completed"),
            PhaseStatus::Failed => String::from_str("failed"),
            PhaseStatus::Skipped => String::from_str("skipped"),
        }
    }
}

/// What running one phase produced.
#[derive(Debug, Clone, Copy)]
pub struct PhaseOutcome {
    pub phase: PhaseId,
    pub status: PhaseStatus,
    pub duration: Duration,
    pub operations_applied: u64,
    pub findings_count: u64,
    pub endpoints_discovered: u64,
}

} // verus!
