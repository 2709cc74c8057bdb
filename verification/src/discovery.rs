//! The summary of an agent probe reported to the frontend.

use vstd::prelude::*;
use crate::capability_probe::AgentCapabilities;
use crate::text::clone_opt_string;

verus! {

#[derive(Debug, Clone)]
pub struct AgentProbeSummary {
    pub command: String,
    pub found: bool,
    pub resolved_path: Option<String>,
    pub version: Option<String>,
    pub capabilities: AgentCapabilities,
}

/// The summary of probing `command`: found when the probe detected the
/// agent, with the probed version and the resolved path.
pub fn build_probe_summary(command: String, capabilities: AgentCapabilities, resolved_path: Option<String>) -> (r: AgentProbeSummary)
    ensures
        r.command == command,
        r.found == capabilities.detected,
        r.resolved_path == resolved_path,
        r.version == capabilities.version,
        r.capabilities == capabilities,
{
    let version = clone_opt_string(&capabilities.version);
    AgentProbeSummary {
        command,
        found: capabilities.detected,
        resolved_path,
        version,
        capabilities,
    }
}

} // verus!
