//! The restoration outcome in the shape the frontend receives.

use vstd::prelude::*;
use crate::restoration::RestorationOutcome;

verus! {

/// Serializable restoration outcome for the frontend.
#[derive(Debug, Clone)]
pub enum SerdeOutcome {
    Full {
        session_id: String,
        title: Option<String>,
        title_source: Option<String>,
        agent_id: String,
    },
    Degraded { session_id: String, failed_may: Vec<String> },
    Failed { session_id: String, failed_must: Vec<String>, error: String },
}

/// The frontend outcome of a restoration outcome: the session id and, for a
/// full restore, the must items; for the others, what failed.
pub open spec fn serde_outcome_of(o: RestorationOutcome) -> SerdeOutcome {
    match o {
        RestorationOutcome::Full(c) => SerdeOutcome::Full {
            session_id: c.session_id,
            title: c.must.title,
            title_source: c.must.title_source,
            agent_id: c.must.agent_id,
        },
        RestorationOutcome::Degraded { contract, failed_may } => SerdeOutcome::Degraded {
            session_id: contract.session_id,
            failed_may,
        },
        RestorationOutcome::Failed { contract, failed_must, error } => SerdeOutcome::Failed {
            session_id: contract.session_id,
            failed_must,
            error,
        },
    }
}

impl vstd::std_specs::convert::FromSpecImpl<RestorationOutcome> for SerdeOutcome {
    open spec fn obeys_from_spec() -> bool {
        true
    }

    open spec fn from_spec(v: RestorationOutcome) -> Self {
        serde_outcome_of(v)
    }
}

impl From<RestorationOutcome> for SerdeOutcome {
    fn from(o: RestorationOutcome) -> (r: Self) {
        match o {
            RestorationOutcome::Full(contract) => SerdeOutcome::Full {
                session_id: contract.session_id,
                title: contract.must.title,
                title_source: contract.must.title_source,
                agent_id: contract.must.agent_id,
            },
            RestorationOutcome::Degraded { contract, failed_may } => SerdeOutcome::Degraded {
                session_id: contract.session_id,
                failed_may,
            },
            RestorationOutcome::Failed { contract, failed_must, error } => SerdeOutcome::Failed {
                session_id: contract.session_id,
                failed_must,
                error,
            },
        }
    }
}

} // verus!
