//! Execution modes, session descriptions handed to the UI, and the choice of
//! the backend that serves a request.

use vstd::prelude::*;
use vstd::string::*;
use crate::restoration::RestorationError;
use crate::session_store::{status_text, title_source_text, SessionRecord, SessionStoreError, TokenUsage};
use crate::text::{clone_opt_string, contains_string, decimal_spec, str_eq, strings_view, u64_to_decimal};

verus! {

/// Context passed from the UI layer to the active backend.
#[derive(Debug, Clone)]
pub struct AgentContext {
    pub cwd: Option<String>,
    pub terminal_context: Option<String>,
    pub workspace_files: Vec<String>,
}

/// A resumed session.
#[derive(Debug, Clone)]
pub struct SessionHandle {
    pub session_id: String,
    pub messages: Vec<String>,
    pub title: Option<String>,
    pub status: String,
}

/// A session as listed to the UI.
#[derive(Debug, Clone)]
pub struct SessionInfo {
    pub session_id: String,
    pub title: Option<String>,
    pub title_source: Option<String>,
    pub agent_id: String,
    pub status: String,
    /// Seconds since the epoch, in decimal.
    pub created_at: String,
    /// Seconds since the epoch, in decimal.
    pub updated_at: String,
    pub last_message_preview: Option<String>,
    pub token_usage: Option<TokenUsage>,
}

/// The listing of a stored session.
pub open spec fn info_of_record(r: SessionRecord, i: SessionInfo) -> bool {
    &&& i.session_id == r.session_id
    &&& i.title == r.title
    &&& i.title_source is Some
    &&& i.title_source->0@ == title_source_text(r.title_source)
    &&& i.agent_id == r.agent_id
    &&& i.status@ == status_text(r.status)
    &&& i.created_at@ == decimal_spec(r.created_at as nat)
    &&& i.updated_at@ == decimal_spec(r.updated_at as nat)
    &&& i.last_message_preview == r.last_message_preview
    &&& i.token_usage == r.token_usage
}

impl SessionInfo {
    /// The listing of a stored session: the status and title source as
    /// their stored text, the timestamps in decimal.
    pub fn from_record(r: SessionRecord) -> (i: SessionInfo)
        ensures
            info_of_record(r, i),
    {
        let title_source = r.title_source.as_str().to_owned();
        let status = r.status.as_str().to_owned();
        let created_at = u64_to_decimal(r.created_at);
        let updated_at = u64_to_decimal(r.updated_at);
        SessionInfo {
            session_id: r.session_id,
            title: r.title,
            title_source: Some(title_source),
            agent_id: r.agent_id,
            status,
            created_at,
            updated_at,
            last_message_preview: r.last_message_preview,
            token_usage: r.token_usage,
        }
    }
}

impl vstd::std_specs::convert::FromSpecImpl<SessionRecord> for SessionInfo {
    /// The conversion builds text that a spec value cannot hold: it is stated
    /// as a relation, `info_of_record`, on `from` itself.
    open spec fn obeys_from_spec() -> bool {
        false
    }

    open spec fn from_spec(v: SessionRecord) -> Self {
        arbitrary()
    }
}

impl From<SessionRecord> for SessionInfo {
    fn from(r: SessionRecord) -> (i: Self)
        ensures
            info_of_record(r, i),
    {
        SessionInfo::from_record(r)
    }
}

/// Execution mode: switches between the API provider and ACP agent backends.
#[derive(Debug, Clone, Copy, PartialEq, Eq, Structural)]
pub enum ExecutionMode {
    ApiProvider,
    AcpAgent,
}

/// The text of a mode, which is also the id of the backend serving it.
pub open spec fn mode_text(m: ExecutionMode) -> Seq<char> {
    match m {
        ExecutionMode::ApiProvider => "api_provider"@,
        ExecutionMode::AcpAgent => "acp_agent"@,
    }
}

/// The mode named by `s`; anything but `acp_agent` is the API provider.
pub open spec fn mode_of_text(s: Seq<char>) -> ExecutionMode {
    if s == "acp_agent"@ {
        ExecutionMode::AcpAgent
    } else {
        ExecutionMode::ApiProvider
    }
}

impl ExecutionMode {
    /// The id of the backend that serves this mode.
    pub fn backend_id(&self) -> (r: &'static str)
        ensures
            r@ == mode_text(*self),
    {
        match self {
            ExecutionMode::ApiProvider => "api_provider",
            ExecutionMode::AcpAgent => "acp_agent",
        }
    }

    /// The text of the mode (`api_provider` or `acp_agent`).
    pub fn to_string(&self) -> (r: String)
        ensures
            r@ == mode_text(*self),
    {
        self.backend_id().to_owned()
    }
}

impl<'a> vstd::std_specs::convert::FromSpecImpl<&'a str> for ExecutionMode {
    open spec fn obeys_from_spec() -> bool {
        true
    }

    open spec fn from_spec(v: &'a str) -> Self {
        mode_of_text(v@)
    }
}

impl<'a> From<&'a str> for ExecutionMode {
    fn from(s: &'a str) -> (r: Self) {
        if str_eq(s, "acp_agent") {
            ExecutionMode::AcpAgent
        } else {
            ExecutionMode::ApiProvider
        }
    }
}

/// Errors of the router.
#[derive(Debug, Clone)]
pub enum RouterError {
    /// No backend registered for the mode of that name.
    NoBackend(String),
    BackendError(String),
    StoreError(SessionStoreError),
    RestorationError(RestorationError),
    SessionNotFound(String),
    ProbeError(String),
    NotSupported,
}

/// The backend serving `mode` among the registered backend ids: its id when
/// it is registered, and otherwise `NoBackend` with the name of the mode.
pub fn route(mode: ExecutionMode, registered: &Vec<String>) -> (r: Result<String, RouterError>)
    ensures
        strings_view(registered@).contains(mode_text(mode)) ==> (r matches Ok(id) && id@ == mode_text(mode)),
        !strings_view(registered@).contains(mode_text(mode)) ==> (r matches Err(RouterError::NoBackend(name))
            && name@ == mode_text(mode)),
{
    let id = mode.backend_id();
    if contains_string(registered, id) {
        Ok(id.to_owned())
    } else {
        Err(RouterError::NoBackend(mode.to_string()))
    }
}

/// Every mode reads back as itself from its text; unknown text selects the
/// API provider.
pub proof fn lemma_mode_text_roundtrip(m: ExecutionMode)
    ensures
        mode_of_text(mode_text(m)) == m,
        mode_of_text(Seq::<char>::empty()) == ExecutionMode::ApiProvider,
{
    reveal_strlit("acp_agent");
    reveal_strlit("api_provider");
    assert("api_provider"@.len() != "acp_agent"@.len());
    assert(Seq::<char>::empty().len() != "acp_agent"@.len());
}

} // verus!
