//! The restoration contract: what a session load recovers, what it may
//! recover, and what it drops; and the status gate in front of a load.

use std::time::Instant;
use uuid::Uuid;
use vstd::prelude::*;
use vstd::string::*;
use crate::capability_probe::instant_now;
use crate::session_store::{
    title_source_text, ReconcilePlan, SessionRecord, SessionStatus, SessionStoreError, TokenUsage,
};
use crate::text::{clone_opt_string, str_eq};

verus! {

#[verifier::external_type_specification]
#[verifier::external_body]
pub struct ExUuid(Uuid);

/// `Uuid` derives `Clone` and `Copy`; its `clone` returns the same id.
pub assume_specification[ <Uuid as Clone>::clone ](u: &Uuid) -> (r: Uuid)
    ensures
        r == *u,
;

/// The boolean at member `key` of the JSON object in `text`; `None` when the
/// text is not JSON, not an object, or the member is missing or not a boolean.
pub uninterp spec fn json_bool_member(text: Seq<char>, key: Seq<char>) -> Option<bool>;

/// The string at member `key` of the JSON object in `text`; `None` when the
/// text is not JSON, not an object, or the member is missing or not a string.
pub uninterp spec fn json_str_member(text: Seq<char>, key: Seq<char>) -> Option<Seq<char>>;

/// The length of the array at member `key` of the JSON object in `text`;
/// `None` when the text is not JSON, not an object, or the member is missing
/// or not an array.
pub uninterp spec fn json_array_member_len(text: Seq<char>, key: Seq<char>) -> Option<nat>;

/// `serde_json::from_str` into a `Value`, then `Value::get(key)` and
/// `Value::as_bool`: the boolean member `key` of the JSON text, named
/// `json_bool_member`.
#[verifier::external_body]
fn read_json_bool(text: &str, key: &str) -> (r: Option<bool>)
    ensures
        r == json_bool_member(text@, key@),
{
    match serde_json::from_str::<serde_json::Value>(text) {
        Ok(v) => v.get(key).and_then(serde_json::Value::as_bool),
        Err(_) => None,
    }
}

/// `serde_json::from_str` into a `Value`, then `Value::get(key)` and
/// `Value::as_str`: the string member `key` of the JSON text, named
/// `json_str_member`.
#[verifier::external_body]
fn read_json_str(text: &str, key: &str) -> (r: Option<String>)
    ensures
        match r {
            Some(s) => json_str_member(text@, key@) == Some(s@),
            None => json_str_member(text@, key@) is None,
        },
{
    match serde_json::from_str::<serde_json::Value>(text) {
        Ok(v) => v.get(key).and_then(serde_json::Value::as_str).map(String::from),
        Err(_) => None,
    }
}

/// `serde_json::from_str` into a `Value`, then `Value::get(key)` and
/// `Value::as_array`: the length of the array member `key` of the JSON text,
/// named `json_array_member_len`.
#[verifier::external_body]
fn read_json_array_len(text: &str, key: &str) -> (r: Option<usize>)
    ensures
        match r {
            Some(n) => json_array_member_len(text@, key@) == Some(n as nat),
            None => json_array_member_len(text@, key@) is None,
        },
{
    match serde_json::from_str::<serde_json::Value>(text) {
        Ok(v) => v.get(key).and_then(serde_json::Value::as_array).map(Vec::len),
        Err(_) => None,
    }
}

/// Items that must be restored. Failure means the session load fails.
#[derive(Debug, Clone)]
pub struct MustRestore {
    pub message_history: bool,
    pub title: Option<String>,
    pub title_source: Option<String>,
    pub token_usage: Option<TokenUsage>,
    pub agent_id: String,
}

/// Items that may be restored, best effort; failure degrades gracefully.
#[derive(Debug, Clone)]
pub struct MayRestore {
    pub pending_approvals: bool,
    pub interrupted_tools: bool,
    pub diff_queue: bool,
    pub active_model: Option<String>,
    pub session_mode: Option<String>,
}

/// An item intentionally dropped on session load.
#[derive(Debug, Clone)]
pub struct DroppedItem {
    pub name: String,
    pub rationale: String,
}

/// What is recovered when a session loads. This module is the single
/// restoration authority.
#[derive(Debug, Clone)]
pub struct RestorationContract {
    pub session_id: String,
    pub must: MustRestore,
    pub may: MayRestore,
    pub dropped: Vec<DroppedItem>,
}

/// The items every load drops, with the reason for each.
pub open spec fn dropped_items_spec(d: Seq<DroppedItem>) -> bool {
    &&& d.len() == 4
    &&& d[0].name@ == "In-flight shell processes"@
    &&& d[0].rationale@ == "Shell state is ephemeral. Cannot be resumed. User must re-run."@
    &&& d[1].name@ == "Scroll position"@
    &&& d[1].rationale@ == "Too brittle. User scrolls to position naturally after reload."@
    &&& d[2].name@ == "Unsent draft text"@
    &&& d[2].rationale@ == "Saved to local store last_draft. MAY restore but not guaranteed."@
    &&& d[3].name@ == "Temporary render state"@
    &&& d[3].rationale@ == "Caches, animations, collapsed/expanded UI state. All thrown away."@
}

/// Nothing of the optional items restored.
pub open spec fn may_nothing(m: MayRestore) -> bool {
    &&& !m.pending_approvals
    &&& !m.interrupted_tools
    &&& !m.diff_queue
    &&& m.active_model is None
    &&& m.session_mode is None
}

fn dropped_items() -> (r: Vec<DroppedItem>)
    ensures
        dropped_items_spec(r@),
{
    let mut d: Vec<DroppedItem> = Vec::new();
    d.push(DroppedItem {
        name: "In-flight shell processes".to_owned(),
        rationale: "Shell state is ephemeral. Cannot be resumed. User must re-run.".to_owned(),
    });
    d.push(DroppedItem {
        name: "Scroll position".to_owned(),
        rationale: "Too brittle. User scrolls to position naturally after reload.".to_owned(),
    });
    d.push(DroppedItem {
        name: "Unsent draft text".to_owned(),
        rationale: "Saved to local store last_draft. MAY restore but not guaranteed.".to_owned(),
    });
    d.push(DroppedItem {
        name: "Temporary render state".to_owned(),
        rationale: "Caches, animations, collapsed/expanded UI state. All thrown away.".to_owned(),
    });
    d
}

impl Default for RestorationContract {
    fn default() -> (r: Self)
        ensures
            r.session_id@ == Seq::<char>::empty(),
            r.must.message_history,
            r.must.title is None,
            r.must.title_source is None,
            r.must.token_usage is None,
            r.must.agent_id@ == Seq::<char>::empty(),
            may_nothing(r.may),
            dropped_items_spec(r.dropped@),
    {
        RestorationContract {
            session_id: String::new(),
            must: MustRestore {
                message_history: true,
                title: None,
                title_source: None,
                token_usage: None,
                agent_id: String::new(),
            },
            may: MayRestore {
                pending_approvals: false,
                interrupted_tools: false,
                diff_queue: false,
                active_model: None,
                session_mode: None,
            },
            dropped: dropped_items(),
        }
    }
}

/// What to do when a `may` item fails during restore.
#[derive(Debug, Clone, Copy, PartialEq, Eq, Structural)]
pub enum DegradationPolicy {
    /// Skip the item entirely, session still loads.
    Skip,
    /// Retry once after 1 second.
    RetryOnce,
    /// Mark as unavailable, expose in UI.
    Unavailable,
}

/// The degradation policy of each `may` item; unknown items are skipped.
pub open spec fn policy_for_item(item: Seq<char>) -> DegradationPolicy {
    if item == "interrupted_tools"@ {
        DegradationPolicy::RetryOnce
    } else if item == "active_model"@ || item == "session_mode"@ {
        DegradationPolicy::Unavailable
    } else {
        DegradationPolicy::Skip
    }
}

impl RestorationContract {
    /// What to do when a `may` item fails during restore.
    pub fn degradation_policy_for(&self, may_item: &str) -> (r: DegradationPolicy)
        ensures
            r == policy_for_item(may_item@),
    {
        proof {
            reveal_strlit("pending_approvals");
            reveal_strlit("interrupted_tools");
            reveal_strlit("diff_queue");
            reveal_strlit("active_model");
            reveal_strlit("session_mode");
            assert("pending_approvals"@[0] != "interrupted_tools"@[0]);
            assert("pending_approvals"@.len() != "active_model"@.len());
            assert("pending_approvals"@.len() != "session_mode"@.len());
            assert("diff_queue"@.len() != "interrupted_tools"@.len());
            assert("diff_queue"@.len() != "active_model"@.len());
            assert("diff_queue"@.len() != "session_mode"@.len());
        }
        if str_eq(may_item, "pending_approvals") {
            DegradationPolicy::Skip
        } else if str_eq(may_item, "interrupted_tools") {
            DegradationPolicy::RetryOnce
        } else if str_eq(may_item, "diff_queue") {
            DegradationPolicy::Skip
        } else if str_eq(may_item, "active_model") {
            DegradationPolicy::Unavailable
        } else if str_eq(may_item, "session_mode") {
            DegradationPolicy::Unavailable
        } else {
            DegradationPolicy::Skip
        }
    }
}

/// Outcome of a restoration attempt.
#[derive(Debug, Clone)]
pub enum RestorationOutcome {
    Full(RestorationContract),
    Degraded { contract: RestorationContract, failed_may: Vec<String> },
    Failed { contract: RestorationContract, failed_must: Vec<String>, error: String },
}

#[derive(Debug, Clone)]
pub enum RestorationError {
    /// A must-restore item failed: the item and the reason.
    MustItemFailed(String, String),
    Expired,
    AgentOffline(String),
    StoreError(SessionStoreError),
}

/// Every session action gets a trace id for end-to-end tracing.
#[derive(Debug, Clone)]
pub struct SessionAction {
    pub trace_id: Uuid,
    pub session_id: String,
    pub action: ActionKind,
    pub started_at: Instant,
}

#[derive(Debug, Clone, Copy, PartialEq, Eq, Structural)]
pub enum ActionKind {
    Load,
    Resume,
    Close,
    Delete,
    Rename,
    Save,
    Approve,
}

impl SessionAction {
    /// A new action under the trace id `trace_id` (drawn fresh by the
    /// caller), started now.
    pub fn new(session_id: String, action: ActionKind, trace_id: Uuid) -> (r: Self)
        ensures
            r.session_id == session_id,
            r.action == action,
            r.trace_id == trace_id,
    {
        Self { trace_id, session_id, action, started_at: instant_now() }
    }
}

/// The character view of an optional string.
pub open spec fn opt_view(o: Option<String>) -> Option<Seq<char>> {
    match o {
        Some(s) => Some(s@),
        None => None,
    }
}

/// The optional items filled from what the session metadata holds: a flag is
/// set only when the metadata holds `true` for it, and the diff queue is never
/// restored from metadata.
pub open spec fn may_from_lookups_spec(
    pending: Option<bool>,
    interrupted: Option<bool>,
    model: Option<Seq<char>>,
    mode: Option<Seq<char>>,
    m: MayRestore,
) -> bool {
    &&& m.pending_approvals == (pending == Some(true))
    &&& m.interrupted_tools == (interrupted == Some(true))
    &&& !m.diff_queue
    &&& opt_view(m.active_model) == model
    &&& opt_view(m.session_mode) == mode
}

/// The optional items of a restoration, from what was looked up in the
/// session metadata.
pub fn may_restore_from_lookups(
    pending_approvals: Option<bool>,
    interrupted_tools: Option<bool>,
    active_model: Option<String>,
    session_mode: Option<String>,
) -> (r: MayRestore)
    ensures
        may_from_lookups_spec(pending_approvals, interrupted_tools, opt_view(active_model), opt_view(session_mode), r),
{
    MayRestore {
        pending_approvals: match pending_approvals {
            Some(b) => b,
            None => false,
        },
        interrupted_tools: match interrupted_tools {
            Some(b) => b,
            None => false,
        },
        diff_queue: false,
        active_model,
        session_mode,
    }
}

/// Each optional item is read from the metadata member of its own name: the
/// flags are set exactly when their member holds `true`, the model and mode are
/// the strings their members hold, and the diff queue is never restored; with
/// no metadata nothing optional is restored.
pub open spec fn may_items_by_name(meta: Option<String>, m: MayRestore) -> bool {
    match meta {
        None => !m.pending_approvals && !m.interrupted_tools && !m.diff_queue && m.active_model is None
            && m.session_mode is None,
        Some(t) => {
            &&& m.pending_approvals == (json_bool_member(t@, "pending_approvals"@) == Some(true))
            &&& m.interrupted_tools == (json_bool_member(t@, "interrupted_tools"@) == Some(true))
            &&& !m.diff_queue
            &&& opt_view(m.active_model) == json_str_member(t@, "active_model"@)
            &&& opt_view(m.session_mode) == json_str_member(t@, "session_mode"@)
        },
    }
}

/// The optional items restored from the JSON metadata text of a session.
pub open spec fn may_from_meta_spec(meta: Option<String>, m: MayRestore) -> bool {
    match meta {
        None => may_nothing(m),
        Some(t) => may_from_lookups_spec(
            json_bool_member(t@, "pending_approvals"@),
            json_bool_member(t@, "interrupted_tools"@),
            json_str_member(t@, "active_model"@),
            json_str_member(t@, "session_mode"@),
            m,
        ),
    }
}

fn may_restore_from_meta(meta: &Option<String>) -> (r: MayRestore)
    ensures
        may_from_meta_spec(*meta, r),
{
    match meta {
        None => MayRestore {
            pending_approvals: false,
            interrupted_tools: false,
            diff_queue: false,
            active_model: None,
            session_mode: None,
        },
        Some(t) => {
            let text = t.as_str();
            let pending = read_json_bool(text, "pending_approvals");
            let interrupted = read_json_bool(text, "interrupted_tools");
            let model = read_json_str(text, "active_model");
            let mode = read_json_str(text, "session_mode");
            may_restore_from_lookups(pending, interrupted, model, mode)
        },
    }
}

/// The contract restored for `session_id` from its stored record.
pub open spec fn contract_from_record_spec(session_id: Seq<char>, rec: SessionRecord, c: RestorationContract) -> bool {
    &&& c.session_id@ == session_id
    &&& c.must.message_history
    &&& c.must.title == rec.title
    &&& c.must.title_source == Some(c.must.title_source->0)
    &&& c.must.title_source->0@ == title_source_text(rec.title_source)
    &&& c.must.token_usage == rec.token_usage
    &&& c.must.agent_id@ == rec.agent_id@
    &&& may_from_meta_spec(rec.meta, c.may)
    &&& dropped_items_spec(c.dropped@)
}

/// A restore reads each optional item from the metadata member of its own
/// name.
pub proof fn lemma_may_items_read_by_name(meta: Option<String>, m: MayRestore)
    requires
        may_from_meta_spec(meta, m),
    ensures
        may_items_by_name(meta, m),
{
}

/// The status gate and contract of a session load, from the stored record
/// (`None` when the store has no such session): a missing or deleted session
/// fails a must item, an expired one is `Expired`, an unreachable one is
/// `AgentOffline`; any other is restored in full from local data.
pub fn restore_from_record(session_id: &str, record: Option<&SessionRecord>) -> (r: Result<RestorationOutcome, RestorationError>)
    ensures
        match record {
            None => r matches Err(RestorationError::MustItemFailed(item, reason))
                && item@ == "session_record"@ && reason@ == "Session not found in local store"@,
            Some(rec) => match rec.status {
                SessionStatus::Expired => r matches Err(RestorationError::Expired),
                SessionStatus::Unreachable => r matches Err(RestorationError::AgentOffline(msg))
                    && msg@ == "Agent is currently unreachable. Try again later."@,
                SessionStatus::Deleted => r matches Err(RestorationError::MustItemFailed(item, reason))
                    && item@ == "session_record"@ && reason@ == "Session has been deleted"@,
                _ => r matches Ok(RestorationOutcome::Full(c)) && contract_from_record_spec(session_id@, *rec, c),
            },
        },
        (record matches Some(rec) && (r matches Ok(RestorationOutcome::Full(c)) && may_items_by_name(rec.meta, c.may)))
            || !(r is Ok),
{
    let rec = match record {
        Some(rec) => rec,
        None => {
            return Err(RestorationError::MustItemFailed(
                "session_record".to_owned(),
                "Session not found in local store".to_owned(),
            ));
        },
    };
    match rec.status {
        SessionStatus::Expired => {
            return Err(RestorationError::Expired);
        },
        SessionStatus::Unreachable => {
            return Err(RestorationError::AgentOffline(
                "Agent is currently unreachable. Try again later.".to_owned(),
            ));
        },
        SessionStatus::Deleted => {
            return Err(RestorationError::MustItemFailed(
                "session_record".to_owned(),
                "Session has been deleted".to_owned(),
            ));
        },
        _ => {},
    }
    let may = may_restore_from_meta(&rec.meta);
    proof {
        lemma_may_items_read_by_name(rec.meta, may);
    }
    let contract = RestorationContract {
        session_id: session_id.to_owned(),
        must: MustRestore {
            message_history: true,
            title: clone_opt_string(&rec.title),
            title_source: Some(rec.title_source.as_str().to_owned()),
            token_usage: rec.token_usage,
            agent_id: rec.agent_id.clone(),
        },
        may,
        dropped: dropped_items(),
    };
    Ok(RestorationOutcome::Full(contract))
}

/// The pre-load validation of a session from its stored record (`None` when
/// the store has no such session): `Ok` exactly for a session that is valid
/// and loadable, one that is active, idle or closed. Missing and deleted
/// sessions fail a must item, expired ones are `Expired`, and unreachable ones
/// are `AgentOffline`, as a load of them would be.
pub fn validate_record(record: Option<&SessionRecord>) -> (r: Result<(), RestorationError>)
    ensures
        match record {
            None => r matches Err(RestorationError::MustItemFailed(item, reason))
                && item@ == "session_record"@ && reason@ == "Session not found"@,
            Some(rec) => match rec.status {
                SessionStatus::Expired => r matches Err(RestorationError::Expired),
                SessionStatus::Deleted => r matches Err(RestorationError::MustItemFailed(item, reason))
                    && item@ == "session_record"@ && reason@ == "Session deleted"@,
                SessionStatus::Unreachable => r matches Err(RestorationError::AgentOffline(msg))
                    && msg@ == "Agent is currently unreachable. Try again later."@,
                _ => r is Ok,
            },
        },
{
    match record {
        None => Err(RestorationError::MustItemFailed("session_record".to_owned(), "Session not found".to_owned())),
        Some(rec) => match rec.status {
            SessionStatus::Expired => Err(RestorationError::Expired),
            SessionStatus::Deleted => Err(
                RestorationError::MustItemFailed("session_record".to_owned(), "Session deleted".to_owned()),
            ),
            SessionStatus::Unreachable => Err(
                RestorationError::AgentOffline("Agent is currently unreachable. Try again later.".to_owned()),
            ),
            _ => Ok(()),
        },
    }
}

/// Report produced by a reconcile operation.
#[derive(Debug, Clone)]
pub struct ReconcileReport {
    /// unreachable -> idle
    pub recovered: Vec<String>,
    /// active/idle -> unreachable
    pub newly_unreachable: Vec<String>,
    /// confirmed dead
    pub expired: Vec<String>,
    /// expired sessions older than 30 days that were removed
    pub auto_gc: u32,
}

/// After a load the session is marked active unless its stored status is
/// terminal.
pub fn load_activates(status: SessionStatus) -> (r: bool)
    ensures
        r == !(status == SessionStatus::Expired || status == SessionStatus::Deleted),
{
    !status.is_terminal()
}

/// The report of a reconcile that carried out `plan` and then collected
/// `collected` expired sessions: no session is marked expired by a reconcile,
/// and the collected count is kept as a `u32`.
pub fn reconcile_report(plan: ReconcilePlan, collected: usize) -> (r: ReconcileReport)
    ensures
        r.recovered == plan.recovered,
        r.newly_unreachable == plan.newly_unreachable,
        r.expired@.len() == 0,
        r.auto_gc == collected as u32,
{
    ReconcileReport {
        recovered: plan.recovered,
        newly_unreachable: plan.newly_unreachable,
        expired: Vec::new(),
        auto_gc: collected as u32,
    }
}

/// Check if the ACP shim reports pending approvals for a session, given the
/// session info as JSON text.
pub fn has_pending_approvals(acp_session_info: &str) -> (r: bool)
    ensures
        r == (json_bool_member(acp_session_info@, "pending_approvals"@) == Some(true)),
{
    match read_json_bool(acp_session_info, "pending_approvals") {
        Some(b) => b,
        None => false,
    }
}

/// Check if the ACP shim reports in-progress tools for a session, given the
/// session info as JSON text.
pub fn has_in_progress_tools(acp_session_info: &str) -> (r: bool)
    ensures
        r == (match json_array_member_len(acp_session_info@, "in_progress_tools"@) {
            Some(n) => n > 0,
            None => false,
        }),
{
    match read_json_array_len(acp_session_info, "in_progress_tools") {
        Some(n) => n > 0,
        None => false,
    }
}

/// Validation agrees with loading: a record passes validation exactly when a
/// load of it restores the session.
pub proof fn lemma_validation_matches_load(
    session_id: Seq<char>,
    rec: SessionRecord,
    v: Result<(), RestorationError>,
    l: Result<RestorationOutcome, RestorationError>,
)
    requires
        match rec.status {
            SessionStatus::Expired => (v matches Err(RestorationError::Expired)) && (l matches Err(
                RestorationError::Expired,
            )),
            SessionStatus::Unreachable => (v matches Err(RestorationError::AgentOffline(_))) && (l matches Err(
                RestorationError::AgentOffline(_),
            )),
            SessionStatus::Deleted => (v matches Err(RestorationError::MustItemFailed(_, _))) && (l matches Err(
                RestorationError::MustItemFailed(_, _),
            )),
            _ => v is Ok && (l matches Ok(RestorationOutcome::Full(c)) && contract_from_record_spec(session_id, rec, c)),
        },
    ensures
        v is Ok <==> l is Ok,
{
}

/// The load gate: an unreachable session is answered as offline, never as
/// expired, and a restored session is neither terminal nor unreachable.
pub proof fn lemma_load_gate(session_id: Seq<char>, rec: SessionRecord, r: Result<RestorationOutcome, RestorationError>)
    requires
        match rec.status {
            SessionStatus::Expired => r matches Err(RestorationError::Expired),
            SessionStatus::Unreachable => r matches Err(RestorationError::AgentOffline(_)),
            SessionStatus::Deleted => r matches Err(RestorationError::MustItemFailed(_, _)),
            _ => r matches Ok(RestorationOutcome::Full(c)) && contract_from_record_spec(session_id, rec, c),
        },
    ensures
        r is Ok ==> !(rec.status == SessionStatus::Expired || rec.status == SessionStatus::Deleted)
            && rec.status != SessionStatus::Unreachable,
        rec.status == SessionStatus::Unreachable ==> !(r matches Err(RestorationError::Expired)),
{
}

} // verus!
