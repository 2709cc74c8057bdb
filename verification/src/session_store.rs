//! Session records, the session status state machine, title ownership, and the
//! decisions the SQLite-backed store makes on each write.

use vstd::prelude::*;
use vstd::string::*;
use crate::legacy::LegacySession;
use crate::text::{contains_string, str_eq, strings_view, take_chars, truncate_chars};

verus! {

/// Who set a session's title.
#[derive(Debug, Clone, Copy, PartialEq, Eq, Structural)]
pub enum TitleSource {
    User,
    Agent,
    Provisional,
}

/// The stored text of a title source.
pub open spec fn title_source_text(t: TitleSource) -> Seq<char> {
    match t {
        TitleSource::User => "user"@,
        TitleSource::Agent => "agent"@,
        TitleSource::Provisional => "provisional"@,
    }
}

/// The title source stored as `s`; any unknown text reads as provisional.
pub open spec fn title_source_of_text(s: Seq<char>) -> TitleSource {
    if s == "user"@ {
        TitleSource::User
    } else if s == "agent"@ {
        TitleSource::Agent
    } else {
        TitleSource::Provisional
    }
}

impl TitleSource {
    pub fn as_str(&self) -> (r: &'static str)
        ensures
            r@ == title_source_text(*self),
    {
        match self {
            TitleSource::User => "user",
            TitleSource::Agent => "agent",
            TitleSource::Provisional => "provisional",
        }
    }

    pub fn from_str(s: &str) -> (r: Self)
        ensures
            r == title_source_of_text(s@),
    {
        if str_eq(s, "user") {
            TitleSource::User
        } else if str_eq(s, "agent") {
            TitleSource::Agent
        } else {
            TitleSource::Provisional
        }
    }
}

/// Lifecycle status of a session.
#[derive(Debug, Clone, Copy, PartialEq, Eq, Structural)]
pub enum SessionStatus {
    Active,
    Idle,
    Closed,
    Unreachable,
    Expired,
    Deleted,
}

/// The stored text of a status.
pub open spec fn status_text(s: SessionStatus) -> Seq<char> {
    match s {
        SessionStatus::Active => "active"@,
        SessionStatus::Idle => "idle"@,
        SessionStatus::Closed => "closed"@,
        SessionStatus::Unreachable => "unreachable"@,
        SessionStatus::Expired => "expired"@,
        SessionStatus::Deleted => "deleted"@,
    }
}

/// The status stored as `s`; any unknown text reads as active.
pub open spec fn status_of_text(s: Seq<char>) -> SessionStatus {
    if s == "active"@ {
        SessionStatus::Active
    } else if s == "idle"@ {
        SessionStatus::Idle
    } else if s == "closed"@ {
        SessionStatus::Closed
    } else if s == "unreachable"@ {
        SessionStatus::Unreachable
    } else if s == "expired"@ {
        SessionStatus::Expired
    } else if s == "deleted"@ {
        SessionStatus::Deleted
    } else {
        SessionStatus::Active
    }
}

/// The legal transitions of the status state machine.
pub open spec fn transition_allowed(from: SessionStatus, to: SessionStatus) -> bool {
    match (from, to) {
        (SessionStatus::Active, SessionStatus::Idle) => true,
        (SessionStatus::Active, SessionStatus::Unreachable) => true,
        (SessionStatus::Active, SessionStatus::Closed) => true,
        (SessionStatus::Idle, SessionStatus::Active) => true,
        (SessionStatus::Idle, SessionStatus::Closed) => true,
        (SessionStatus::Idle, SessionStatus::Unreachable) => true,
        (SessionStatus::Closed, SessionStatus::Deleted) => true,
        (SessionStatus::Unreachable, SessionStatus::Idle) => true,
        (SessionStatus::Unreachable, SessionStatus::Expired) => true,
        _ => false,
    }
}

/// Terminal statuses: expired and deleted.
pub open spec fn status_terminal(s: SessionStatus) -> bool {
    s == SessionStatus::Expired || s == SessionStatus::Deleted
}

impl SessionStatus {
    pub fn as_str(&self) -> (r: &'static str)
        ensures
            r@ == status_text(*self),
    {
        match self {
            SessionStatus::Active => "active",
            SessionStatus::Idle => "idle",
            SessionStatus::Closed => "closed",
            SessionStatus::Unreachable => "unreachable",
            SessionStatus::Expired => "expired",
            SessionStatus::Deleted => "deleted",
        }
    }

    pub fn from_str(s: &str) -> (r: Self)
        ensures
            r == status_of_text(s@),
    {
        if str_eq(s, "active") {
            SessionStatus::Active
        } else if str_eq(s, "idle") {
            SessionStatus::Idle
        } else if str_eq(s, "closed") {
            SessionStatus::Closed
        } else if str_eq(s, "unreachable") {
            SessionStatus::Unreachable
        } else if str_eq(s, "expired") {
            SessionStatus::Expired
        } else if str_eq(s, "deleted") {
            SessionStatus::Deleted
        } else {
            SessionStatus::Active
        }
    }

    /// Returns true if this transition is legal per the status state machine.
    pub fn can_transition_to(&self, target: &SessionStatus) -> (r: bool)
        ensures
            r == transition_allowed(*self, *target),
            *self == SessionStatus::Closed ==> (r <==> *target == SessionStatus::Deleted),
            status_terminal(*self) ==> !r,
    {
        match (self, target) {
            (SessionStatus::Active, SessionStatus::Idle) => true,
            (SessionStatus::Active, SessionStatus::Unreachable) => true,
            (SessionStatus::Active, SessionStatus::Closed) => true,
            (SessionStatus::Idle, SessionStatus::Active) => true,
            (SessionStatus::Idle, SessionStatus::Closed) => true,
            (SessionStatus::Idle, SessionStatus::Unreachable) => true,
            (SessionStatus::Closed, SessionStatus::Deleted) => true,
            (SessionStatus::Unreachable, SessionStatus::Idle) => true,
            (SessionStatus::Unreachable, SessionStatus::Expired) => true,
            _ => false,
        }
    }

    /// Returns true if this status represents a terminal state.
    pub fn is_terminal(&self) -> (r: bool)
        ensures
            r == status_terminal(*self),
    {
        match self {
            SessionStatus::Expired | SessionStatus::Deleted => true,
            _ => false,
        }
    }
}

/// Token accounting of a session.
#[derive(Debug, Clone, Copy, PartialEq, Eq, Structural)]
pub struct TokenUsage {
    pub input_tokens: u64,
    pub output_tokens: u64,
    pub total_tokens: u64,
    pub max_tokens: u64,
}

/// One row of the session store.
#[derive(Debug, Clone)]
pub struct SessionRecord {
    pub session_id: String,
    pub title: Option<String>,
    pub title_source: TitleSource,
    pub agent_id: String,
    pub work_dirs: Vec<String>,
    pub created_at: u64,
    pub updated_at: u64,
    pub last_message_preview: Option<String>,
    pub token_usage: Option<TokenUsage>,
    /// Free-form metadata, as the JSON text it is stored as.
    pub meta: Option<String>,
    pub status: SessionStatus,
}

/// Errors of the session store.
#[derive(Debug, Clone)]
pub enum SessionStoreError {
    /// SQLite reported an error; its message.
    Sqlite(String),
    /// A column could not be written as JSON; the serializer's message.
    Json(String),
    Busy,
    Corrupt,
    NotInitialized,
    TerminalState { session_id: String, status: SessionStatus },
    IllegalTransition { session_id: String, from: SessionStatus, to: SessionStatus },
}

/// What setting the status of `session_id` from `current` to `target` leads to.
pub open spec fn transition_check_spec(
    session_id: Seq<char>,
    current: SessionStatus,
    target: SessionStatus,
    r: Result<(), SessionStoreError>,
) -> bool {
    match r {
        Ok(()) => !status_terminal(current) && transition_allowed(current, target),
        Err(SessionStoreError::TerminalState { session_id: id, status }) => status_terminal(
            current,
        ) && id@ == session_id && status == current,
        Err(SessionStoreError::IllegalTransition { session_id: id, from, to }) => !status_terminal(
            current,
        ) && !transition_allowed(current, target) && id@ == session_id && from == current && to
            == target,
        Err(_) => false,
    }
}

/// The status gate of `set_status`: a write from `current` to `target` is made
/// only when this returns `Ok`. Terminal states are reported before the
/// transition table is consulted.
pub fn check_status_transition(session_id: &str, current: SessionStatus, target: SessionStatus) -> (r: Result<(), SessionStoreError>)
    ensures
        transition_check_spec(session_id@, current, target, r),
        current == SessionStatus::Closed && target != SessionStatus::Deleted ==> r is Err,
{
    if current.is_terminal() {
        return Err(SessionStoreError::TerminalState { session_id: session_id.to_owned(), status: current });
    }
    if !current.can_transition_to(&target) {
        return Err(SessionStoreError::IllegalTransition {
            session_id: session_id.to_owned(),
            from: current,
            to: target,
        });
    }
    Ok(())
}

/// The priority of a title source: user over agent over provisional.
pub open spec fn title_rank(t: TitleSource) -> int {
    match t {
        TitleSource::User => 2,
        TitleSource::Agent => 1,
        TitleSource::Provisional => 0,
    }
}

/// A title update from `incoming` applies unless the title is owned by a
/// source of higher priority.
pub open spec fn title_update_applies_spec(current: TitleSource, incoming: TitleSource) -> bool {
    title_rank(incoming) >= title_rank(current)
}

/// Title ownership priority of `set_title`: user > agent > provisional.
/// An update from a lower-priority source than the title's owner is ignored.
pub fn title_update_applies(current: TitleSource, incoming: TitleSource) -> (r: bool)
    ensures
        r == title_update_applies_spec(current, incoming),
{
    match incoming {
        TitleSource::User => true,
        TitleSource::Agent => match current {
            TitleSource::User => false,
            _ => true,
        },
        TitleSource::Provisional => match current {
            TitleSource::Provisional => true,
            _ => false,
        },
    }
}

/// Marking a session expired applies unless it is already terminal.
pub fn expiry_applies(current: SessionStatus) -> (r: bool)
    ensures
        r == !status_terminal(current),
{
    !current.is_terminal()
}

/// Seconds in the 30 days after which expired sessions are collected.
pub const AUTO_GC_AGE_SECS: u64 = 2592000;

/// Expired sessions last updated before this time are collected by the
/// reconcile of `now_ts` (seconds since the epoch).
pub fn auto_gc_cutoff(now_ts: u64) -> (r: u64)
    ensures
        r == (if now_ts >= AUTO_GC_AGE_SECS { now_ts - AUTO_GC_AGE_SECS } else { 0 }),
{
    now_ts.saturating_sub(AUTO_GC_AGE_SECS)
}

/// Whether the expired session `r` is due for collection at `cutoff`.
pub open spec fn gc_due(r: SessionRecord, cutoff: u64) -> bool {
    r.status == SessionStatus::Expired && r.updated_at < cutoff
}

/// The status a session has after a reconcile that saw it (`present`) or not
/// among the agent's active sessions.
pub open spec fn reconciled_status(status: SessionStatus, present: bool) -> SessionStatus {
    if status == SessionStatus::Unreachable && present {
        SessionStatus::Idle
    } else if (status == SessionStatus::Active || status == SessionStatus::Idle) && !present {
        SessionStatus::Unreachable
    } else {
        status
    }
}

/// Ids of the sessions of `local` that are unreachable and reported active again.
pub open spec fn recovered_ids(local: Seq<SessionRecord>, active: Seq<Seq<char>>) -> Seq<Seq<char>>
    decreases local.len(),
{
    if local.len() == 0 {
        Seq::empty()
    } else {
        let r = local.last();
        let rest = recovered_ids(local.drop_last(), active);
        if r.status == SessionStatus::Unreachable && active.contains(r.session_id@) {
            rest.push(r.session_id@)
        } else {
            rest
        }
    }
}

/// Ids of the sessions of `local` that are active or idle and not reported active.
pub open spec fn vanished_ids(local: Seq<SessionRecord>, active: Seq<Seq<char>>) -> Seq<Seq<char>>
    decreases local.len(),
{
    if local.len() == 0 {
        Seq::empty()
    } else {
        let r = local.last();
        let rest = vanished_ids(local.drop_last(), active);
        if (r.status == SessionStatus::Active || r.status == SessionStatus::Idle)
            && !active.contains(r.session_id@) {
            rest.push(r.session_id@)
        } else {
            rest
        }
    }
}

/// Ids of the sessions of `local` due for collection at `cutoff`.
pub open spec fn gc_ids(local: Seq<SessionRecord>, cutoff: u64) -> Seq<Seq<char>>
    decreases local.len(),
{
    if local.len() == 0 {
        Seq::empty()
    } else {
        let r = local.last();
        let rest = gc_ids(local.drop_last(), cutoff);
        if gc_due(r, cutoff) {
            rest.push(r.session_id@)
        } else {
            rest
        }
    }
}

/// The status writes a reconcile makes, in the order of the listing.
pub struct ReconcilePlan {
    /// Unreachable sessions reported active again: set to idle.
    pub recovered: Vec<String>,
    /// Active or idle sessions not reported active: set to unreachable.
    pub newly_unreachable: Vec<String>,
}

/// Plan the reconcile of the local sessions with the ids the ACP shim reports
/// active. Every session is judged on its status before the reconcile.
pub fn plan_reconcile(local: &Vec<SessionRecord>, active_ids: &Vec<String>) -> (r: ReconcilePlan)
    ensures
        strings_view(r.recovered@) == recovered_ids(local@, strings_view(active_ids@)),
        strings_view(r.newly_unreachable@) == vanished_ids(local@, strings_view(active_ids@)),
        forall|j: int|
            0 <= j < local@.len() && (local@[j].status == SessionStatus::Active || local@[j].status
                == SessionStatus::Idle) && !strings_view(active_ids@).contains(local@[j].session_id@)
                ==> strings_view(r.newly_unreachable@).contains(#[trigger] local@[j].session_id@),
        forall|j: int|
            0 <= j < local@.len() && local@[j].status == SessionStatus::Unreachable && strings_view(
                active_ids@,
            ).contains(local@[j].session_id@) ==> strings_view(r.recovered@).contains(
                #[trigger] local@[j].session_id@,
            ),
{
    let ghost active = strings_view(active_ids@);
    let mut recovered: Vec<String> = Vec::new();
    let mut vanished: Vec<String> = Vec::new();
    let mut i: usize = 0;
    while i < local.len()
        invariant
            i <= local.len(),
            active == strings_view(active_ids@),
            strings_view(recovered@) == recovered_ids(local@.take(i as int), active),
            strings_view(vanished@) == vanished_ids(local@.take(i as int), active),
        decreases local.len() - i,
    {
        let rec = &local[i];
        assert(local@.take(i + 1).drop_last() =~= local@.take(i as int));
        assert(local@.take(i + 1).last() == local@[i as int]);
        let present = contains_string(active_ids, rec.session_id.as_str());
        match rec.status {
            SessionStatus::Unreachable => {
                if present {
                    recovered.push(rec.session_id.clone());
                }
            },
            SessionStatus::Active | SessionStatus::Idle => {
                if !present {
                    vanished.push(rec.session_id.clone());
                }
            },
            _ => {},
        }
        assert(strings_view(recovered@) =~= recovered_ids(local@.take(i + 1), active));
        assert(strings_view(vanished@) =~= vanished_ids(local@.take(i + 1), active));
        i = i + 1;
    }
    assert(local@.take(local.len() as int) =~= local@);
    proof {
        lemma_reconcile_plan_complete(local@, active);
    }
    ReconcilePlan { recovered, newly_unreachable: vanished }
}

/// Ids of the expired sessions of `local` last updated before `cutoff`.
pub fn select_gc(local: &Vec<SessionRecord>, cutoff: u64) -> (r: Vec<String>)
    ensures
        strings_view(r@) == gc_ids(local@, cutoff),
{
    let mut out: Vec<String> = Vec::new();
    let mut i: usize = 0;
    while i < local.len()
        invariant
            i <= local.len(),
            strings_view(out@) == gc_ids(local@.take(i as int), cutoff),
        decreases local.len() - i,
    {
        let rec = &local[i];
        assert(local@.take(i + 1).drop_last() =~= local@.take(i as int));
        assert(local@.take(i + 1).last() == local@[i as int]);
        if rec.status == SessionStatus::Expired && rec.updated_at < cutoff {
            out.push(rec.session_id.clone());
        }
        assert(strings_view(out@) =~= gc_ids(local@.take(i + 1), cutoff));
        i = i + 1;
    }
    assert(local@.take(local.len() as int) =~= local@);
    out
}

// ---------------------------------------------------------------------------
// Debounced cosmetic writes
// ---------------------------------------------------------------------------

/// Cosmetic writes that are batched and may be lost on a crash.
#[derive(Debug, Clone)]
pub enum DebouncedWrite {
    UpdatedAt { session_id: String, timestamp: u64 },
    PreviewText { session_id: String, text: String },
    ProvisionalTitle { session_id: String, title: String },
}

/// Longest preview text that is queued, in characters.
pub const PREVIEW_MAX_CHARS: usize = 150;

/// Longest provisional title that is queued, in characters.
pub const PROVISIONAL_TITLE_MAX_CHARS: usize = 200;

impl DebouncedWrite {
    pub open spec fn target(self) -> Seq<char> {
        match self {
            DebouncedWrite::UpdatedAt { session_id, .. } => session_id@,
            DebouncedWrite::PreviewText { session_id, .. } => session_id@,
            DebouncedWrite::ProvisionalTitle { session_id, .. } => session_id@,
        }
    }

    /// The session the write is for.
    pub fn session_id(&self) -> (r: &str)
        ensures
            r@ == self.target(),
            match *self {
                DebouncedWrite::UpdatedAt { session_id, .. } => r@ == session_id@,
                DebouncedWrite::PreviewText { session_id, .. } => r@ == session_id@,
                DebouncedWrite::ProvisionalTitle { session_id, .. } => r@ == session_id@,
            },
    {
        match self {
            DebouncedWrite::UpdatedAt { session_id, .. } => session_id.as_str(),
            DebouncedWrite::PreviewText { session_id, .. } => session_id.as_str(),
            DebouncedWrite::ProvisionalTitle { session_id, .. } => session_id.as_str(),
        }
    }

    /// A preview write, its text cut to the first 150 characters.
    pub fn preview(session_id: &str, text: &str) -> (r: Self)
        ensures
            r matches DebouncedWrite::PreviewText { session_id: id, text: t } && id@
                == session_id@ && t@ == take_chars(text@, PREVIEW_MAX_CHARS as nat),
            r.target() == session_id@,
    {
        DebouncedWrite::PreviewText {
            session_id: session_id.to_owned(),
            text: truncate_chars(text, PREVIEW_MAX_CHARS),
        }
    }

    /// A provisional title write, its title cut to the first 200 characters.
    pub fn provisional_title(session_id: &str, title: &str) -> (r: Self)
        ensures
            r matches DebouncedWrite::ProvisionalTitle { session_id: id, title: t } && id@
                == session_id@ && t@ == take_chars(title@, PROVISIONAL_TITLE_MAX_CHARS as nat),
            r.target() == session_id@,
    {
        DebouncedWrite::ProvisionalTitle {
            session_id: session_id.to_owned(),
            title: truncate_chars(title, PROVISIONAL_TITLE_MAX_CHARS),
        }
    }

    /// An `updated_at` bump to `timestamp`.
    pub fn updated_at(session_id: &str, timestamp: u64) -> (r: Self)
        ensures
            r matches DebouncedWrite::UpdatedAt { session_id: id, timestamp: t } && id@
                == session_id@ && t == timestamp,
            r.target() == session_id@,
    {
        DebouncedWrite::UpdatedAt { session_id: session_id.to_owned(), timestamp }
    }
}

/// The debounced writes waiting for the next flush: at most one per session,
/// the last one queued for it.
pub struct PendingWrites {
    writes: Vec<DebouncedWrite>,
}

impl PendingWrites {
    /// No two pending writes are for the same session.
    #[verifier::type_invariant]
    pub closed spec fn wf(&self) -> bool {
        forall|i: int, j: int|
            0 <= i < self.writes@.len() && 0 <= j < self.writes@.len() && i != j
                ==> self.writes@[i].target() != self.writes@[j].target()
    }

    /// The pending write of each session.
    pub closed spec fn view(&self) -> Map<Seq<char>, DebouncedWrite> {
        Map::new(
            |id: Seq<char>| exists|i: int| 0 <= i < self.writes@.len() && self.writes@[i].target() == id,
            |id: Seq<char>| self.writes@[choose|i: int| 0 <= i < self.writes@.len() && self.writes@[i].target() == id],
        )
    }

    pub fn new() -> (r: Self)
        ensures
            r.view() == Map::<Seq<char>, DebouncedWrite>::empty(),
    {
        let r = PendingWrites { writes: Vec::new() };
        assert(r.view() =~= Map::<Seq<char>, DebouncedWrite>::empty());
        r
    }

    pub fn len(&self) -> (r: usize)
        ensures
            r == self.view().len(),
    {
        proof {
            use_type_invariant(self);
        }
        proof {
            self.lemma_len();
        }
        self.writes.len()
    }

    pub fn is_empty(&self) -> (r: bool)
        ensures
            r == (self.view() == Map::<Seq<char>, DebouncedWrite>::empty()),
    {
        proof {
            use_type_invariant(self);
        }
        proof {
            if self.writes@.len() > 0 {
                assert(self.view().dom().contains(self.writes@[0].target()));
            } else {
                assert(self.view() =~= Map::<Seq<char>, DebouncedWrite>::empty());
            }
        }
        self.writes.len() == 0
    }

    proof fn lemma_view_at(&self, i: int)
        requires
            self.wf(),
            0 <= i < self.writes@.len(),
        ensures
            self.view().dom().contains(self.writes@[i].target()),
            self.view()[self.writes@[i].target()] == self.writes@[i],
    {
        let id = self.writes@[i].target();
        let k = choose|k: int| 0 <= k < self.writes@.len() && self.writes@[k].target() == id;
        assert(k == i);
    }

    proof fn lemma_len(&self)
        requires
            self.wf(),
        ensures
            self.view().dom().finite(),
            self.view().len() == self.writes@.len(),
        decreases self.writes@.len(),
    {
        let ids = self.writes@.map_values(|w: DebouncedWrite| w.target());
        assert(ids.no_duplicates()) by {
            assert forall|i: int, j: int| 0 <= i < ids.len() && 0 <= j < ids.len() && i != j implies ids[i] != ids[j] by {
                assert(ids[i] == self.writes@[i].target());
                assert(ids[j] == self.writes@[j].target());
            }
        }
        assert(self.view().dom() =~= ids.to_set()) by {
            assert forall|id: Seq<char>| self.view().dom().contains(id) implies ids.to_set().contains(id) by {
                let i = choose|i: int| 0 <= i < self.writes@.len() && self.writes@[i].target() == id;
                assert(ids[i] == id);
            }
            assert forall|id: Seq<char>| ids.to_set().contains(id) implies self.view().dom().contains(id) by {
                let i = choose|i: int| 0 <= i < ids.len() && ids[i] == id;
                assert(self.writes@[i].target() == id);
            }
        }
        ids.unique_seq_to_set();
    }

    /// Queue `write`; it replaces the write pending for the same session.
    pub fn insert(&mut self, write: DebouncedWrite)
        ensures
            final(self).view() == old(self).view().insert(write.target(), write),
    {
        proof {
            use_type_invariant(&*self);
        }
        let ghost old_writes = self.writes@;
        let mut i: usize = 0;
        while i < self.writes.len()
            invariant
                self.writes@ == old_writes,
                old(self).writes@ == old_writes,
                self.wf(),
                i <= self.writes.len(),
                forall|k: int| 0 <= k < i ==> self.writes@[k].target() != write.target(),
            decreases self.writes.len() - i,
        {
            if str_eq(self.writes[i].session_id(), write.session_id()) {
                let ghost before = *self;
                let mut writes: Vec<DebouncedWrite> = Vec::new();
                std::mem::swap(&mut writes, &mut self.writes);
                writes.set(i, write);
                proof {
                    assert forall|a: int, b: int|
                        0 <= a < writes@.len() && 0 <= b < writes@.len() && a != b
                        implies writes@[a].target() != writes@[b].target() by {
                        if a != i && b != i {
                            assert(writes@[a] == old_writes[a]);
                            assert(writes@[b] == old_writes[b]);
                        } else if a == i {
                            assert(old_writes[b].target() != old_writes[i as int].target());
                        } else {
                            assert(old_writes[a].target() != old_writes[i as int].target());
                        }
                    }
                }
                self.writes = writes;
                proof {
                    assert forall|id: Seq<char>| #[trigger] self.view().dom().contains(id)
                        == before.view().insert(write.target(), write).dom().contains(id) by {
                        if id == write.target() {
                            assert(self.writes@[i as int].target() == id);
                        } else if before.view().dom().contains(id) {
                            let k = choose|k: int| 0 <= k < old_writes.len() && old_writes[k].target() == id;
                            assert(self.writes@[k].target() == id);
                        } else if self.view().dom().contains(id) {
                            let k = choose|k: int| 0 <= k < self.writes@.len() && self.writes@[k].target() == id;
                            assert(old_writes[k].target() == id);
                        }
                    }
                    assert forall|id: Seq<char>| #[trigger] self.view().dom().contains(id)
                        implies self.view()[id] == before.view().insert(write.target(), write)[id] by {
                        let k = choose|k: int| 0 <= k < self.writes@.len() && self.writes@[k].target() == id;
                        self.lemma_view_at(k);
                        if k != i {
                            before.lemma_view_at(k);
                        }
                    }
                    assert(self.view() =~= before.view().insert(write.target(), write));
                    assert(before.view() =~= old(self).view());
                }
                return;
            }
            i = i + 1;
        }
        let ghost before = *self;
        let mut writes: Vec<DebouncedWrite> = Vec::new();
        std::mem::swap(&mut writes, &mut self.writes);
        writes.push(write);
        proof {
            let n = old_writes.len() as int;
            assert forall|a: int, b: int|
                0 <= a < writes@.len() && 0 <= b < writes@.len() && a != b
                implies writes@[a].target() != writes@[b].target() by {
                if a < n && b < n {
                    assert(writes@[a] == old_writes[a]);
                    assert(writes@[b] == old_writes[b]);
                } else if a == n {
                    assert(writes@[b] == old_writes[b]);
                } else {
                    assert(writes@[a] == old_writes[a]);
                }
            }
        }
        self.writes = writes;
        proof {
            let n = old_writes.len() as int;
            assert forall|id: Seq<char>| #[trigger] self.view().dom().contains(id)
                == before.view().insert(write.target(), write).dom().contains(id) by {
                if id == write.target() {
                    assert(self.writes@[n].target() == id);
                } else if before.view().dom().contains(id) {
                    let k = choose|k: int| 0 <= k < old_writes.len() && old_writes[k].target() == id;
                    assert(self.writes@[k].target() == id);
                } else if self.view().dom().contains(id) {
                    let k = choose|k: int| 0 <= k < self.writes@.len() && self.writes@[k].target() == id;
                    assert(old_writes[k].target() == id);
                }
            }
            assert forall|id: Seq<char>| #[trigger] self.view().dom().contains(id)
                implies self.view()[id] == before.view().insert(write.target(), write)[id] by {
                let k = choose|k: int| 0 <= k < self.writes@.len() && self.writes@[k].target() == id;
                self.lemma_view_at(k);
                if k != n {
                    before.lemma_view_at(k);
                }
            }
            assert(self.view() =~= before.view().insert(write.target(), write));
        }
    }

    /// Take all pending writes, leaving none.
    pub fn drain(&mut self) -> (r: Vec<DebouncedWrite>)
        ensures
            final(self).view() == Map::<Seq<char>, DebouncedWrite>::empty(),
            r@.len() == old(self).view().len(),
            forall|i: int| 0 <= i < r@.len() ==> old(self).view().dom().contains(#[trigger] r@[i].target())
                && old(self).view()[r@[i].target()] == r@[i],
            forall|id: Seq<char>| old(self).view().dom().contains(id) ==> exists|i: int|
                0 <= i < r@.len() && #[trigger] r@[i].target() == id,
    {
        proof {
            use_type_invariant(&*self);
        }
        proof {
            self.lemma_len();
            assert forall|i: int| 0 <= i < self.writes@.len() implies self.view().dom().contains(#[trigger] self.writes@[i].target())
                && self.view()[self.writes@[i].target()] == self.writes@[i] by {
                self.lemma_view_at(i);
            }
        }
        let mut taken: Vec<DebouncedWrite> = Vec::new();
        std::mem::swap(&mut taken, &mut self.writes);
        assert(self.view() =~= Map::<Seq<char>, DebouncedWrite>::empty());
        taken
    }
}

// ---------------------------------------------------------------------------
// Unified session list
// ---------------------------------------------------------------------------

/// A session of either store, for the frontend.
#[derive(Debug, Clone)]
pub enum UnifiedSession {
    Active(SessionRecord),
    Legacy {
        id: String,
        title: Option<String>,
        created_at: Option<String>,
        updated_at: Option<String>,
        message_count: usize,
        last_preview: Option<String>,
    },
}

/// The unified entry of a legacy session: every field carried over.
pub open spec fn unified_of_legacy(s: LegacySession) -> UnifiedSession {
    UnifiedSession::Legacy {
        id: s.id,
        title: s.title,
        created_at: s.created_at,
        updated_at: s.updated_at,
        message_count: s.message_count,
        last_preview: s.last_preview,
    }
}

impl vstd::std_specs::convert::FromSpecImpl<LegacySession> for UnifiedSession {
    open spec fn obeys_from_spec() -> bool {
        true
    }

    open spec fn from_spec(v: LegacySession) -> Self {
        unified_of_legacy(v)
    }
}

impl From<LegacySession> for UnifiedSession {
    fn from(s: LegacySession) -> (r: Self) {
        UnifiedSession::Legacy {
            id: s.id,
            title: s.title,
            created_at: s.created_at,
            updated_at: s.updated_at,
            message_count: s.message_count,
            last_preview: s.last_preview,
        }
    }
}

/// Merge active sessions and legacy sessions into one unified list:
/// the active sessions first, in their order, then the legacy sessions.
pub fn merge_session_lists(active: Vec<SessionRecord>, legacy: Vec<LegacySession>) -> (r: Vec<UnifiedSession>)
    ensures
        r@.len() == active@.len() + legacy@.len(),
        forall|i: int| 0 <= i < active@.len() ==> r@[i] == UnifiedSession::Active(active@[i]),
        forall|i: int| 0 <= i < legacy@.len() ==> r@[active@.len() + i] == unified_of_legacy(legacy@[i]),
{
    let ghost a0 = active@;
    let ghost l0 = legacy@;
    let mut active = active;
    let mut legacy = legacy;
    let mut rev_a: Vec<SessionRecord> = Vec::new();
    while active.len() > 0
        invariant
            active@.len() + rev_a@.len() == a0.len(),
            forall|k: int| 0 <= k < active@.len() ==> active@[k] == a0[k],
            forall|k: int| 0 <= k < rev_a@.len() ==> rev_a@[k] == a0[a0.len() - 1 - k],
        decreases active.len(),
    {
        let x = active.pop().unwrap();
        rev_a.push(x);
    }
    let mut out: Vec<UnifiedSession> = Vec::new();
    while rev_a.len() > 0
        invariant
            out@.len() + rev_a@.len() == a0.len(),
            forall|k: int| 0 <= k < rev_a@.len() ==> rev_a@[k] == a0[a0.len() - 1 - k],
            forall|k: int| 0 <= k < out@.len() ==> out@[k] == UnifiedSession::Active(a0[k]),
        decreases rev_a.len(),
    {
        let x = rev_a.pop().unwrap();
        out.push(UnifiedSession::Active(x));
    }
    let mut rev_l: Vec<LegacySession> = Vec::new();
    while legacy.len() > 0
        invariant
            legacy@.len() + rev_l@.len() == l0.len(),
            forall|k: int| 0 <= k < legacy@.len() ==> legacy@[k] == l0[k],
            forall|k: int| 0 <= k < rev_l@.len() ==> rev_l@[k] == l0[l0.len() - 1 - k],
        decreases legacy.len(),
    {
        let x = legacy.pop().unwrap();
        rev_l.push(x);
    }
    while rev_l.len() > 0
        invariant
            out@.len() == a0.len() + (l0.len() - rev_l@.len()),
            rev_l@.len() <= l0.len(),
            forall|k: int| 0 <= k < rev_l@.len() ==> rev_l@[k] == l0[l0.len() - 1 - k],
            forall|k: int| 0 <= k < a0.len() ==> out@[k] == UnifiedSession::Active(a0[k]),
            forall|k: int| 0 <= k < l0.len() - rev_l@.len() ==> out@[a0.len() + k] == unified_of_legacy(l0[k]),
        decreases rev_l.len(),
    {
        let x = rev_l.pop().unwrap();
        out.push(UnifiedSession::from(x));
    }
    out
}

// ---------------------------------------------------------------------------
// Laws
// ---------------------------------------------------------------------------

/// Terminal states are final: no transition leaves an expired or deleted
/// session. A session becomes expired only from unreachable (confirmed dead),
/// and deleted only once closed.
pub proof fn lemma_terminal_states_are_final(from: SessionStatus, to: SessionStatus)
    ensures
        status_terminal(from) ==> !transition_allowed(from, to),
        transition_allowed(from, SessionStatus::Expired) ==> from == SessionStatus::Unreachable,
        transition_allowed(from, SessionStatus::Deleted) ==> from == SessionStatus::Closed,
{
}

/// The successors of each status: an active session may go idle, become
/// unreachable or be closed; an idle one may become active again, be closed
/// or become unreachable; a closed one may only be deleted; an unreachable one
/// may only recover to idle or expire; expired and deleted ones go nowhere.
/// No status moves to itself.
pub proof fn lemma_transition_successors(to: SessionStatus)
    ensures
        transition_allowed(SessionStatus::Active, to) <==> (to == SessionStatus::Idle || to
            == SessionStatus::Unreachable || to == SessionStatus::Closed),
        transition_allowed(SessionStatus::Idle, to) <==> (to == SessionStatus::Active || to == SessionStatus::Closed
            || to == SessionStatus::Unreachable),
        transition_allowed(SessionStatus::Closed, to) <==> to == SessionStatus::Deleted,
        transition_allowed(SessionStatus::Unreachable, to) <==> (to == SessionStatus::Idle || to
            == SessionStatus::Expired),
        !transition_allowed(SessionStatus::Expired, to),
        !transition_allowed(SessionStatus::Deleted, to),
        !transition_allowed(to, to),
{
}

/// Every status reads back as itself from its stored text.
pub proof fn lemma_status_text_roundtrip(s: SessionStatus)
    ensures
        status_of_text(status_text(s)) == s,
{
    reveal_strlit("active");
    reveal_strlit("idle");
    reveal_strlit("closed");
    reveal_strlit("unreachable");
    reveal_strlit("expired");
    reveal_strlit("deleted");
    assert("active"@.len() != "idle"@.len());
    assert("active"@ != "closed"@) by {
        assert("active"@[0] != "closed"@[0]);
    }
    assert("active"@ != "unreachable"@);
    assert("active"@ != "expired"@);
    assert("active"@ != "deleted"@);
    assert("idle"@ != "closed"@);
    assert("idle"@.len() != "unreachable"@.len());
    assert("idle"@ != "expired"@);
    assert("idle"@ != "deleted"@);
    assert("closed"@ != "unreachable"@);
    assert("closed"@ != "expired"@);
    assert("closed"@ != "deleted"@);
    assert("unreachable"@ != "expired"@);
    assert("unreachable"@ != "deleted"@);
    assert("expired"@ != "deleted"@) by {
        assert("expired"@[0] != "deleted"@[0]);
    }
}

/// Every title source reads back as itself from its stored text.
pub proof fn lemma_title_source_text_roundtrip(t: TitleSource)
    ensures
        title_source_of_text(title_source_text(t)) == t,
{
    reveal_strlit("user");
    reveal_strlit("agent");
    reveal_strlit("provisional");
    assert("user"@ != "agent"@) by {
        assert("user"@[0] != "agent"@[0]);
    }
    assert("user"@.len() != "provisional"@.len());
    assert("agent"@.len() != "provisional"@.len());
}

/// The owner and text of a title after the updates `updates` (text, source),
/// applied in order, each subject to the ownership rule.
pub open spec fn apply_title_updates(
    owner: TitleSource,
    title: Seq<char>,
    updates: Seq<(Seq<char>, TitleSource)>,
) -> (TitleSource, Seq<char>)
    decreases updates.len(),
{
    if updates.len() == 0 {
        (owner, title)
    } else {
        let u = updates[0];
        let (o, t) = if title_update_applies_spec(owner, u.1) {
            (u.1, u.0)
        } else {
            (owner, title)
        };
        apply_title_updates(o, t, updates.drop_first())
    }
}

/// Once the user owns a title, no agent or provisional update changes it.
pub proof fn lemma_user_title_is_kept(title: Seq<char>, updates: Seq<(Seq<char>, TitleSource)>)
    requires
        forall|i: int| 0 <= i < updates.len() ==> (#[trigger] updates[i]).1 != TitleSource::User,
    ensures
        apply_title_updates(TitleSource::User, title, updates) == (TitleSource::User, title),
    decreases updates.len(),
{
    if updates.len() > 0 {
        let rest = updates.drop_first();
        assert forall|i: int| 0 <= i < rest.len() implies (#[trigger] rest[i]).1 != TitleSource::User by {
            assert(rest[i] == updates[i + 1]);
        }
        assert(updates[0].1 != TitleSource::User);
        lemma_user_title_is_kept(title, rest);
    }
}

/// A user update always takes the title, whoever owned it; an update from a
/// lower-priority source never does, so a provisional title never replaces an
/// agent's or a user's.
pub proof fn lemma_title_priority(owner: TitleSource, incoming: TitleSource)
    ensures
        title_update_applies_spec(owner, TitleSource::User),
        title_rank(incoming) < title_rank(owner) ==> !title_update_applies_spec(owner, incoming),
        !title_update_applies_spec(TitleSource::Agent, TitleSource::Provisional),
{
}

/// A write is for the session named by its `session_id` field, whatever its
/// kind, so two writes that name one session coalesce: the later one replaces
/// the earlier in the pending map.
pub proof fn lemma_write_for_its_session(
    m: Map<Seq<char>, DebouncedWrite>,
    first: DebouncedWrite,
    second: DebouncedWrite,
    id: Seq<char>,
)
    requires
        first matches DebouncedWrite::UpdatedAt { session_id, .. } ==> session_id@ == id,
        first matches DebouncedWrite::PreviewText { session_id, .. } ==> session_id@ == id,
        first matches DebouncedWrite::ProvisionalTitle { session_id, .. } ==> session_id@ == id,
        second matches DebouncedWrite::UpdatedAt { session_id, .. } ==> session_id@ == id,
        second matches DebouncedWrite::PreviewText { session_id, .. } ==> session_id@ == id,
        second matches DebouncedWrite::ProvisionalTitle { session_id, .. } ==> session_id@ == id,
    ensures
        first.target() == id,
        second.target() == id,
        m.insert(first.target(), first).insert(second.target(), second) == m.insert(id, second),
        m.insert(first.target(), first).insert(second.target(), second).dom() == m.dom().insert(id),
{
    assert(m.insert(first.target(), first).insert(second.target(), second) =~= m.insert(id, second));
    assert(m.insert(first.target(), first).insert(second.target(), second).dom() =~= m.dom().insert(id));
}

/// Debounce coalescing: of two writes queued for the same session only the
/// later one is pending, and writes for other sessions are untouched.
pub proof fn lemma_last_write_wins(m: Map<Seq<char>, DebouncedWrite>, first: DebouncedWrite, second: DebouncedWrite)
    requires
        first.target() == second.target(),
    ensures
        m.insert(first.target(), first).insert(second.target(), second) == m.insert(second.target(), second),
{
    assert(m.insert(first.target(), first).insert(second.target(), second) =~= m.insert(second.target(), second));
}

/// A reconcile only makes legal transitions, never makes a session terminal,
/// and a session that vanished and came back ends up idle: a failed load is
/// not the death of a session.
pub proof fn lemma_reconcile_transitions(status: SessionStatus, present: bool)
    ensures
        reconciled_status(status, present) != status ==> transition_allowed(status, reconciled_status(status, present)),
        status_terminal(reconciled_status(status, present)) == status_terminal(status),
        (status == SessionStatus::Active || status == SessionStatus::Idle)
            ==> reconciled_status(reconciled_status(status, false), true) == SessionStatus::Idle,
{
}

/// The reconcile plan is complete: every active or idle session the agent no
/// longer reports is made unreachable, and every unreachable session it
/// reports again is recovered.
pub proof fn lemma_reconcile_plan_complete(local: Seq<SessionRecord>, active: Seq<Seq<char>>)
    ensures
        forall|j: int|
            0 <= j < local.len() && (local[j].status == SessionStatus::Active || local[j].status == SessionStatus::Idle)
                && !active.contains(local[j].session_id@) ==> vanished_ids(local, active).contains(
                #[trigger] local[j].session_id@,
            ),
        forall|j: int|
            0 <= j < local.len() && local[j].status == SessionStatus::Unreachable && active.contains(local[j].session_id@)
                ==> recovered_ids(local, active).contains(#[trigger] local[j].session_id@),
    decreases local.len(),
{
    if local.len() > 0 {
        let init = local.drop_last();
        lemma_reconcile_plan_complete(init, active);
        let n = local.len() - 1;
        assert forall|j: int|
            0 <= j < local.len() && (local[j].status == SessionStatus::Active || local[j].status == SessionStatus::Idle)
                && !active.contains(local[j].session_id@) implies vanished_ids(local, active).contains(
                #[trigger] local[j].session_id@,
            ) by {
            let v = vanished_ids(local, active);
            if j == n {
                assert(local.last() == local[j]);
                assert(v.last() == local[j].session_id@);
                assert(v[v.len() - 1] == local[j].session_id@);
            } else {
                assert(init[j] == local[j]);
                let vi = vanished_ids(init, active);
                assert(vi.contains(init[j].session_id@));
                let k = choose|k: int| 0 <= k < vi.len() && vi[k] == init[j].session_id@;
                assert(v[k] == vi[k]);
            }
        }
        assert forall|j: int|
            0 <= j < local.len() && local[j].status == SessionStatus::Unreachable && active.contains(local[j].session_id@)
                implies recovered_ids(local, active).contains(#[trigger] local[j].session_id@) by {
            let r = recovered_ids(local, active);
            if j == n {
                assert(local.last() == local[j]);
                assert(r[r.len() - 1] == local[j].session_id@);
            } else {
                assert(init[j] == local[j]);
                let ri = recovered_ids(init, active);
                assert(ri.contains(init[j].session_id@));
                let k = choose|k: int| 0 <= k < ri.len() && ri[k] == init[j].session_id@;
                assert(r[k] == ri[k]);
            }
        }
    }
}

/// The recovered ids are among the reported ids, the newly unreachable ones
/// are not, so no session is both recovered and made unreachable; and each is
/// the id of a session whose reconciled status is the one written.
pub proof fn lemma_reconcile_plan_consistent(local: Seq<SessionRecord>, active: Seq<Seq<char>>)
    ensures
        forall|k: int| 0 <= k < recovered_ids(local, active).len()
            ==> active.contains(#[trigger] recovered_ids(local, active)[k]),
        forall|k: int| 0 <= k < vanished_ids(local, active).len()
            ==> !active.contains(#[trigger] vanished_ids(local, active)[k]),
        forall|id: Seq<char>| !(recovered_ids(local, active).contains(id) && vanished_ids(local, active).contains(id)),
        forall|k: int| 0 <= k < recovered_ids(local, active).len() ==> exists|j: int|
            0 <= j < local.len() && #[trigger] local[j].session_id@ == #[trigger] recovered_ids(local, active)[k]
            && reconciled_status(local[j].status, true) == SessionStatus::Idle
            && transition_allowed(local[j].status, SessionStatus::Idle),
        forall|k: int| 0 <= k < vanished_ids(local, active).len() ==> exists|j: int|
            0 <= j < local.len() && #[trigger] local[j].session_id@ == #[trigger] vanished_ids(local, active)[k]
            && reconciled_status(local[j].status, false) == SessionStatus::Unreachable
            && transition_allowed(local[j].status, SessionStatus::Unreachable),
    decreases local.len(),
{
    if local.len() > 0 {
        let init = local.drop_last();
        lemma_reconcile_plan_consistent(init, active);
        let r = recovered_ids(local, active);
        let v = vanished_ids(local, active);
        let ri = recovered_ids(init, active);
        let vi = vanished_ids(init, active);
        assert forall|k: int| 0 <= k < r.len() implies active.contains(#[trigger] r[k]) by {
            if k < ri.len() {
                assert(r[k] == ri[k]);
            }
        }
        assert forall|k: int| 0 <= k < v.len() implies !active.contains(#[trigger] v[k]) by {
            if k < vi.len() {
                assert(v[k] == vi[k]);
            }
        }
        assert forall|id: Seq<char>| !(r.contains(id) && v.contains(id)) by {
            if r.contains(id) && v.contains(id) {
                let a = choose|a: int| 0 <= a < r.len() && r[a] == id;
                let b = choose|b: int| 0 <= b < v.len() && v[b] == id;
                assert(active.contains(r[a]));
                assert(!active.contains(v[b]));
            }
        }
        assert forall|k: int| 0 <= k < r.len() implies exists|j: int|
            0 <= j < local.len() && #[trigger] local[j].session_id@ == #[trigger] r[k]
            && reconciled_status(local[j].status, true) == SessionStatus::Idle
            && transition_allowed(local[j].status, SessionStatus::Idle) by {
            if k < ri.len() {
                assert(r[k] == ri[k]);
                let j = choose|j: int| 0 <= j < init.len() && #[trigger] init[j].session_id@ == #[trigger] ri[k]
                    && reconciled_status(init[j].status, true) == SessionStatus::Idle
                    && transition_allowed(init[j].status, SessionStatus::Idle);
                assert(local[j] == init[j]);
                assert(local[j].session_id@ == r[k]);
                assert(local[j].status == SessionStatus::Unreachable);
            } else {
                let j = local.len() - 1;
                assert(local[j] == local.last());
                assert(r[k] == local.last().session_id@);
                assert(local[j].session_id@ == r[k]);
                assert(local.last().status == SessionStatus::Unreachable && active.contains(local.last().session_id@));
                assert(local[j].status == SessionStatus::Unreachable);
            }
        }
        assert forall|k: int| 0 <= k < v.len() implies exists|j: int|
            0 <= j < local.len() && #[trigger] local[j].session_id@ == #[trigger] v[k]
            && reconciled_status(local[j].status, false) == SessionStatus::Unreachable
            && transition_allowed(local[j].status, SessionStatus::Unreachable) by {
            if k < vi.len() {
                assert(v[k] == vi[k]);
                let j = choose|j: int| 0 <= j < init.len() && #[trigger] init[j].session_id@ == #[trigger] vi[k]
                    && reconciled_status(init[j].status, false) == SessionStatus::Unreachable
                    && transition_allowed(init[j].status, SessionStatus::Unreachable);
                assert(local[j] == init[j]);
                assert(local[j].session_id@ == v[k]);
            } else {
                let j = local.len() - 1;
                assert(local[j] == local.last());
                assert(v[k] == local.last().session_id@);
                assert(local[j].session_id@ == v[k]);
            }
        }
    }
}

} // verus!
