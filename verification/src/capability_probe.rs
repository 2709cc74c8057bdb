//! Runtime-probed capabilities of ACP agents and their TTL cache.

use std::time::{Duration, Instant, SystemTime, UNIX_EPOCH};
use crate::acp_debug::system_time_now;
use vstd::prelude::*;
use vstd::string::*;
use crate::text::{clone_opt_string, seq_ge, str_eq, str_ge, trim_spec, trim_str};

verus! {

#[verifier::external_type_specification]
#[verifier::external_body]
pub struct ExInstant(Instant);

/// `Instant` is `Copy`; its `clone` returns the same instant.
pub assume_specification[ <Instant as Clone>::clone ](t: &Instant) -> (r: Instant)
    ensures
        r == *t,
;

/// The current monotonic time (`Instant::now`); nothing is stated of it.
#[verifier::external_body]
pub(crate) fn instant_now() -> Instant {
    Instant::now()
}

/// The time from the Unix epoch to `t` (`SystemTime::duration_since` with
/// `UNIX_EPOCH`); `None` when `t` lies before the epoch. It depends on `t`,
/// which comes from the clock: nothing is stated.
#[verifier::external_body]
fn since_unix_epoch(t: &SystemTime) -> Option<Duration> {
    t.duration_since(UNIX_EPOCH).ok()
}

/// The whole nanoseconds of a duration.
pub uninterp spec fn duration_nanos(d: Duration) -> u128;

/// `Duration::as_nanos`: the whole nanoseconds of `d`, named
/// `duration_nanos`.
#[verifier::external_body]
fn duration_as_nanos(d: &Duration) -> (r: u128)
    ensures
        r == duration_nanos(*d),
{
    d.as_nanos()
}

/// The `Debug` text of a duration (such as `5s` or `1.5ms`).
pub uninterp spec fn duration_debug_of(d: Duration) -> Seq<char>;

/// The `Debug` text of a duration (`format!("{:?}")`), named
/// `duration_debug_of`.
#[verifier::external_body]
fn duration_debug_text(d: &Duration) -> (r: String)
    ensures
        r@ == duration_debug_of(*d),
{
    format!("{:?}", d)
}

/// The wall-clock time in nanoseconds since the Unix epoch (0 before the
/// epoch). It reads the clock: nothing is stated.
pub fn clock_ns() -> u128 {
    match since_unix_epoch(&system_time_now()) {
        Some(d) => duration_as_nanos(&d),
        None => 0,
    }
}

/// Nanoseconds from `probed_at_ns` to `now_ns`; zero when the clock reads
/// earlier than the probe.
pub open spec fn age_ns(probed_at_ns: u128, now_ns: u128) -> u128 {
    if now_ns >= probed_at_ns { (now_ns - probed_at_ns) as u128 } else { 0 }
}

/// A probe made at `probed_at_ns` is fresh at `now_ns` under a TTL of
/// `ttl_ns` when less than the TTL has passed since.
pub open spec fn fresh_spec(probed_at_ns: u128, now_ns: u128, ttl_ns: u128) -> bool {
    age_ns(probed_at_ns, now_ns) < ttl_ns
}

/// Nanoseconds in a millisecond.
pub const NANOS_PER_MILLI: u128 = 1000000;

/// Result of probing a specific capability.
#[derive(Debug, Clone, PartialEq, Eq)]
pub enum ProbeResult {
    /// Capability is confirmed supported.
    Supported,
    /// Capability is not supported by this agent.
    NotSupported,
    /// Probe timed out: agent may be slow or unresponsive.
    Timeout,
    /// Version mismatch: agent version is too old.
    UnsupportedVersion { minimum_version: String, current_version: String },
    /// Some other error during probing.
    Error(String),
}

/// A probe result that confirms support.
pub open spec fn probe_supported(p: ProbeResult) -> bool {
    p is Supported
}

/// A probe result that gave a definite answer: not a timeout or an error.
pub open spec fn probe_definitive(p: ProbeResult) -> bool {
    p is Supported || p is NotSupported || p is UnsupportedVersion
}

impl ProbeResult {
    pub fn is_supported(&self) -> (r: bool)
        ensures
            r == probe_supported(*self),
    {
        match self {
            ProbeResult::Supported => true,
            _ => false,
        }
    }

    /// Whether the probe gave a definite answer (not a timeout or an error).
    pub fn is_definitive(&self) -> (r: bool)
        ensures
            r == probe_definitive(*self),
    {
        match self {
            ProbeResult::Supported | ProbeResult::NotSupported | ProbeResult::UnsupportedVersion { .. } => true,
            _ => false,
        }
    }
}

/// Default response-time budget of a probe, in milliseconds.
pub const DEFAULT_TIMEOUT_MS: u64 = 10000;

/// Runtime-detected capabilities for an ACP agent. Every field is probed at
/// runtime; none are assumed from configuration.
#[derive(Debug, Clone)]
pub struct AgentCapabilities {
    /// Was the agent binary found on $PATH?
    pub detected: bool,
    /// Observed agent version string (e.g. "codex-cli 2.1.0").
    pub version: Option<String>,
    /// Negotiated ACP protocol version.
    pub acp_version: Option<String>,
    pub session_list: ProbeResult,
    pub session_load: ProbeResult,
    pub session_resume: ProbeResult,
    pub model_selection: ProbeResult,
    pub mode_selection: ProbeResult,
    /// Maximum observed response time in milliseconds.
    pub timeout_ms: u64,
    /// When these capabilities were probed, in nanoseconds since the Unix
    /// epoch.
    pub probed_at_ns: u128,
}

/// The probe results of `c`, in field order.
pub open spec fn probe_results(c: AgentCapabilities) -> Seq<ProbeResult> {
    seq![c.session_list, c.session_load, c.session_resume, c.model_selection, c.mode_selection]
}

/// Minimum ACP protocol version we require.
pub const MINIMUM_SUPPORTED_VERSION: &'static str = "1.0.0";

/// Whether `acp_version` is known and not below the minimum, comparing the
/// version texts lexicographically.
pub open spec fn meets_minimum_spec(acp_version: Option<String>) -> bool {
    match acp_version {
        Some(v) => seq_ge(v@, MINIMUM_SUPPORTED_VERSION@),
        None => false,
    }
}

impl AgentCapabilities {
    /// Capabilities of an agent that was not found: nothing supported.
    pub fn unknown() -> (r: Self)
        ensures
            !r.detected,
            r.version is None,
            r.acp_version is None,
            forall|i: int| 0 <= i < 5 ==> probe_results(r)[i] == ProbeResult::NotSupported,
            r.timeout_ms == DEFAULT_TIMEOUT_MS,
    {
        Self {
            detected: false,
            version: None,
            acp_version: None,
            session_list: ProbeResult::NotSupported,
            session_load: ProbeResult::NotSupported,
            session_resume: ProbeResult::NotSupported,
            model_selection: ProbeResult::NotSupported,
            mode_selection: ProbeResult::NotSupported,
            timeout_ms: DEFAULT_TIMEOUT_MS,
            probed_at_ns: clock_ns(),
        }
    }

    /// Capabilities of a known-good agent: everything supported.
    pub fn fully_supported(detected: bool, version: Option<String>, acp_version: Option<String>) -> (r: Self)
        ensures
            r.detected == detected,
            r.version == version,
            r.acp_version == acp_version,
            forall|i: int| 0 <= i < 5 ==> probe_results(r)[i] == ProbeResult::Supported,
            r.timeout_ms == DEFAULT_TIMEOUT_MS,
    {
        Self {
            detected,
            version,
            acp_version,
            session_list: ProbeResult::Supported,
            session_load: ProbeResult::Supported,
            session_resume: ProbeResult::Supported,
            model_selection: ProbeResult::Supported,
            mode_selection: ProbeResult::Supported,
            timeout_ms: DEFAULT_TIMEOUT_MS,
            probed_at_ns: clock_ns(),
        }
    }

    /// Check if the agent meets the minimum ACP version requirement.
    pub fn meets_minimum_version(&self) -> (r: bool)
        ensures
            r == meets_minimum_spec(self.acp_version),
    {
        match &self.acp_version {
            Some(v) => str_ge(v.as_str(), MINIMUM_SUPPORTED_VERSION),
            None => false,
        }
    }

    /// Returns true if the agent can handle session history (list + load).
    pub fn supports_session_history(&self) -> (r: bool)
        ensures
            r == (self.session_list is Supported && self.session_load is Supported),
    {
        self.session_list.is_supported() && self.session_load.is_supported()
    }

    /// Whether the probe is fresh at `now_ns` under a TTL of `ttl_ns`: less
    /// than `ttl_ns` nanoseconds have passed since it was made.
    pub fn is_fresh_at(&self, now_ns: u128, ttl_ns: u128) -> (r: bool)
        ensures
            r == fresh_spec(self.probed_at_ns, now_ns, ttl_ns),
    {
        let age = if now_ns >= self.probed_at_ns { now_ns - self.probed_at_ns } else { 0 };
        age < ttl_ns
    }

    /// Returns true if the probe is still fresh (probed less than `ttl` ago),
    /// reading the clock for the time now (see `is_fresh_at`).
    pub fn is_fresh(&self, ttl: Duration) -> (r: bool)
        ensures
            exists|now_ns: u128| r == fresh_spec(self.probed_at_ns, now_ns, duration_nanos(ttl)),
    {
        let ttl_ns = duration_as_nanos(&ttl);
        let now = clock_ns();
        self.is_fresh_at(now, ttl_ns)
    }
}

/// The capabilities a probe reports: unknown when the agent was not detected,
/// and otherwise fully supported, with the observed version standing in for
/// the ACP version until the protocol handshake is wired.
pub fn probe_agent_capabilities(detected: bool, version: Option<String>) -> (r: AgentCapabilities)
    ensures
        r.detected == detected,
        !detected ==> r.version is None && r.acp_version is None && forall|i: int| 0 <= i < 5
            ==> probe_results(r)[i] == ProbeResult::NotSupported,
        detected ==> r.version == version && r.acp_version == version && forall|i: int| 0 <= i < 5
            ==> probe_results(r)[i] == ProbeResult::Supported,
{
    if !detected {
        return AgentCapabilities::unknown();
    }
    let acp = clone_opt_string(&version);
    AgentCapabilities::fully_supported(true, version, acp)
}

/// The characters of `s` before its first line feed.
pub open spec fn first_line(s: Seq<char>) -> Seq<char>
    decreases s.len(),
{
    if s.len() == 0 || s[0] == '\n' {
        Seq::empty()
    } else {
        seq![s[0]] + first_line(s.drop_first())
    }
}

/// The version an agent's `--version` output reports: its first line,
/// trimmed, unless that is empty.
pub open spec fn version_of_output(stdout: Seq<char>) -> Option<Seq<char>> {
    let v = trim_spec(first_line(stdout));
    if v.len() == 0 { None } else { Some(v) }
}

/// The version text in the standard output of `<agent> --version`.
pub fn version_from_output(stdout: &str) -> (r: Option<String>)
    ensures
        match version_of_output(stdout@) {
            Some(v) => r is Some && r->0@ == v,
            None => r is None,
        },
{
    let n = stdout.unicode_len();
    let mut i: usize = 0;
    while i < n && stdout.get_char(i) != '\n'
        invariant
            n == stdout@.len(),
            i <= n,
            forall|k: int| 0 <= k < i ==> stdout@[k] != '\n',
        decreases n - i,
    {
        i = i + 1;
    }
    proof {
        lemma_first_line(stdout@, i as int);
    }
    let line = stdout.substring_char(0, i);
    let v = trim_str(line);
    if v.as_str().unicode_len() == 0 {
        None
    } else {
        Some(v)
    }
}

proof fn lemma_first_line(s: Seq<char>, i: int)
    requires
        0 <= i <= s.len(),
        forall|k: int| 0 <= k < i ==> s[k] != '\n',
        i == s.len() || s[i] == '\n',
    ensures
        first_line(s) == s.subrange(0, i),
    decreases i,
{
    if i > 0 {
        let t = s.drop_first();
        assert forall|k: int| 0 <= k < i - 1 implies t[k] != '\n' by {
            assert(t[k] == s[k + 1]);
        }
        lemma_first_line(t, i - 1);
        assert(s.subrange(0, i) =~= seq![s[0]] + t.subrange(0, i - 1));
    } else {
        assert(s.subrange(0, 0) =~= Seq::<char>::empty());
    }
}

// ---------------------------------------------------------------------------
// Capability Cache (TTL-based)
// ---------------------------------------------------------------------------

/// Whether a cache lookup hit a fresh entry, or why it missed.
#[derive(Debug, Clone, Copy, PartialEq, Eq, Structural)]
pub enum CacheStatus {
    Hit { age_ms: u64, total_cached: usize },
    MissStale,
    MissAbsent,
}

/// Default freshness of cached capabilities: 30 seconds, in nanoseconds.
pub const DEFAULT_TTL_NS: u128 = 30000000000;

/// TTL cache of agent capabilities, keyed by agent id: a hit avoids an ACP
/// call, an invalidation forces the next lookup to probe again.
pub struct CapabilityCache {
    entries: Vec<(String, AgentCapabilities)>,
    ttl_ns: u128,
}

impl CapabilityCache {
    /// No agent id occurs twice.
    #[verifier::type_invariant]
    pub closed spec fn wf(&self) -> bool {
        forall|i: int, j: int|
            0 <= i < self.entries@.len() && 0 <= j < self.entries@.len() && i != j
                ==> self.entries@[i].0@ != self.entries@[j].0@
    }

    /// The cached capabilities of each agent id, fresh or stale.
    pub closed spec fn view(&self) -> Map<Seq<char>, AgentCapabilities> {
        Map::new(
            |id: Seq<char>| exists|i: int| 0 <= i < self.entries@.len() && self.entries@[i].0@ == id,
            |id: Seq<char>| self.entries@[choose|i: int| 0 <= i < self.entries@.len() && self.entries@[i].0@ == id].1,
        )
    }

    /// How long an entry stays fresh, in nanoseconds.
    pub closed spec fn ttl_of(&self) -> u128 {
        self.ttl_ns
    }

    /// Whether a lookup of `id` at `now_ns` hits: the agent is cached and its
    /// probe is fresh under the cache's TTL.
    pub open spec fn hit_at(&self, id: Seq<char>, now_ns: u128) -> bool {
        self.view().dom().contains(id) && fresh_spec(self.view()[id].probed_at_ns, now_ns, self.ttl_of())
    }

    /// The status of a lookup of `id` at `now_ns`.
    pub open spec fn status_at(&self, id: Seq<char>, now_ns: u128) -> CacheStatus {
        if !self.view().dom().contains(id) {
            CacheStatus::MissAbsent
        } else if self.hit_at(id, now_ns) {
            CacheStatus::Hit {
                age_ms: (age_ns(self.view()[id].probed_at_ns, now_ns) / NANOS_PER_MILLI) as u64,
                total_cached: self.view().len() as usize,
            }
        } else {
            CacheStatus::MissStale
        }
    }

    /// The answer of a lookup of `id` at `now_ns`: `r` is the cached entry
    /// exactly on a hit.
    pub open spec fn lookup_at(&self, id: Seq<char>, now_ns: u128, r: Option<&AgentCapabilities>) -> bool {
        &&& (r is Some <==> self.hit_at(id, now_ns))
        &&& (r matches Some(c) ==> *c == self.view()[id])
    }

    /// The map of a well-formed cache is finite.
    pub proof fn lemma_view_finite(&self)
        requires
            self.wf(),
        ensures
            self.view().dom().finite(),
    {
        self.lemma_len();
    }

    proof fn lemma_view_at(&self, i: int)
        requires
            self.wf(),
            0 <= i < self.entries@.len(),
        ensures
            self.view().dom().contains(self.entries@[i].0@),
            self.view()[self.entries@[i].0@] == self.entries@[i].1,
    {
        let id = self.entries@[i].0@;
        let k = choose|k: int| 0 <= k < self.entries@.len() && self.entries@[k].0@ == id;
        assert(k == i);
    }

    proof fn lemma_len(&self)
        requires
            self.wf(),
        ensures
            self.view().dom().finite(),
            self.view().len() == self.entries@.len(),
    {
        let ids = self.entries@.map_values(|e: (String, AgentCapabilities)| e.0@);
        assert(ids.no_duplicates()) by {
            assert forall|i: int, j: int| 0 <= i < ids.len() && 0 <= j < ids.len() && i != j implies ids[i] != ids[j] by {
                assert(ids[i] == self.entries@[i].0@);
                assert(ids[j] == self.entries@[j].0@);
            }
        }
        assert(self.view().dom() =~= ids.to_set()) by {
            assert forall|id: Seq<char>| self.view().dom().contains(id) implies ids.to_set().contains(id) by {
                let i = choose|i: int| 0 <= i < self.entries@.len() && self.entries@[i].0@ == id;
                assert(ids[i] == id);
            }
            assert forall|id: Seq<char>| ids.to_set().contains(id) implies self.view().dom().contains(id) by {
                let i = choose|i: int| 0 <= i < ids.len() && ids[i] == id;
                assert(self.entries@[i].0@ == id);
            }
        }
        ids.unique_seq_to_set();
    }

    /// Index of the entry for `agent_id`, if any.
    fn find(&self, agent_id: &str) -> (r: Option<usize>)
        requires
            self.wf(),
        ensures
            match r {
                Some(i) => i < self.entries@.len() && self.entries@[i as int].0@ == agent_id@,
                None => !self.view().dom().contains(agent_id@),
            },
    {
        let mut i: usize = 0;
        while i < self.entries.len()
            invariant
                i <= self.entries.len(),
                forall|k: int| 0 <= k < i ==> self.entries@[k].0@ != agent_id@,
            decreases self.entries.len() - i,
        {
            if str_eq(self.entries[i].0.as_str(), agent_id) {
                return Some(i);
            }
            i = i + 1;
        }
        None
    }

    /// An empty cache whose entries stay fresh for `ttl`.
    pub fn new(ttl: Duration) -> (r: Self)
        ensures
            r.view() == Map::<Seq<char>, AgentCapabilities>::empty(),
            r.ttl_of() == duration_nanos(ttl),
    {
        Self::with_ttl_ns(duration_as_nanos(&ttl))
    }

    /// An empty cache whose entries stay fresh for `ttl_ns` nanoseconds.
    pub fn with_ttl_ns(ttl_ns: u128) -> (r: Self)
        ensures
            r.view() == Map::<Seq<char>, AgentCapabilities>::empty(),
            r.ttl_of() == ttl_ns,
    {
        let r = Self { entries: Vec::new(), ttl_ns };
        assert(r.view() =~= Map::<Seq<char>, AgentCapabilities>::empty());
        r
    }

    /// Default 30-second TTL cache.
    pub fn with_default_ttl() -> (r: Self)
        ensures
            r.view() == Map::<Seq<char>, AgentCapabilities>::empty(),
            r.ttl_of() == DEFAULT_TTL_NS,
    {
        Self::with_ttl_ns(DEFAULT_TTL_NS)
    }

    /// The cached capabilities of `agent_id` if they are fresh at `now_ns`.
    pub fn get_at(&self, agent_id: &str, now_ns: u128) -> (r: Option<&AgentCapabilities>)
        ensures
            self.lookup_at(agent_id@, now_ns, r),
    {
        proof {
            use_type_invariant(self);
        }
        match self.find(agent_id) {
            Some(i) => {
                proof {
                    self.lemma_view_at(i as int);
                }
                let caps = &self.entries[i].1;
                if caps.is_fresh_at(now_ns, self.ttl_ns) {
                    Some(caps)
                } else {
                    None
                }
            },
            None => None,
        }
    }

    /// Get cached capabilities if still fresh, reading the clock for the
    /// time now (see `get_at`).
    pub fn get(&self, agent_id: &str) -> (r: Option<&AgentCapabilities>)
        ensures
            exists|now_ns: u128| self.lookup_at(agent_id@, now_ns, r),
    {
        proof {
            use_type_invariant(self);
        }
        let now = clock_ns();
        self.get_at(agent_id, now)
    }

    /// The lookup of `agent_id` at `now_ns` with its status: `MissAbsent` for
    /// an agent not cached; a hit, with the entry's age and the cache size,
    /// when its probe is fresh; `MissStale` otherwise.
    pub fn get_with_status_at(&self, agent_id: &str, now_ns: u128) -> (r: (Option<&AgentCapabilities>, CacheStatus))
        ensures
            self.lookup_at(agent_id@, now_ns, r.0),
            r.1 == self.status_at(agent_id@, now_ns),
    {
        proof {
            use_type_invariant(self);
        }
        match self.find(agent_id) {
            Some(i) => {
                proof {
                    self.lemma_view_at(i as int);
                    self.lemma_len();
                }
                let caps = &self.entries[i].1;
                if caps.is_fresh_at(now_ns, self.ttl_ns) {
                    let age_ns = if now_ns >= caps.probed_at_ns { now_ns - caps.probed_at_ns } else { 0 };
                    let age_ms = (age_ns / NANOS_PER_MILLI) as u64;
                    (Some(caps), CacheStatus::Hit { age_ms, total_cached: self.entries.len() })
                } else {
                    (None, CacheStatus::MissStale)
                }
            },
            None => (None, CacheStatus::MissAbsent),
        }
    }

    /// Get capabilities with whether it was a cache hit or miss, reading the
    /// clock for the time now (see `get_with_status_at`).
    pub fn get_with_status(&self, agent_id: &str) -> (r: (Option<&AgentCapabilities>, CacheStatus))
        ensures
            exists|now_ns: u128| self.lookup_at(agent_id@, now_ns, r.0) && r.1 == self.status_at(agent_id@, now_ns),
    {
        proof {
            use_type_invariant(self);
        }
        let now = clock_ns();
        self.get_with_status_at(agent_id, now)
    }

    /// Insert or update cached capabilities.
    pub fn insert(&mut self, agent_id: String, capabilities: AgentCapabilities)
        ensures
            final(self).view() == old(self).view().insert(agent_id@, capabilities),
            final(self).ttl_of() == old(self).ttl_of(),
            final(self).view().dom().finite(),
            final(self).view().len() == old(self).view().len() + (if old(self).view().dom().contains(agent_id@) {
                0int
            } else {
                1int
            }),
    {
        proof {
            use_type_invariant(&*self);
        }
        let ghost id = agent_id@;
        let ghost before = *self;
        match self.find(agent_id.as_str()) {
            Some(i) => {
                let ghost old_entries = self.entries@;
                let mut entries: Vec<(String, AgentCapabilities)> = Vec::new();
                std::mem::swap(&mut entries, &mut self.entries);
                entries.set(i, (agent_id, capabilities));
                proof {
                    assert forall|a: int, b: int|
                        0 <= a < entries@.len() && 0 <= b < entries@.len() && a != b
                        implies entries@[a].0@ != entries@[b].0@ by {
                        if a != i && b != i {
                            assert(entries@[a] == old_entries[a]);
                            assert(entries@[b] == old_entries[b]);
                        } else if a == i {
                            assert(old_entries[b].0@ != old_entries[i as int].0@);
                        } else {
                            assert(old_entries[a].0@ != old_entries[i as int].0@);
                        }
                    }
                }
                self.entries = entries;
                proof {
                    assert forall|k: Seq<char>| #[trigger] self.view().dom().contains(k)
                        == before.view().insert(id, capabilities).dom().contains(k) by {
                        if k == id {
                            assert(self.entries@[i as int].0@ == k);
                        } else if before.view().dom().contains(k) {
                            let j = choose|j: int| 0 <= j < old_entries.len() && old_entries[j].0@ == k;
                            assert(self.entries@[j].0@ == k);
                        } else if self.view().dom().contains(k) {
                            let j = choose|j: int| 0 <= j < self.entries@.len() && self.entries@[j].0@ == k;
                            assert(old_entries[j].0@ == k);
                        }
                    }
                    assert forall|k: Seq<char>| #[trigger] self.view().dom().contains(k)
                        implies self.view()[k] == before.view().insert(id, capabilities)[k] by {
                        let j = choose|j: int| 0 <= j < self.entries@.len() && self.entries@[j].0@ == k;
                        self.lemma_view_at(j);
                        if j != i {
                            before.lemma_view_at(j);
                        }
                    }
                    assert(self.view() =~= before.view().insert(id, capabilities));
                }
            },
            None => {
                let ghost old_entries = self.entries@;
                let mut entries: Vec<(String, AgentCapabilities)> = Vec::new();
                std::mem::swap(&mut entries, &mut self.entries);
                entries.push((agent_id, capabilities));
                proof {
                    let n = old_entries.len() as int;
                    assert forall|a: int, b: int|
                        0 <= a < entries@.len() && 0 <= b < entries@.len() && a != b
                        implies entries@[a].0@ != entries@[b].0@ by {
                        if a < n && b < n {
                            assert(entries@[a] == old_entries[a]);
                            assert(entries@[b] == old_entries[b]);
                        } else if a == n {
                            assert(entries@[b] == old_entries[b]);
                            assert(before.view().dom().contains(old_entries[b].0@)) by {
                                assert(old_entries[b].0@ == old_entries[b].0@);
                            }
                        } else {
                            assert(entries@[a] == old_entries[a]);
                            assert(before.view().dom().contains(old_entries[a].0@));
                        }
                    }
                }
                self.entries = entries;
                proof {
                    let n = old_entries.len() as int;
                    assert forall|k: Seq<char>| #[trigger] self.view().dom().contains(k)
                        == before.view().insert(id, capabilities).dom().contains(k) by {
                        if k == id {
                            assert(self.entries@[n].0@ == k);
                        } else if before.view().dom().contains(k) {
                            let j = choose|j: int| 0 <= j < old_entries.len() && old_entries[j].0@ == k;
                            assert(self.entries@[j].0@ == k);
                        } else if self.view().dom().contains(k) {
                            let j = choose|j: int| 0 <= j < self.entries@.len() && self.entries@[j].0@ == k;
                            assert(old_entries[j].0@ == k);
                        }
                    }
                    assert forall|k: Seq<char>| #[trigger] self.view().dom().contains(k)
                        implies self.view()[k] == before.view().insert(id, capabilities)[k] by {
                        let j = choose|j: int| 0 <= j < self.entries@.len() && self.entries@[j].0@ == k;
                        self.lemma_view_at(j);
                        if j != n {
                            before.lemma_view_at(j);
                        }
                    }
                    assert(self.view() =~= before.view().insert(id, capabilities));
                }
            },
        }
        proof {
            before.lemma_len();
            self.lemma_len();
            assert(self.view().dom() =~= before.view().dom().insert(id));
            vstd::set::axiom_set_insert_len(before.view().dom(), id);
        }
    }

    /// Invalidate cache for a specific agent.
    pub fn invalidate(&mut self, agent_id: &str)
        ensures
            final(self).view() == old(self).view().remove(agent_id@),
            final(self).ttl_of() == old(self).ttl_of(),
            final(self).view().dom().finite(),
            final(self).view().len() + (if old(self).view().dom().contains(agent_id@) {
                1int
            } else {
                0int
            }) == old(self).view().len(),
    {
        proof {
            use_type_invariant(&*self);
        }
        let ghost before = *self;
        match self.find(agent_id) {
            Some(i) => {
                let ghost old_entries = self.entries@;
                let mut entries: Vec<(String, AgentCapabilities)> = Vec::new();
                std::mem::swap(&mut entries, &mut self.entries);
                let _removed = entries.remove(i);
                proof {
                    assert forall|a: int, b: int|
                        0 <= a < entries@.len() && 0 <= b < entries@.len() && a != b
                        implies entries@[a].0@ != entries@[b].0@ by {
                        let a0 = if a < i { a } else { a + 1 };
                        let b0 = if b < i { b } else { b + 1 };
                        assert(entries@[a] == old_entries[a0]);
                        assert(entries@[b] == old_entries[b0]);
                    }
                }
                self.entries = entries;
                proof {
                    assert forall|k: Seq<char>| #[trigger] self.view().dom().contains(k)
                        == before.view().remove(agent_id@).dom().contains(k) by {
                        if self.view().dom().contains(k) {
                            let j = choose|j: int| 0 <= j < self.entries@.len() && self.entries@[j].0@ == k;
                            let j0 = if j < i { j } else { j + 1 };
                            assert(old_entries[j0].0@ == k);
                            assert(j0 != i);
                        }
                        if before.view().remove(agent_id@).dom().contains(k) {
                            let j = choose|j: int| 0 <= j < old_entries.len() && old_entries[j].0@ == k;
                            assert(j != i);
                            let j1 = if j < i { j } else { j - 1 };
                            assert(self.entries@[j1].0@ == k);
                        }
                    }
                    assert forall|k: Seq<char>| #[trigger] self.view().dom().contains(k)
                        implies self.view()[k] == before.view().remove(agent_id@)[k] by {
                        let j = choose|j: int| 0 <= j < self.entries@.len() && self.entries@[j].0@ == k;
                        let j0 = if j < i { j } else { j + 1 };
                        self.lemma_view_at(j);
                        before.lemma_view_at(j0);
                        assert(old_entries[j0] == self.entries@[j]);
                    }
                    assert(self.view() =~= before.view().remove(agent_id@));
                }
            },
            None => {
                assert(self.view() =~= before.view().remove(agent_id@));
            },
        }
        proof {
            before.lemma_len();
            self.lemma_len();
            assert(self.view().dom() =~= before.view().dom().remove(agent_id@));
            vstd::set::axiom_set_remove_len(before.view().dom(), agent_id@);
        }
    }

    /// Invalidate all cached capabilities.
    pub fn invalidate_all(&mut self)
        ensures
            final(self).view() == Map::<Seq<char>, AgentCapabilities>::empty(),
            final(self).ttl_of() == old(self).ttl_of(),
    {
        proof {
            use_type_invariant(&*self);
        }
        self.entries = Vec::new();
        assert(self.view() =~= Map::<Seq<char>, AgentCapabilities>::empty());
    }

    /// Force a refresh: the agent is probed again on its next lookup.
    pub fn refresh(&mut self, agent_id: &str) -> (r: &mut Self)
        ensures
            r.view() == old(self).view().remove(agent_id@),
            r.ttl_of() == old(self).ttl_of(),
            *final(self) == *final(r),
    {
        proof {
            use_type_invariant(&*self);
        }
        self.invalidate(agent_id);
        self
    }

    /// Number of cached entries.
    pub fn len(&self) -> (r: usize)
        ensures
            r == self.view().len(),
    {
        proof {
            use_type_invariant(self);
        }
        proof {
            self.lemma_len();
        }
        self.entries.len()
    }

    pub fn is_empty(&self) -> (r: bool)
        ensures
            r == (self.view().len() == 0),
    {
        proof {
            use_type_invariant(self);
        }
        proof {
            self.lemma_len();
        }
        self.entries.len() == 0
    }

    /// All cached agent ids, each once.
    pub fn agent_ids(&self) -> (r: Vec<&String>)
        ensures
            r@.len() == self.view().len(),
            forall|i: int| 0 <= i < r@.len() ==> self.view().dom().contains(#[trigger] r@[i]@),
            forall|i: int, j: int| 0 <= i < r@.len() && 0 <= j < r@.len() && i != j ==> r@[i]@ != r@[j]@,
    {
        proof {
            use_type_invariant(self);
        }
        proof {
            self.lemma_len();
        }
        let mut out: Vec<&String> = Vec::new();
        let mut i: usize = 0;
        while i < self.entries.len()
            invariant
                self.wf(),
                i <= self.entries.len(),
                out@.len() == i,
                forall|k: int| 0 <= k < i ==> out@[k]@ == self.entries@[k].0@,
            decreases self.entries.len() - i,
        {
            out.push(&self.entries[i].0);
            i = i + 1;
        }
        proof {
            assert forall|k: int| 0 <= k < out@.len() implies self.view().dom().contains(#[trigger] out@[k]@) by {
                self.lemma_view_at(k);
            }
        }
        out
    }
}

// ---------------------------------------------------------------------------
// Probe Error
// ---------------------------------------------------------------------------

#[derive(Debug)]
pub enum ProbeError {
    NotFound(String),
    Timeout(Duration),
    Protocol(String),
    VersionMismatch { minimum: String, found: String },
}

impl ProbeError {
    /// The message of the error, as shown to the user.
    pub fn to_string(&self) -> (r: String)
        ensures
            match self {
                ProbeError::NotFound(s) => r@ == "Agent not found on PATH: "@ + s@,
                ProbeError::Timeout(d) => r@ == "Probe timed out after "@ + duration_debug_of(*d),
                ProbeError::Protocol(s) => r@ == "Protocol error: "@ + s@,
                ProbeError::VersionMismatch { minimum, found } => r@ == "Version mismatch: need "@
                    + minimum@ + ", found "@ + found@,
            },
    {
        match self {
            ProbeError::NotFound(s) => {
                let mut r = "Agent not found on PATH: ".to_owned();
                r.append(s.as_str());
                r
            },
            ProbeError::Timeout(d) => {
                let mut r = "Probe timed out after ".to_owned();
                let t = duration_debug_text(d);
                r.append(t.as_str());
                r
            },
            ProbeError::Protocol(s) => {
                let mut r = "Protocol error: ".to_owned();
                r.append(s.as_str());
                r
            },
            ProbeError::VersionMismatch { minimum, found } => {
                let mut r = "Version mismatch: need ".to_owned();
                r.append(minimum.as_str());
                r.append(", found ");
                r.append(found.as_str());
                r
            },
        }
    }
}

/// Cache laws over the cached map: a lookup after an insert finds the inserted
/// capabilities, an invalidation after an insert leaves no entry, and
/// inserting for one agent leaves the entries of the others as they were.
pub proof fn lemma_cache_insert_then_lookup(
    m: Map<Seq<char>, AgentCapabilities>,
    id: Seq<char>,
    other: Seq<char>,
    c: AgentCapabilities,
)
    ensures
        m.insert(id, c).dom().contains(id) && m.insert(id, c)[id] == c,
        !m.insert(id, c).remove(id).dom().contains(id),
        other != id ==> (m.insert(id, c).dom().contains(other) == m.dom().contains(other)
            && (m.dom().contains(other) ==> m.insert(id, c)[other] == m[other])),
{
}

/// Freshness: a probe is fresh from the moment it is made until the TTL has
/// passed, and stale from then on; under a zero TTL it is never fresh.
pub proof fn lemma_freshness(probed_at_ns: u128, ttl_ns: u128, now_ns: u128)
    ensures
        ttl_ns > 0 ==> fresh_spec(probed_at_ns, probed_at_ns, ttl_ns),
        now_ns >= probed_at_ns ==> (fresh_spec(probed_at_ns, now_ns, ttl_ns) <==> now_ns - probed_at_ns < ttl_ns),
        ttl_ns == 0 ==> !fresh_spec(probed_at_ns, now_ns, ttl_ns),
{
}

/// A cache hit within the TTL: right after capabilities are inserted into a
/// cache with a non-zero TTL, a lookup at their probe time hits and returns
/// them, and a lookup once the TTL has passed misses as stale.
pub proof fn lemma_insert_then_hit(before: CapabilityCache, after: CapabilityCache, id: Seq<char>, c: AgentCapabilities)
    requires
        after.view() == before.view().insert(id, c),
        after.ttl_of() == before.ttl_of(),
        before.ttl_of() > 0,
    ensures
        after.hit_at(id, c.probed_at_ns),
        after.view()[id] == c,
        c.probed_at_ns + after.ttl_of() <= u128::MAX ==> after.status_at(id, (c.probed_at_ns + after.ttl_of()) as u128)
            == CacheStatus::MissStale,
{
}

/// A probe result counts as supported only when it is definitive; a timeout
/// or an error is never definitive.
pub proof fn lemma_supported_is_definitive(p: ProbeResult)
    ensures
        probe_supported(p) ==> probe_definitive(p),
        p is Timeout ==> !probe_definitive(p),
        p is Error ==> !probe_definitive(p),
{
}

} // verus!
