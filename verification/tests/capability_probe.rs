use std::time::{Duration, Instant};
use terax_agents::capability_probe::{
    clock_ns, probe_agent_capabilities, version_from_output, AgentCapabilities, CacheStatus, CapabilityCache,
    ProbeError, ProbeResult,
};

fn wait(d: Duration) {
    let start = Instant::now();
    while start.elapsed() < d {}
}

#[test]
fn cache_hit_within_ttl() {
    let mut cache = CapabilityCache::new(Duration::from_secs(30));
    cache.insert("test-agent".into(), AgentCapabilities::unknown());
    assert!(cache.get("test-agent").is_some());
}

#[test]
fn cache_miss_after_ttl_expires() {
    let mut cache = CapabilityCache::new(Duration::from_millis(1));
    cache.insert("test-agent".into(), AgentCapabilities::unknown());
    wait(Duration::from_millis(5));
    assert!(cache.get("test-agent").is_none());
}

#[test]
fn cache_invalidate_removes_entry() {
    let mut cache = CapabilityCache::new(Duration::from_secs(30));
    cache.insert("test-agent".into(), AgentCapabilities::unknown());
    cache.invalidate("test-agent");
    assert!(cache.get("test-agent").is_none());
}

#[test]
fn cache_invalidate_all_clears_everything() {
    let mut cache = CapabilityCache::new(Duration::from_secs(30));
    cache.insert("a".into(), AgentCapabilities::unknown());
    cache.insert("b".into(), AgentCapabilities::unknown());
    cache.invalidate_all();
    assert!(cache.is_empty());
}

#[test]
fn cache_refresh_invalidates_and_returns_self() {
    let mut cache = CapabilityCache::new(Duration::from_secs(30));
    cache.insert("test-agent".into(), AgentCapabilities::unknown());
    cache.refresh("test-agent");
    assert!(cache.get("test-agent").is_none());
}

#[test]
fn probe_result_is_supported() {
    assert!(ProbeResult::Supported.is_supported());
    assert!(!ProbeResult::NotSupported.is_supported());
    assert!(!ProbeResult::Timeout.is_supported());
    assert!(!ProbeResult::Error("oops".into()).is_supported());
}

#[test]
fn probe_result_is_definitive() {
    assert!(ProbeResult::Supported.is_definitive());
    assert!(ProbeResult::NotSupported.is_definitive());
    assert!(!ProbeResult::Timeout.is_definitive());
    assert!(!ProbeResult::Error("oops".into()).is_definitive());
}

#[test]
fn unknown_caps_all_not_supported() {
    let caps = AgentCapabilities::unknown();
    assert!(!caps.detected);
    assert!(!caps.session_list.is_supported());
    assert!(!caps.session_load.is_supported());
    assert!(!caps.session_resume.is_supported());
    assert!(!caps.model_selection.is_supported());
    assert!(!caps.mode_selection.is_supported());
}

#[test]
fn fully_supported_caps() {
    let caps = AgentCapabilities::fully_supported(
        true,
        Some("codex-cli 2.1.0".into()),
        Some("1.2.0".into()),
    );
    assert!(caps.detected);
    assert!(caps.session_list.is_supported());
    assert!(caps.session_load.is_supported());
    assert!(caps.meets_minimum_version());
    assert!(caps.supports_session_history());
}

#[test]
fn version_check_minimum() {
    let mut caps = AgentCapabilities::unknown();
    assert!(!caps.meets_minimum_version());

    caps.acp_version = Some("0.9.0".into());
    assert!(!caps.meets_minimum_version());

    caps.acp_version = Some("1.0.0".into());
    assert!(caps.meets_minimum_version());

    caps.acp_version = Some("2.0.0".into());
    assert!(caps.meets_minimum_version());
}

#[test]
fn get_with_status_returns_correct_status() {
    let mut cache = CapabilityCache::new(Duration::from_secs(30));
    cache.insert("agent-a".into(), AgentCapabilities::unknown());

    let (caps, status) = cache.get_with_status("agent-a");
    assert!(caps.is_some());
    assert!(matches!(status, CacheStatus::Hit { .. }));

    let (caps, status) = cache.get_with_status("agent-b");
    assert!(caps.is_none());
    assert_eq!(status, CacheStatus::MissAbsent);
}

#[test]
fn stale_cache_returns_miss_stale() {
    let mut cache = CapabilityCache::new(Duration::from_millis(1));
    cache.insert("agent-a".into(), AgentCapabilities::unknown());
    wait(Duration::from_millis(5));

    let (caps, status) = cache.get_with_status("agent-a");
    assert!(caps.is_none());
    assert_eq!(status, CacheStatus::MissStale);
}

#[test]
fn probe_error_display() {
    let e = ProbeError::NotFound("codex".into());
    assert!(e.to_string().contains("codex"));

    let e = ProbeError::Timeout(Duration::from_secs(5));
    assert!(e.to_string().contains("5s"));

    let e = ProbeError::VersionMismatch {
        minimum: "1.0.0".into(),
        found: "0.9.0".into(),
    };
    assert!(e.to_string().contains("1.0.0"));
}

#[test]
fn probe_error_messages_exact() {
    assert_eq!(ProbeError::NotFound("x".into()).to_string(), "Agent not found on PATH: x");
    assert_eq!(ProbeError::Protocol("bad".into()).to_string(), "Protocol error: bad");
    assert_eq!(
        ProbeError::VersionMismatch { minimum: "1.0.0".into(), found: "0.9.0".into() }.to_string(),
        "Version mismatch: need 1.0.0, found 0.9.0"
    );
    assert_eq!(ProbeError::Timeout(Duration::from_millis(1500)).to_string(), "Probe timed out after 1.5s");
}

#[test]
fn cache_insert_replaces_and_counts_once() {
    let mut cache = CapabilityCache::new(Duration::from_secs(30));
    cache.insert("a".into(), AgentCapabilities::unknown());
    cache.insert("a".into(), AgentCapabilities::fully_supported(true, None, None));
    assert_eq!(cache.len(), 1);
    assert!(cache.get("a").unwrap().detected);
    let (_, status) = cache.get_with_status("a");
    assert!(matches!(status, CacheStatus::Hit { total_cached: 1, .. }));
    cache.insert("b".into(), AgentCapabilities::unknown());
    let mut ids: Vec<String> = cache.agent_ids().into_iter().cloned().collect();
    ids.sort();
    assert_eq!(ids, vec!["a".to_string(), "b".to_string()]);
}

#[test]
fn default_ttl_cache_is_empty_and_fresh() {
    let mut cache = CapabilityCache::with_default_ttl();
    assert!(cache.is_empty());
    cache.insert("a".into(), AgentCapabilities::unknown());
    assert!(cache.get("a").is_some());
}

#[test]
fn version_order_is_lexicographic() {
    let mut caps = AgentCapabilities::unknown();
    caps.acp_version = Some("1".into());
    assert!(!caps.meets_minimum_version());
    caps.acp_version = Some("1.0.0-beta".into());
    assert!(caps.meets_minimum_version());
    caps.acp_version = Some("10.0".into());
    assert!(caps.meets_minimum_version());
}

#[test]
fn probe_capabilities_follow_detection() {
    let caps = probe_agent_capabilities(false, Some("v".into()));
    assert!(!caps.detected);
    assert!(caps.version.is_none());
    assert_eq!(caps.session_list, ProbeResult::NotSupported);
    let caps = probe_agent_capabilities(true, Some("codex 2.0".into()));
    assert!(caps.detected);
    assert_eq!(caps.version.as_deref(), Some("codex 2.0"));
    assert_eq!(caps.acp_version.as_deref(), Some("codex 2.0"));
    assert!(caps.supports_session_history());
}

#[test]
fn version_is_first_trimmed_line() {
    assert_eq!(version_from_output("  codex 2.1.0 \nmore\n").as_deref(), Some("codex 2.1.0"));
    assert_eq!(version_from_output("1.0\r\n").as_deref(), Some("1.0"));
    assert_eq!(version_from_output("\nsecond"), None);
    assert_eq!(version_from_output("   "), None);
    assert_eq!(version_from_output(""), None);
}

#[test]
fn zero_ttl_is_never_fresh() {
    let mut cache = CapabilityCache::new(Duration::from_secs(0));
    cache.insert("test-agent".into(), AgentCapabilities::unknown());
    assert!(cache.get("test-agent").is_none());
    assert!(!AgentCapabilities::unknown().is_fresh(Duration::from_secs(0)));
    assert!(AgentCapabilities::unknown().is_fresh(Duration::from_secs(3600)));
}

const MS: u128 = 1_000_000;

fn probed_at(ns: u128) -> AgentCapabilities {
    let mut caps = AgentCapabilities::unknown();
    caps.probed_at_ns = ns;
    caps
}

#[test]
fn freshness_at_a_given_time() {
    let caps = probed_at(1_000 * MS);
    assert!(caps.is_fresh_at(1_000 * MS, 1));
    assert!(caps.is_fresh_at(30_999 * MS, 30_000 * MS));
    assert!(!caps.is_fresh_at(31_000 * MS, 30_000 * MS));
    assert!(!caps.is_fresh_at(1_000 * MS, 0));
    // A clock that reads earlier than the probe counts as no time passed.
    assert!(caps.is_fresh_at(500 * MS, 1));
}

#[test]
fn lookup_at_a_given_time() {
    let mut cache = CapabilityCache::with_ttl_ns(30_000 * MS);
    cache.insert("agent-a".into(), probed_at(1_000 * MS));
    cache.insert("agent-b".into(), probed_at(2_000 * MS));
    assert!(cache.get_at("agent-a", 1_000 * MS).is_some());
    assert!(cache.get_at("agent-a", 31_000 * MS).is_none());
    assert!(cache.get_at("agent-c", 1_000 * MS).is_none());

    let (caps, status) = cache.get_with_status_at("agent-a", 11_000 * MS + 999);
    assert!(caps.is_some());
    assert_eq!(status, CacheStatus::Hit { age_ms: 10_000, total_cached: 2 });
    let (caps, status) = cache.get_with_status_at("agent-b", 40_000 * MS);
    assert!(caps.is_none());
    assert_eq!(status, CacheStatus::MissStale);
    let (caps, status) = cache.get_with_status_at("agent-c", 40_000 * MS);
    assert!(caps.is_none());
    assert_eq!(status, CacheStatus::MissAbsent);
}

#[test]
fn cache_ttl_is_exact() {
    let mut cache = CapabilityCache::new(Duration::from_micros(1500));
    cache.insert("a".into(), probed_at(0));
    assert!(cache.get_at("a", 1_499_999).is_some());
    assert!(cache.get_at("a", 1_500_000).is_none());
    let mut cache = CapabilityCache::with_default_ttl();
    cache.insert("a".into(), probed_at(0));
    assert!(cache.get_at("a", 30_000 * MS - 1).is_some());
    assert!(cache.get_at("a", 30_000 * MS).is_none());
}

#[test]
fn cache_length_follows_inserts_and_invalidations() {
    let mut cache = CapabilityCache::with_ttl_ns(10);
    cache.insert("a".into(), probed_at(0));
    assert_eq!(cache.len(), 1);
    cache.insert("a".into(), probed_at(5));
    assert_eq!(cache.len(), 1);
    cache.insert("b".into(), probed_at(5));
    assert_eq!(cache.len(), 2);
    cache.invalidate("zzz");
    assert_eq!(cache.len(), 2);
    cache.invalidate("a");
    assert_eq!(cache.len(), 1);
}

#[test]
fn probe_time_comes_from_the_clock() {
    let before = clock_ns();
    let caps = AgentCapabilities::unknown();
    let after = clock_ns();
    assert!(before <= caps.probed_at_ns && caps.probed_at_ns <= after);
}
