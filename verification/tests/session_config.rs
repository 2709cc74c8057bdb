use terax_agents::capability_probe::AgentCapabilities;
use terax_agents::discovery::build_probe_summary;
use terax_agents::session_config::{ConfigError, ModelInfo, SessionConfig, SessionMode};

fn mode(id: &str, name: &str) -> SessionMode {
    SessionMode { mode_id: id.into(), display_name: name.into(), description: None, icon: None }
}

fn model(id: &str) -> ModelInfo {
    ModelInfo { model_id: id.into(), display_name: id.into(), description: None, is_latest: false, cost_info: None }
}

#[test]
fn fetch_starts_empty() {
    let caps = AgentCapabilities::fully_supported(true, None, None);
    let config = SessionConfig::fetch_from_agent("s1", &caps).unwrap();
    assert_eq!(config.session_id, "s1");
    assert!(config.current_mode.is_none());
    assert!(config.available_modes.is_empty());
    assert!(config.available_models.is_empty());
}

#[test]
fn set_mode_selects_first_match() {
    let caps = AgentCapabilities::unknown();
    let mut config = SessionConfig::fetch_from_agent("s1", &caps).unwrap();
    config.available_modes = vec![mode("code", "Code"), mode("plan", "Plan"), mode("plan", "Plan 2")];
    config.set_mode("plan").unwrap();
    assert_eq!(config.current_mode.as_ref().unwrap().display_name, "Plan");
    match config.set_mode("missing") {
        Err(ConfigError::InvalidMode(m)) => assert_eq!(m, "missing"),
        other => panic!("expected InvalidMode, got {:?}", other),
    }
    assert_eq!(config.current_mode.as_ref().unwrap().mode_id, "plan");
}

#[test]
fn set_model_selects_or_rejects() {
    let caps = AgentCapabilities::unknown();
    let mut config = SessionConfig::fetch_from_agent("s1", &caps).unwrap();
    assert!(matches!(config.set_model("opus"), Err(ConfigError::InvalidModel(_))));
    config.available_models = vec![model("sonnet"), model("opus")];
    config.set_model("opus").unwrap();
    assert_eq!(config.current_model.as_ref().unwrap().model_id, "opus");
}

#[test]
fn probe_summary_reports_detection() {
    let caps = AgentCapabilities::fully_supported(true, Some("codex 2.1".into()), None);
    let summary = build_probe_summary("codex".into(), caps, Some("/usr/bin/codex".into()));
    assert_eq!(summary.command, "codex");
    assert!(summary.found);
    assert_eq!(summary.version.as_deref(), Some("codex 2.1"));
    assert_eq!(summary.resolved_path.as_deref(), Some("/usr/bin/codex"));
}
