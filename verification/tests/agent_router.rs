use terax_agents::agent_router::{route, ExecutionMode, RouterError, SessionInfo};
use terax_agents::session_store::{SessionRecord, SessionStatus, TitleSource, TokenUsage};

#[test]
fn execution_mode_from_str() {
    assert_eq!(ExecutionMode::from("api_provider"), ExecutionMode::ApiProvider);
    assert_eq!(ExecutionMode::from("acp_agent"), ExecutionMode::AcpAgent);
    assert_eq!(ExecutionMode::from("unknown"), ExecutionMode::ApiProvider); // safe default
}

#[test]
fn execution_mode_display() {
    assert_eq!(ExecutionMode::ApiProvider.to_string(), "api_provider");
    assert_eq!(ExecutionMode::AcpAgent.to_string(), "acp_agent");
}

#[test]
fn execution_mode_text_roundtrip() {
    for m in [ExecutionMode::ApiProvider, ExecutionMode::AcpAgent] {
        assert_eq!(ExecutionMode::from(m.to_string().as_str()), m);
    }
}

#[test]
fn session_info_from_record() {
    let record = SessionRecord {
        session_id: "s1".into(),
        title: Some("My Session".into()),
        title_source: TitleSource::User,
        agent_id: "codex-cli".into(),
        work_dirs: vec![],
        created_at: 1000,
        updated_at: 2000,
        last_message_preview: Some("Hello...".into()),
        token_usage: Some(TokenUsage {
            input_tokens: 100,
            output_tokens: 50,
            total_tokens: 150,
            max_tokens: 4096,
        }),
        meta: None,
        status: SessionStatus::Active,
    };

    let info: SessionInfo = record.into();
    assert_eq!(info.session_id, "s1");
    assert_eq!(info.title.as_deref(), Some("My Session"));
    assert_eq!(info.title_source.as_deref(), Some("user"));
    assert_eq!(info.agent_id, "codex-cli");
    assert_eq!(info.status, "active");
}

#[test]
fn session_info_timestamps_are_decimal() {
    let record = SessionRecord {
        session_id: "s2".into(),
        title: None,
        title_source: TitleSource::Provisional,
        agent_id: "a".into(),
        work_dirs: vec!["/tmp".into()],
        created_at: 0,
        updated_at: 18446744073709551615,
        last_message_preview: None,
        token_usage: None,
        meta: None,
        status: SessionStatus::Unreachable,
    };
    let info = SessionInfo::from_record(record);
    assert_eq!(info.created_at, "0");
    assert_eq!(info.updated_at, "18446744073709551615");
    assert_eq!(info.status, "unreachable");
    assert_eq!(info.title_source.as_deref(), Some("provisional"));
    assert!(info.token_usage.is_none());
}

#[test]
fn route_picks_the_backend_of_the_mode() {
    let registered = vec!["api_provider".to_string(), "acp_agent".to_string()];
    assert_eq!(route(ExecutionMode::ApiProvider, &registered).unwrap(), "api_provider");
    assert_eq!(route(ExecutionMode::AcpAgent, &registered).unwrap(), "acp_agent");
}

#[test]
fn route_without_backend_names_the_mode() {
    let only_api = vec!["api_provider".to_string()];
    match route(ExecutionMode::AcpAgent, &only_api) {
        Err(RouterError::NoBackend(name)) => assert_eq!(name, "acp_agent"),
        other => panic!("expected NoBackend, got {:?}", other),
    }
    assert!(matches!(route(ExecutionMode::ApiProvider, &vec![]), Err(RouterError::NoBackend(_))));
}

#[test]
fn router_dispatches_to_active_backend() {
    let registered = vec!["api_provider".to_string(), "acp_agent".to_string()];
    let mode = ExecutionMode::ApiProvider;
    assert_eq!(route(mode, &registered).unwrap(), "api_provider");
    let mode = ExecutionMode::AcpAgent;
    assert_eq!(route(mode, &registered).unwrap(), "acp_agent");
}

#[test]
fn router_no_backend_error() {
    let registered: Vec<String> = Vec::new();
    let result = route(ExecutionMode::ApiProvider, &registered);
    assert!(result.is_err());
    assert!(matches!(result.unwrap_err(), RouterError::NoBackend(_)));
}

#[test]
fn router_only_api_provider_errors_on_acp_mode() {
    let registered = vec!["api_provider".to_string()];
    let result = route(ExecutionMode::AcpAgent, &registered);
    assert!(result.is_err());
}
