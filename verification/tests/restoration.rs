use terax_agents::restoration::{
    has_in_progress_tools, has_pending_approvals, load_activates, may_restore_from_lookups,
    reconcile_report, restore_from_record,
    validate_record, ActionKind, DegradationPolicy, RestorationContract, RestorationError,
    RestorationOutcome, SessionAction,
};
use terax_agents::session_commands::SerdeOutcome;
use terax_agents::session_store::{
    check_status_transition, plan_reconcile, SessionRecord, SessionStatus, TitleSource, TokenUsage,
};

fn make_record(id: &str, title: &str, status: SessionStatus) -> SessionRecord {
    SessionRecord {
        session_id: id.to_string(),
        title: Some(title.to_string()),
        title_source: TitleSource::User,
        agent_id: "codex-cli".to_string(),
        work_dirs: vec!["/tmp/test".to_string()],
        created_at: 1000,
        updated_at: 1100,
        last_message_preview: None,
        token_usage: None,
        meta: None,
        status,
    }
}

#[test]
fn contract_covers_all_dropped_items() {
    let contract = RestorationContract::default();
    assert!(contract.dropped.iter().any(|d| d.name.contains("shell")));
    assert!(contract.dropped.iter().any(|d| d.name.contains("Scroll")));
    assert!(contract.must.message_history);
}

#[test]
fn degradation_policy_mappings() {
    let contract = RestorationContract::default();

    assert_eq!(
        contract.degradation_policy_for("pending_approvals"),
        DegradationPolicy::Skip
    );
    assert_eq!(
        contract.degradation_policy_for("interrupted_tools"),
        DegradationPolicy::RetryOnce
    );
    assert_eq!(
        contract.degradation_policy_for("active_model"),
        DegradationPolicy::Unavailable
    );
    assert_eq!(
        contract.degradation_policy_for("unknown_field"),
        DegradationPolicy::Skip
    );
}

#[test]
fn degradation_policy_other_items() {
    let contract = RestorationContract::default();
    assert_eq!(contract.degradation_policy_for("diff_queue"), DegradationPolicy::Skip);
    assert_eq!(contract.degradation_policy_for("session_mode"), DegradationPolicy::Unavailable);
}

#[test]
fn session_action_has_unique_trace_ids() {
    let a1 = SessionAction::new("s1".into(), ActionKind::Load, uuid::Uuid::new_v4());
    let a2 = SessionAction::new("s1".into(), ActionKind::Load, uuid::Uuid::new_v4());
    assert_ne!(a1.trace_id, a2.trace_id);
    assert_eq!(a1.action, ActionKind::Load);
}

#[test]
fn restore_idle_session_fills_must_items() {
    let mut rec = make_record("test-session-1", "My Session", SessionStatus::Idle);
    rec.token_usage = Some(TokenUsage { input_tokens: 1, output_tokens: 2, total_tokens: 3, max_tokens: 4 });
    match restore_from_record("test-session-1", Some(&rec)).unwrap() {
        RestorationOutcome::Full(contract) => {
            assert_eq!(contract.session_id, "test-session-1");
            assert_eq!(contract.must.title.as_deref(), Some("My Session"));
            assert_eq!(contract.must.title_source.as_deref(), Some("user"));
            assert_eq!(contract.must.agent_id, "codex-cli");
            assert_eq!(contract.must.token_usage.unwrap().total_tokens, 3);
            assert!(contract.must.message_history);
            assert!(!contract.may.pending_approvals);
            assert_eq!(contract.dropped.len(), 4);
        }
        _ => panic!("Expected Full restoration"),
    }
}

#[test]
fn restore_expired_deleted_unreachable_and_missing() {
    let rec = make_record("dead-session", "Dead", SessionStatus::Expired);
    assert!(matches!(restore_from_record("dead-session", Some(&rec)), Err(RestorationError::Expired)));
    let rec = make_record("gone", "Gone", SessionStatus::Deleted);
    match restore_from_record("gone", Some(&rec)) {
        Err(RestorationError::MustItemFailed(item, reason)) => {
            assert_eq!(item, "session_record");
            assert_eq!(reason, "Session has been deleted");
        }
        _ => panic!("expected MustItemFailed"),
    }
    let rec = make_record("offline", "Offline", SessionStatus::Unreachable);
    assert!(matches!(restore_from_record("offline", Some(&rec)), Err(RestorationError::AgentOffline(_))));
    match restore_from_record("nonexistent", None) {
        Err(RestorationError::MustItemFailed(_, reason)) => assert_eq!(reason, "Session not found in local store"),
        _ => panic!("expected MustItemFailed"),
    }
}

#[test]
fn restore_reads_may_items_from_meta() {
    let mut rec = make_record("s1", "T", SessionStatus::Closed);
    rec.meta = Some(
        r#"{"pending_approvals": true, "interrupted_tools": "yes", "active_model": "opus", "session_mode": 3}"#.into(),
    );
    match restore_from_record("s1", Some(&rec)).unwrap() {
        RestorationOutcome::Full(c) => {
            assert!(c.may.pending_approvals);
            assert!(!c.may.interrupted_tools);
            assert!(!c.may.diff_queue);
            assert_eq!(c.may.active_model.as_deref(), Some("opus"));
            assert!(c.may.session_mode.is_none());
        }
        _ => panic!("Expected Full restoration"),
    }
    rec.meta = Some("not json".into());
    match restore_from_record("s1", Some(&rec)).unwrap() {
        RestorationOutcome::Full(c) => {
            assert!(!c.may.pending_approvals);
            assert!(c.may.active_model.is_none());
        }
        _ => panic!("Expected Full restoration"),
    }
}

#[test]
fn may_items_from_lookups() {
    let m = may_restore_from_lookups(Some(false), Some(true), None, Some("plan".into()));
    assert!(!m.pending_approvals);
    assert!(m.interrupted_tools);
    assert!(!m.diff_queue);
    assert!(m.active_model.is_none());
    assert_eq!(m.session_mode.as_deref(), Some("plan"));
}

#[test]
fn validate_record_gate() {
    assert!(validate_record(Some(&make_record("s1", "OK", SessionStatus::Active))).is_ok());
    assert!(matches!(
        validate_record(Some(&make_record("s1", "Off", SessionStatus::Unreachable))),
        Err(RestorationError::AgentOffline(_))
    ));
    assert!(validate_record(Some(&make_record("s1", "OK", SessionStatus::Idle))).is_ok());
    assert!(validate_record(Some(&make_record("s1", "OK", SessionStatus::Closed))).is_ok());
    assert!(matches!(
        validate_record(Some(&make_record("dead", "Dead", SessionStatus::Expired))),
        Err(RestorationError::Expired)
    ));
    assert!(matches!(
        validate_record(Some(&make_record("d", "D", SessionStatus::Deleted))),
        Err(RestorationError::MustItemFailed(..))
    ));
    assert!(matches!(validate_record(None), Err(RestorationError::MustItemFailed(..))));
}

#[test]
fn acp_session_info_helpers() {
    assert!(has_pending_approvals(r#"{"pending_approvals": true}"#));
    assert!(!has_pending_approvals(r#"{"pending_approvals": false}"#));
    assert!(!has_pending_approvals(r#"{"pending_approvals": "true"}"#));
    assert!(!has_pending_approvals("[]"));
    assert!(has_in_progress_tools(r#"{"in_progress_tools": ["bash"]}"#));
    assert!(!has_in_progress_tools(r#"{"in_progress_tools": []}"#));
    assert!(!has_in_progress_tools(r#"{"in_progress_tools": "bash"}"#));
    assert!(!has_in_progress_tools("{"));
}

#[test]
fn serde_outcome_carries_must_items() {
    let rec = make_record("s9", "Nine", SessionStatus::Active);
    let outcome = restore_from_record("s9", Some(&rec)).unwrap();
    match SerdeOutcome::from(outcome) {
        SerdeOutcome::Full { session_id, title, title_source, agent_id } => {
            assert_eq!(session_id, "s9");
            assert_eq!(title.as_deref(), Some("Nine"));
            assert_eq!(title_source.as_deref(), Some("user"));
            assert_eq!(agent_id, "codex-cli");
        }
        _ => panic!("expected Full"),
    }
    let failed = RestorationOutcome::Failed {
        contract: RestorationContract::default(),
        failed_must: vec!["title".into()],
        error: "boom".into(),
    };
    match SerdeOutcome::from(failed) {
        SerdeOutcome::Failed { session_id, failed_must, error } => {
            assert_eq!(session_id, "");
            assert_eq!(failed_must, vec!["title".to_string()]);
            assert_eq!(error, "boom");
        }
        _ => panic!("expected Failed"),
    }
}

// Session loads through the status gate and contract, from the stored record
// (`None` when the store has no such session).

#[test]
fn load_session_restores_must_items() {
    let record = make_record("test-session-1", "My Session", SessionStatus::Idle);
    let outcome = restore_from_record("test-session-1", Some(&record)).unwrap();
    match outcome {
        RestorationOutcome::Full(contract) => {
            assert_eq!(contract.must.title.as_deref(), Some("My Session"));
            assert_eq!(contract.must.agent_id, "codex-cli");
            assert!(contract.must.message_history);
        }
        _ => panic!("Expected Full restoration"),
    }
    // The load then marks the session active, which the status gate allows.
    assert!(check_status_transition("test-session-1", record.status, SessionStatus::Active).is_ok());
}

#[test]
fn load_expired_session_fails() {
    let record = make_record("dead-session", "Dead", SessionStatus::Expired);
    let result = restore_from_record("dead-session", Some(&record));
    assert!(matches!(result, Err(RestorationError::Expired)));
}

#[test]
fn load_deleted_session_fails() {
    let record = make_record("gone", "Gone", SessionStatus::Deleted);
    let result = restore_from_record("gone", Some(&record));
    assert!(matches!(result, Err(RestorationError::MustItemFailed(..))));
}

#[test]
fn load_unreachable_session_returns_agent_offline() {
    let record = make_record("offline", "Offline", SessionStatus::Unreachable);
    let result = restore_from_record("offline", Some(&record));
    assert!(matches!(result, Err(RestorationError::AgentOffline(_))));
}

#[test]
fn load_nonexistent_session_fails() {
    let result = restore_from_record("nonexistent", None);
    assert!(matches!(result, Err(RestorationError::MustItemFailed(..))));
}

#[test]
fn validate_session_accepts_active() {
    let record = make_record("s1", "OK", SessionStatus::Active);
    assert!(validate_record(Some(&record)).is_ok());
}

#[test]
fn validate_session_rejects_expired() {
    let record = make_record("dead", "Dead", SessionStatus::Expired);
    assert!(matches!(validate_record(Some(&record)), Err(RestorationError::Expired)));
}

#[test]
fn unreachable_recovery_cycle() {
    let mut record = make_record("s1", "Recoverable", SessionStatus::Active);

    // The shim reports no active sessions.
    let plan = plan_reconcile(&vec![record.clone()], &vec![]);
    assert!(plan.newly_unreachable.contains(&"s1".to_string()));
    assert_eq!(plan.recovered.len(), 0);
    check_status_transition("s1", record.status, SessionStatus::Unreachable).unwrap();
    record.status = SessionStatus::Unreachable;

    // The shim comes back and reports s1.
    let plan = plan_reconcile(&vec![record.clone()], &vec!["s1".to_string()]);
    assert!(plan.recovered.contains(&"s1".to_string()));
    assert_eq!(plan.newly_unreachable.len(), 0);
    check_status_transition("s1", record.status, SessionStatus::Idle).unwrap();
    record.status = SessionStatus::Idle;
    assert_eq!(record.status, SessionStatus::Idle);
}

#[test]
fn load_failure_is_not_session_death() {
    let mut record = make_record("s1", "Test", SessionStatus::Active);

    let plan = plan_reconcile(&vec![record.clone()], &vec![]);
    assert_eq!(plan.newly_unreachable, vec!["s1".to_string()]);
    check_status_transition("s1", record.status, SessionStatus::Unreachable).unwrap();
    record.status = SessionStatus::Unreachable;

    // Loading answers offline, not expired, and changes nothing.
    let result = restore_from_record("s1", Some(&record));
    assert!(matches!(result, Err(RestorationError::AgentOffline(_))));
    assert_eq!(record.status, SessionStatus::Unreachable);
}

#[test]
fn reconcile_report_carries_the_plan() {
    let local = vec![
        make_record("s1", "A", SessionStatus::Unreachable),
        make_record("s2", "B", SessionStatus::Active),
    ];
    let plan = plan_reconcile(&local, &vec!["s1".to_string()]);
    let report = reconcile_report(plan, 3);
    assert_eq!(report.recovered, vec!["s1".to_string()]);
    assert_eq!(report.newly_unreachable, vec!["s2".to_string()]);
    assert!(report.expired.is_empty());
    assert_eq!(report.auto_gc, 3);
}

#[test]
fn load_activates_live_sessions_only() {
    assert!(load_activates(SessionStatus::Idle));
    assert!(load_activates(SessionStatus::Closed));
    assert!(!load_activates(SessionStatus::Expired));
    assert!(!load_activates(SessionStatus::Deleted));
}
