use temper_state::authz::build_authz_resource_attrs;
use temper_state::authz::context_target;
use temper_state::authz::decision_label;
use temper_state::authz::decision_nanos;
use temper_state::authz::decision_subject;
use temper_state::authz::authorize_with_context;
use temper_state::authz::AuthzDecision;
use temper_state::authz::AuthzDenial;
use temper_state::authz::ContextEntityDecl;
use temper_state::authz::ContextStatus;
use temper_state::hints::AgentHints;
use temper_state::json::JsonMember;
use temper_state::json::JsonValue;
use temper_state::pending_decisions::ActionScope;
use temper_state::pending_decisions::DecisionStatus;
use temper_state::pending_decisions::DurationScope;
use temper_state::pending_decisions::PendingDecision;
use temper_state::pending_decisions::PendingDecisionLog;
use temper_state::pending_decisions::PolicyScopeMatrix;
use temper_state::pending_decisions::PrincipalScope;
use temper_state::pending_decisions::ResourceScope;
use temper_state::pending_decisions::PENDING_DECISION_CAPACITY;
use temper_state::policy_suggestions::PolicySuggestion;
use temper_state::policy_suggestions::PolicySuggestionEngine;
use temper_state::sorted::SortedSet;
use temper_state::verification_gate::check_verification_gate;
use temper_state::verification_gate::VerificationLevel;
use temper_state::verification_gate::VerificationResult;
use temper_state::verification_gate::VerificationStatus;

fn render(
    agent: &String,
    action: &String,
    resource_type: &String,
    resource_id: &String,
    matrix: &PolicyScopeMatrix,
) -> String {
    let action = match matrix.action {
        ActionScope::ThisAction => format!("Action::\"{action}\""),
        ActionScope::AllActionsOnType => "any action".to_string(),
    };
    format!("permit(\"{agent}\", {action}, {resource_type}::\"{resource_id}\");")
}

fn suggest(engine: &PolicySuggestionEngine) -> Vec<PolicySuggestion> {
    engine.suggestions(render)
}

#[test]
fn no_suggestions_below_threshold() {
    let mut engine = PolicySuggestionEngine::new();
    engine.record_denial(Some("code-agent"), "read", "Doc", "doc-1", "2025-01-01T00:00:00Z");
    engine.record_denial(Some("code-agent"), "read", "Doc", "doc-2", "2025-01-01T00:01:00Z");
    assert!(suggest(&engine).is_empty());
}

#[test]
fn per_action_suggestion_at_threshold() {
    let mut engine = PolicySuggestionEngine::new();
    for i in 0..3 {
        engine.record_denial(
            Some("code-agent"),
            "read",
            "Doc",
            &format!("doc-{i}"),
            "2025-01-01T00:00:00Z",
        );
    }
    let suggestions = suggest(&engine);
    assert_eq!(suggestions.len(), 1);
    assert!(!suggestions[0].grouped);
    assert!(suggestions[0].cedar_preview.contains("Action::\"read\""));
}

#[test]
fn grouped_suggestion_replaces_individual() {
    let mut engine = PolicySuggestionEngine::new();
    for action in &["read", "write", "delete"] {
        for i in 0..3 {
            engine.record_denial(
                Some("code-agent"),
                action,
                "Doc",
                &format!("doc-{i}"),
                "2025-01-01T00:00:00Z",
            );
        }
    }
    let suggestions = suggest(&engine);
    // Should be 1 grouped suggestion, not 3 individual ones.
    assert_eq!(suggestions.len(), 1);
    assert!(suggestions[0].grouped);
}

#[test]
fn mixed_grouped_and_individual() {
    let mut engine = PolicySuggestionEngine::new();
    // 3 actions on Doc -> grouped
    for action in &["read", "write", "delete"] {
        for i in 0..3 {
            engine.record_denial(Some("code-agent"), action, "Doc", &format!("doc-{i}"), "t");
        }
    }
    // 1 action on Order -> individual (if at threshold)
    for i in 0..3 {
        engine.record_denial(Some("code-agent"), "submit", "Order", &format!("ord-{i}"), "t");
    }
    let suggestions = suggest(&engine);
    assert_eq!(suggestions.len(), 2);
    assert!(suggestions.iter().any(|s| s.grouped));
    assert!(suggestions.iter().any(|s| !s.grouped));
}

#[test]
fn no_agent_type_suggestions() {
    let mut engine = PolicySuggestionEngine::new();
    for i in 0..3 {
        engine.record_denial(None, "read", "Doc", &format!("doc-{i}"), "t");
    }
    let suggestions = suggest(&engine);
    assert_eq!(suggestions.len(), 1);
    assert!(suggestions[0].description.contains("all agents"));
}

#[test]
fn denials_leave_their_traces() {
    let mut engine = PolicySuggestionEngine::new();
    engine.record_denial(Some("bot"), "read", "Doc", "doc-1", "first");
    engine.record_denial(Some("bot"), "read", "Doc", "doc-1", "last");
    let key = (Some("bot".to_string()), ("read".to_string(), "Doc".to_string()));
    let pattern = engine.per_action.get(&key).unwrap();
    assert_eq!(pattern.count, 2);
    assert_eq!((pattern.first_seen.as_str(), pattern.last_seen.as_str()), ("first", "last"));
    assert_eq!(pattern.distinct_resource_ids.to_strings(), vec!["doc-1".to_string()]);
    let group = engine.per_type.get(&(Some("bot".to_string()), "Doc".to_string())).unwrap();
    assert_eq!(group.total_denials, 2);
    assert_eq!(group.denied_actions.to_strings(), vec!["read".to_string()]);
}

fn denial(id: usize, action: &str) -> PendingDecision {
    PendingDecision::from_denial(
        &format!("{id}"),
        "2025-01-01T00:00:00Z",
        "t",
        "agent",
        action,
        "Doc",
        "doc-1",
        JsonValue::Null,
        "no policy",
        None,
    )
}

#[test]
fn waiting_denials_are_not_repeated() {
    let mut log = PendingDecisionLog::new();
    assert!(log.push(denial(1, "read")));
    assert!(!log.push(denial(2, "read")));
    assert!(log.push(denial(3, "write")));
    assert_eq!(log.entries().len(), 2);
    assert_eq!(log.count_by_status(&DecisionStatus::Pending), 2);
    log.get_mut("PD-1").unwrap().status = DecisionStatus::Denied;
    assert_eq!(log.count_by_status(&DecisionStatus::Denied), 1);
    assert!(log.push(denial(4, "read")));
    assert_eq!(log.get("PD-4").unwrap().action, "read");
    assert!(log.get("PD-2").is_none());
    assert!(log.get_mut("PD-2").is_none());
}

#[test]
fn decision_logs_keep_their_capacity() {
    let mut log = PendingDecisionLog::default();
    for i in 0..PENDING_DECISION_CAPACITY + 5 {
        assert!(log.push(denial(i, &format!("action-{i}"))));
    }
    assert_eq!(log.entries().len(), PENDING_DECISION_CAPACITY);
    assert!(log.get("PD-4").is_none());
    assert!(log.get("PD-5").is_some());
}

fn denial_of(id: usize, agent: &str, action: &str) -> PendingDecision {
    PendingDecision::from_denial(
        &format!("{id}"),
        "2025-01-01T00:00:00Z",
        "t",
        agent,
        action,
        "Doc",
        "doc-1",
        JsonValue::Null,
        "no policy",
        None,
    )
}

#[test]
fn keys_keep_their_parts_apart() {
    let left = denial_of(1, "a:b", "c");
    let right = denial_of(2, "a", "b:c");
    assert_eq!(left.dedup_key(), "t:a\\:b:c:Doc:doc-1");
    assert_eq!(right.dedup_key(), "t:a:b\\:c:Doc:doc-1");
    assert_eq!(denial_of(3, "a\\", "c").dedup_key(), "t:a\\\\:c:Doc:doc-1");
    assert_eq!(denial_of(4, "a:b", "c").dedup_key(), left.dedup_key());
    let mut log = PendingDecisionLog::new();
    assert!(log.push(left));
    assert!(log.push(right));
    assert!(!log.push(denial_of(5, "a:b", "c")));
}

#[test]
fn evictions_leave_younger_denials_waiting() {
    let mut log = PendingDecisionLog::new();
    assert!(log.push(denial(0, "read")));
    log.get_mut("PD-0").unwrap().status = DecisionStatus::Denied;
    assert!(log.push(denial(1, "read")));
    for i in 2..PENDING_DECISION_CAPACITY {
        assert!(log.push(denial(i, &format!("action-{i}"))));
    }
    // The oldest entry, decided and of the same key, makes room.
    assert!(log.push(denial(PENDING_DECISION_CAPACITY, "last")));
    assert!(log.get("PD-0").is_none());
    assert!(log.get("PD-1").is_some());
    assert!(!log.push(denial(PENDING_DECISION_CAPACITY + 1, "read")));
    // Once the waiting one is gone too, the denial is taken again.
    assert!(log.push(denial(PENDING_DECISION_CAPACITY + 2, "one more")));
    assert!(log.get("PD-1").is_none());
    assert!(log.push(denial(PENDING_DECISION_CAPACITY + 3, "read")));
}

#[test]
fn the_order_of_denials_does_not_matter() {
    let denials = [
        (Some("bot"), "read", "Doc"),
        (Some("bot"), "write", "Doc"),
        (None, "read", "Doc"),
        (Some("bot"), "share", "Doc"),
        (None, "read", "Doc"),
        (Some("bot"), "read", "Doc"),
        (None, "read", "Doc"),
        (Some("bot"), "read", "Note"),
    ];
    let told = |order: &[usize]| {
        let mut engine = PolicySuggestionEngine::new();
        for i in order {
            let (agent, action, resource) = denials[*i];
            engine.record_denial(agent, action, resource, "r", &format!("{i}"));
        }
        suggest(&engine)
            .into_iter()
            .map(|s| (s.description, s.denial_count, s.grouped, s.cedar_preview))
            .collect::<Vec<_>>()
    };
    let forward = told(&[0, 1, 2, 3, 4, 5, 6, 7]);
    assert_eq!(forward.len(), 2);
    assert_eq!(forward[0].0, "3 actions on Doc denied 4 times for bot");
    assert_eq!(forward[1].0, "read denied 3 times on Doc for all agents");
    assert_eq!(told(&[7, 6, 5, 4, 3, 2, 1, 0]), forward);
    assert_eq!(told(&[3, 0, 6, 7, 1, 5, 2, 4]), forward);
}

#[test]
fn decisions_render_their_policy() {
    let matrix = PolicyScopeMatrix {
        principal: PrincipalScope::AnyAgent,
        action: ActionScope::ThisAction,
        resource: ResourceScope::AnyOfType,
        duration: DurationScope::Always,
        agent_type_value: None,
        role_value: None,
        session_id: None,
    };
    let d = denial(1, "read");
    assert_eq!(d.dedup_key(), "t:agent:read:Doc:doc-1");
    assert_eq!(
        d.generate_policy_from_matrix(&matrix, render),
        "permit(\"agent\", Action::\"read\", Doc::\"doc-1\");"
    );
}

fn text(s: &str) -> JsonValue {
    JsonValue::Text(s.to_string())
}

fn object(members: &[(&str, JsonValue)]) -> JsonValue {
    let mut list = Vec::new();
    for (name, value) in members {
        let value = match value {
            JsonValue::Text(s) => JsonValue::Text(s.clone()),
            JsonValue::Bool(b) => JsonValue::Bool(*b),
            _ => JsonValue::Null,
        };
        list.push(JsonMember { name: name.to_string(), value });
    }
    JsonValue::Object(list)
}

#[test]
fn fields_cannot_forge_identity() {
    let fields = object(&[("Id", text("forged")), ("status", text("Approved")), ("Owner", text("me"))]);
    let attrs = build_authz_resource_attrs(
        "real",
        "Draft",
        fields,
        &SortedSet::new(),
        &vec![ContextStatus { name: "parent".to_string(), status: "Open".to_string() }],
        true,
    );
    for (name, expected) in
        [("id", "real"), ("Id", "real"), ("status", "Draft"), ("Status", "Draft"), ("Owner", "me")]
    {
        match attrs.get(&name.to_string()) {
            Some(JsonValue::Text(s)) => assert_eq!(s, expected, "{name}"),
            other => panic!("{name}: {other:?}"),
        }
    }
    assert_eq!(decision_subject(&attrs), "real");
}

#[test]
fn context_entities_are_named_by_fields() {
    let decl = ContextEntityDecl {
        name: "parent".to_string(),
        entity_type: "Doc".to_string(),
        id_field: "parent_id".to_string(),
    };
    assert_eq!(context_target(&object(&[("parent_id", text("d1"))]), &decl), Some("d1".to_string()));
    assert_eq!(context_target(&object(&[("parent_id", text(""))]), &decl), None);
    assert_eq!(context_target(&object(&[]), &decl), None);
}

#[test]
fn decisions_are_settled() {
    assert_eq!(decision_label(&AuthzDecision::Allow), "Allow");
    let deny = AuthzDecision::Deny(AuthzDenial { reason: "no".to_string() });
    assert_eq!(decision_label(&deny), "Deny");
    assert!(authorize_with_context(AuthzDecision::Allow).is_ok());
    assert_eq!(authorize_with_context(deny).unwrap_err().reason, "no");
    assert_eq!(decision_nanos(Some(12)), 12);
    assert_eq!(decision_nanos(Some(-1)), 0);
}

#[test]
fn hints_are_kept_and_replaced() {
    let mut hints = AgentHints::new();
    hints.enrich_metadata("submit", "check first");
    hints.enrich_metadata("submit", "check twice");
    assert_eq!(hints.hint("submit"), Some("check twice".to_string()));
    assert_eq!(hints.hint("cancel"), None);
}

#[test]
fn hints_drop_the_first_action_when_full() {
    let mut hints = AgentHints::new();
    for i in 0..1_000 {
        hints.enrich_metadata(&format!("b{i:04}"), "h");
    }
    hints.enrich_metadata("c", "h");
    assert_eq!(hints.hint("b0000"), None);
    assert_eq!(hints.hint("b0001"), Some("h".to_string()));
    assert_eq!(hints.hint("c"), Some("h".to_string()));
}

fn level(name: &str, passed: bool) -> VerificationLevel {
    VerificationLevel {
        level: name.to_string(),
        passed,
        summary: format!("{name} summary"),
        details: None,
    }
}

#[test]
fn the_verification_gate_opens_for_verified_specs() {
    let done = |all_passed: bool| VerificationResult {
        all_passed,
        levels: vec![level("L0", true), level("L1", all_passed)],
    };
    assert!(check_verification_gate("Doc", false, None).is_ok());
    assert!(check_verification_gate("Doc", true, None).is_ok());
    assert!(check_verification_gate("Doc", true, Some(&VerificationStatus::Completed(done(true)))).is_ok());
    assert!(check_verification_gate("Doc", true, Some(&VerificationStatus::Restored(done(true)))).is_ok());
    let e = check_verification_gate("Doc", true, Some(&VerificationStatus::Pending)).unwrap_err();
    assert_eq!((e.entity_type.as_str(), e.status.as_str()), ("Doc", "pending"));
    let e = check_verification_gate("Doc", true, Some(&VerificationStatus::Running)).unwrap_err();
    assert_eq!(e.status, "running");
    let e = check_verification_gate("Doc", true, Some(&VerificationStatus::Completed(done(false))))
        .unwrap_err();
    assert_eq!(e.status, "failed");
    let failed = e.failed_levels.unwrap();
    assert_eq!(failed.len(), 1);
    assert_eq!((failed[0].level.as_str(), failed[0].summary.as_str()), ("L1", "L1 summary"));
}
