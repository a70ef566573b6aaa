use warden_graph::decision_confirmation::{
    execute_request_confirmation, webhook_request, AgentConfig, AiAction, AiDecision,
    PendingConfirmations, TelegramConfig, TelegramOutcome, WebhookConfig,
};
use warden_graph::incident::{Incident, Severity};
use warden_graph::pending::PendingApprovals;
use warden_graph::record::{field, Field, Value};
use warden_graph::time::Timestamp;
use warden_graph::two_fa::{api_2fa_approve, api_2fa_pending, Reply};

const NOW: i64 = 1_700_000_000;

fn at(secs: i64) -> Timestamp {
    Timestamp::from_timestamp(secs, 0).expect("test timestamp must be valid")
}

fn test_decision() -> AiDecision<f64> {
    AiDecision {
        action: AiAction {
            name: "request_confirmation".to_string(),
            parameters: vec![Field::text("summary", "Need operator approval")],
        },
        confidence: 0.8,
        auto_execute: false,
        reason: "sensitive action".to_string(),
        alternatives: vec!["monitor".to_string()],
        estimated_threat: "high".to_string(),
    }
}

fn test_incident(ip: &str) -> Incident {
    Incident {
        ts: at(NOW),
        host: "host".to_string(),
        incident_id: format!("ssh_bruteforce:{ip}:test"),
        severity: Severity::High,
        title: "Possible SSH brute force".to_string(),
        summary: format!("many failed logins from {ip}"),
        evidence: Vec::new(),
        recommended_checks: Vec::new(),
        tags: Vec::new(),
        entities: Vec::new(),
    }
}

fn config(enabled: bool, url: &str) -> AgentConfig {
    AgentConfig {
        telegram: TelegramConfig { approval_ttl_secs: 600 },
        webhook: WebhookConfig { enabled, url: url.to_string() },
    }
}

struct Registered {
    status: String,
    pushed: bool,
    dashboard: PendingApprovals,
    confirmations: PendingConfirmations<f64>,
}

fn register(
    summary: &str,
    incident: Incident,
    cfg: &AgentConfig,
    telegram: TelegramOutcome,
    webhook_delivered: bool,
) -> Registered {
    let mut dashboard = PendingApprovals::new();
    let mut confirmations = PendingConfirmations::new();
    let (status, pushed) = execute_request_confirmation(
        summary,
        test_decision(),
        incident,
        "ssh_bruteforce",
        cfg,
        telegram,
        webhook_delivered,
        &at(NOW),
        Some(&mut dashboard),
        &mut confirmations,
    );
    Registered { status, pushed, dashboard, confirmations }
}

#[test]
fn registers_pending_for_dashboard_without_telegram_or_webhook() {
    let cfg = config(false, "");
    let incident = test_incident("203.0.113.10");
    let id = incident.incident_id.clone();

    assert!(webhook_request(
        "please confirm",
        &test_decision(),
        &incident,
        &cfg,
        TelegramOutcome::NotConfigured
    )
    .is_none());
    let done = register("please confirm", incident, &cfg, TelegramOutcome::NotConfigured, false);

    assert_eq!(done.status, "pending: confirmation registered for dashboard approval");
    assert!(!done.pushed);
    assert!(done.confirmations.contains_key(&id));
    assert!(done.dashboard.get(&id).is_some());
    assert_eq!(
        done.dashboard.get(&id).unwrap().telegram_message_id,
        0,
        "no Telegram message id on a dashboard-only registration"
    );
}

#[test]
fn webhook_fallback_reports_success() {
    let cfg = config(true, "http://127.0.0.1:4096/confirm");
    let incident = test_incident("203.0.113.11");
    let id = incident.incident_id.clone();

    let request = webhook_request(
        "confirm via webhook",
        &test_decision(),
        &incident,
        &cfg,
        TelegramOutcome::NotConfigured,
    )
    .expect("the webhook is due");
    assert_eq!(request.url, "http://127.0.0.1:4096/confirm");
    let done = register("confirm via webhook", incident, &cfg, TelegramOutcome::NotConfigured, true);

    assert_eq!(
        done.status,
        "pending: confirmation sent via webhook (dashboard-approvable)"
    );
    assert!(!done.pushed);
    assert!(done.confirmations.contains_key(&id));
}

#[test]
fn webhook_fallback_reports_error() {
    let cfg = config(true, "http://127.0.0.1:9/confirm");
    let incident = test_incident("203.0.113.12");
    let id = incident.incident_id.clone();

    let done = register(
        "confirm via broken webhook",
        incident,
        &cfg,
        TelegramOutcome::NotConfigured,
        false,
    );

    assert_eq!(done.status, "pending: confirmation registered for dashboard approval");
    assert!(!done.pushed);
    assert!(done.confirmations.contains_key(&id));
}

#[test]
fn the_webhook_carries_the_request() {
    let cfg = config(true, "http://hook");
    let incident = test_incident("203.0.113.13");
    let request = webhook_request(
        "please",
        &test_decision(),
        &incident,
        &cfg,
        TelegramOutcome::Failed,
    )
    .expect("the webhook is due");
    let text = |name: &str| match field(&request.payload, name) {
        Some(Value::Text(text)) => text.clone(),
        other => panic!("no text under {name}: {other:?}"),
    };
    assert_eq!(request.payload.len(), 4);
    assert_eq!(text("type"), "confirmation_required");
    assert_eq!(text("incident_id"), "ssh_bruteforce:203.0.113.13:test");
    assert_eq!(text("summary"), "please");
    assert_eq!(text("decision_reason"), "sensitive action");
}

#[test]
fn the_webhook_waits_for_telegram_to_fail() {
    let incident = test_incident("203.0.113.14");
    let ask = |cfg: AgentConfig, telegram: TelegramOutcome| {
        webhook_request("s", &test_decision(), &incident, &cfg, telegram).is_some()
    };
    assert!(ask(config(true, "http://hook"), TelegramOutcome::NotConfigured));
    assert!(ask(config(true, "http://hook"), TelegramOutcome::Failed));
    assert!(!ask(config(true, "http://hook"), TelegramOutcome::Sent(7)));
    assert!(!ask(config(false, "http://hook"), TelegramOutcome::Failed));
    assert!(!ask(config(true, ""), TelegramOutcome::Failed));
}

#[test]
fn telegram_delivery_is_reported_and_kept() {
    let cfg = config(true, "http://hook");
    let incident = test_incident("203.0.113.15");
    let id = incident.incident_id.clone();
    let done = register("confirm", incident, &cfg, TelegramOutcome::Sent(4711), true);

    assert_eq!(
        done.status,
        "pending: confirmation requested via Telegram (dashboard-approvable)"
    );
    let pending = done.dashboard.get(&id).expect("registered");
    assert_eq!(pending.telegram_message_id, 4711);
    assert_eq!(pending.incident_id, id);
    assert_eq!(pending.action_description, "confirm");
    assert_eq!(pending.detector, "ssh_bruteforce");
    assert_eq!(pending.action_name, "request_confirmation");
    assert_eq!(pending.created_at.timestamp(), NOW);
    assert_eq!(pending.expires_at.timestamp(), NOW + 600);
    let kept = done.confirmations.get(&id).expect("kept");
    assert_eq!(kept.pending.telegram_message_id, 4711);
    assert_eq!(kept.decision.confidence, 0.8);
    assert_eq!(kept.decision.reason, "sensitive action");
    assert_eq!(kept.incident.incident_id, id);
}

#[test]
fn a_failed_message_without_a_webhook_is_registered_all_the_same() {
    let cfg = config(false, "http://hook");
    let incident = test_incident("203.0.113.16");
    let id = incident.incident_id.clone();
    let done = register("confirm", incident, &cfg, TelegramOutcome::Failed, true);
    assert_eq!(done.status, "pending: confirmation registered for dashboard approval");
    assert!(done.dashboard.get(&id).is_some());
}

#[test]
fn an_unreachable_dashboard_does_not_keep_the_agent_from_registering() {
    let cfg = config(false, "");
    let incident = test_incident("203.0.113.17");
    let id = incident.incident_id.clone();
    let mut confirmations = PendingConfirmations::new();
    let (status, pushed) = execute_request_confirmation(
        "confirm",
        test_decision(),
        incident,
        "ssh_bruteforce",
        &cfg,
        TelegramOutcome::NotConfigured,
        false,
        &at(NOW),
        None,
        &mut confirmations,
    );
    assert_eq!(status, "pending: confirmation registered for dashboard approval");
    assert!(!pushed);
    assert!(confirmations.contains_key(&id));
}

#[test]
fn a_registered_request_is_listed_and_can_be_approved() {
    let cfg = config(false, "");
    let incident = test_incident("203.0.113.18");
    let id = incident.incident_id.clone();
    let mut done = register("confirm", incident, &cfg, TelegramOutcome::NotConfigured, false);

    let last = at(NOW + 599);
    let list = api_2fa_pending(&done.dashboard, &last);
    assert_eq!(list.total, 1);
    assert_eq!(list.pending[0].approval_id, id);
    let reply = api_2fa_approve(&mut done.dashboard, &id, None, Ok(()), false, &last, &last);
    match reply {
        Reply::Resolved(resolution) => {
            assert!(done.confirmations.contains_key(&resolution.outcome.incident_id));
        }
        Reply::Refused { error, .. } => panic!("refused: {error}"),
    }
}

#[test]
fn a_waiting_time_beyond_the_largest_number_wraps_around() {
    let mut cfg = config(false, "");
    cfg.telegram.approval_ttl_secs = u64::MAX;
    let incident = test_incident("203.0.113.19");
    let id = incident.incident_id.clone();
    let done = register("confirm", incident, &cfg, TelegramOutcome::NotConfigured, false);
    assert_eq!(done.dashboard.get(&id).unwrap().expires_at.timestamp(), NOW - 1);
}
