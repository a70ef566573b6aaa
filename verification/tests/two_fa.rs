use warden_graph::pending::{PendingApprovals, PendingConfirmation};
use warden_graph::record::{field, Value};
use warden_graph::time::Timestamp;
use warden_graph::two_fa::{
    api_2fa_approve, api_2fa_deny, api_2fa_pending, approve_begin, approve_finish, is_valid_id,
    AdminActionEntry, ApproveStep, Reply, Resolution, Status, TwoFaActionRequest,
    MAX_APPROVAL_ID_LEN,
};

const NOW: i64 = 1_700_000_000;

fn at(secs: i64) -> Timestamp {
    Timestamp::from_timestamp(secs, 0).expect("test timestamp must be valid")
}

fn now() -> Timestamp {
    at(NOW)
}

fn make_pending(incident_id: &str, expired: bool) -> PendingConfirmation {
    let expires_at = if expired { at(NOW - 10 * 60) } else { at(NOW + 30 * 60) };
    PendingConfirmation {
        incident_id: incident_id.to_string(),
        telegram_message_id: 0,
        action_description: format!("block IP for incident {incident_id}"),
        created_at: at(NOW - 5 * 60),
        expires_at,
        detector: "ssh_brute_force".to_string(),
        action_name: "block_ip".to_string(),
    }
}

fn approve(map: &mut PendingApprovals, id: &str) -> Reply {
    api_2fa_approve(map, id, None, Ok(()), false, &now(), &now())
}

fn deny(map: &mut PendingApprovals, id: &str) -> Reply {
    api_2fa_deny(map, id, None, None, &now(), &now())
}

fn resolution(reply: Reply) -> Resolution {
    match reply {
        Reply::Resolved(resolution) => resolution,
        Reply::Refused { status, error } => panic!("refused with {status:?}: {error}"),
    }
}

fn error(reply: Reply) -> String {
    match reply {
        Reply::Refused { error, .. } => error,
        Reply::Resolved(_) => panic!("resolved"),
    }
}

fn parameter(audit: &AdminActionEntry, name: &str) -> String {
    match field(&audit.parameters, name) {
        Some(Value::Text(text)) => text.clone(),
        other => panic!("no text under {name}: {other:?}"),
    }
}

#[test]
fn pending_approvals_map_insert_and_remove() {
    let mut store = PendingApprovals::new();

    store.insert("inc-abc", make_pending("inc-abc", false));

    assert!(store.get("inc-abc").is_some());
    assert_eq!(store.get("inc-abc").unwrap().incident_id, "inc-abc");

    store.remove("inc-abc");
    assert!(store.is_empty());
}

#[test]
fn api_2fa_pending_returns_empty_when_no_requests() {
    let map = PendingApprovals::new();
    let response = api_2fa_pending(&map, &now());
    assert_eq!(response.total, 0);
    assert!(response.pending.is_empty());
}

#[test]
fn api_2fa_pending_filters_expired_requests() {
    let mut map = PendingApprovals::new();
    map.insert("active", make_pending("active", false));
    map.insert("expired", make_pending("expired", true));

    let response = api_2fa_pending(&map, &now());
    assert_eq!(response.total, 1);
    assert_eq!(response.pending[0].approval_id, "active");
}

#[test]
fn api_2fa_pending_sorts_by_deadline_ascending() {
    let mut map = PendingApprovals::new();
    let mut sooner = make_pending("sooner", false);
    sooner.expires_at = at(NOW + 10 * 60);
    let mut later = make_pending("later", false);
    later.expires_at = at(NOW + 60 * 60);
    map.insert("later", later);
    map.insert("sooner", sooner);

    let response = api_2fa_pending(&map, &now());
    assert_eq!(response.pending[0].approval_id, "sooner");
    assert_eq!(response.pending[1].approval_id, "later");
}

#[test]
fn api_2fa_approve_rejects_empty_approval_id() {
    let mut map = PendingApprovals::new();
    let reply = approve(&mut map, "");
    assert_eq!(reply.status(), Status::BadRequest);
}

#[test]
fn api_2fa_approve_rejects_oversized_approval_id() {
    let mut map = PendingApprovals::new();
    let long_id = "x".repeat(MAX_APPROVAL_ID_LEN + 1);
    let reply = approve(&mut map, &long_id);
    assert_eq!(reply.status(), Status::BadRequest);
}

#[test]
fn api_2fa_approve_returns_not_found_for_unknown_id() {
    let mut map = PendingApprovals::new();
    let reply = approve(&mut map, "no-such-id");
    assert_eq!(reply.status(), Status::NotFound);
}

#[test]
fn api_2fa_approve_returns_gone_for_expired_entry() {
    let mut map = PendingApprovals::new();
    map.insert("exp", make_pending("exp", true));
    let reply = approve(&mut map, "exp");
    assert_eq!(reply.status(), Status::Gone);
}

#[test]
fn api_2fa_approve_succeeds_when_2fa_not_enforced() {
    let mut map = PendingApprovals::new();
    map.insert("inc-ok", make_pending("inc-ok", false));

    let reply = approve(&mut map, "inc-ok");
    assert_eq!(reply.status(), Status::Success);

    let resolution = resolution(reply);
    assert!(resolution.approved);
    assert_eq!(resolution.approval_id, "inc-ok");
}

#[test]
fn api_2fa_approve_removes_entry_from_map() {
    let mut map = PendingApprovals::new();
    map.insert("inc-rm", make_pending("inc-rm", false));

    let reply = approve(&mut map, "inc-rm");
    assert_eq!(reply.status(), Status::Success);
    assert!(map.get("inc-rm").is_none(), "entry must be removed from map after approve");
}

#[test]
fn api_2fa_approve_notifies_channel() {
    let mut map = PendingApprovals::new();
    map.insert("inc-ch", make_pending("inc-ch", false));

    let reply = approve(&mut map, "inc-ch");
    assert_eq!(reply.status(), Status::Success);

    let outcome = resolution(reply).outcome;
    assert!(outcome.approved);
    assert_eq!(outcome.incident_id, "inc-ch");
    assert!(outcome.totp_verified);
}

#[test]
fn api_2fa_approve_wrong_totp_returns_unauthorized() {
    let mut map = PendingApprovals::new();
    map.insert("inc-bad", make_pending("inc-bad", false));

    let verdict = Err("invalid code 000000".to_string());
    let reply = api_2fa_approve(&mut map, "inc-bad", None, verdict, true, &now(), &now());
    assert_eq!(reply.status(), Status::Unauthorized);
}

#[test]
fn api_2fa_deny_rejects_empty_approval_id() {
    let mut map = PendingApprovals::new();
    let reply = deny(&mut map, "");
    assert_eq!(reply.status(), Status::BadRequest);
}

#[test]
fn api_2fa_deny_accepts_no_body() {
    let mut map = PendingApprovals::new();
    map.insert("d1", make_pending("d1", false));

    let reply = deny(&mut map, "d1");
    assert_eq!(reply.status(), Status::Success);
    assert!(!resolution(reply).approved);
}

#[test]
fn api_2fa_deny_returns_not_found_for_unknown_id() {
    let mut map = PendingApprovals::new();
    let reply = deny(&mut map, "ghost");
    assert_eq!(reply.status(), Status::NotFound);
}

#[test]
fn api_2fa_deny_removes_entry_from_map() {
    let mut map = PendingApprovals::new();
    map.insert("rem", make_pending("rem", false));

    let reply = deny(&mut map, "rem");
    assert_eq!(reply.status(), Status::Success);
    assert!(map.get("rem").is_none(), "entry must be removed from map after deny");
}

#[test]
fn api_2fa_deny_notifies_channel() {
    let mut map = PendingApprovals::new();
    map.insert("inc-deny", make_pending("inc-deny", false));

    let reply = deny(&mut map, "inc-deny");
    assert_eq!(reply.status(), Status::Success);

    let outcome = resolution(reply).outcome;
    assert!(!outcome.approved);
    assert_eq!(outcome.incident_id, "inc-deny");
}

#[test]
fn api_2fa_deny_with_reason_succeeds() {
    let mut map = PendingApprovals::new();
    map.insert("inc-rsn", make_pending("inc-rsn", false));

    let body = TwoFaActionRequest {
        totp: String::new(),
        reason: "false positive — known scanner".to_string(),
    };
    let reply = api_2fa_deny(&mut map, "inc-rsn", None, Some(body), &now(), &now());
    assert_eq!(reply.status(), Status::Success);

    let resolution = resolution(reply);
    assert!(!resolution.approved);
    assert_eq!(resolution.approval_id, "inc-rsn");
    assert_eq!(parameter(&resolution.audit, "reason"), "false positive — known scanner");
}

#[test]
fn the_list_shows_all_but_the_telegram_message() {
    let mut map = PendingApprovals::new();
    map.insert("key-1", make_pending("inc-1", false));

    let response = api_2fa_pending(&map, &now());
    let item = &response.pending[0];
    assert_eq!(item.approval_id, "key-1");
    assert_eq!(item.incident_id, "inc-1");
    assert_eq!(item.action_description, "block IP for incident inc-1");
    assert_eq!(item.detector, "ssh_brute_force");
    assert_eq!(item.action_name, "block_ip");
    assert_eq!(item.created_at.timestamp(), NOW - 300);
    assert_eq!(item.expires_at.timestamp(), NOW + 1800);
}

#[test]
fn a_request_at_its_deadline_is_not_listed_but_can_be_decided() {
    let mut map = PendingApprovals::new();
    map.insert("a", make_pending("a", false));
    map.insert("b", make_pending("b", false));
    let deadline = at(NOW + 1800);

    assert_eq!(api_2fa_pending(&map, &at(NOW + 1799)).total, 2);
    assert_eq!(api_2fa_pending(&map, &deadline).total, 0);
    let reply = api_2fa_approve(&mut map, "a", None, Ok(()), false, &deadline, &deadline);
    assert_eq!(reply.status(), Status::Success);
    let reply = api_2fa_deny(&mut map, "b", None, None, &deadline, &deadline);
    assert_eq!(reply.status(), Status::Success);
}

#[test]
fn the_list_is_long_and_sorted() {
    let mut map = PendingApprovals::new();
    for i in [5, 3, 9, 1, 7] {
        let mut pending = make_pending(&format!("inc-{i}"), false);
        pending.expires_at = at(NOW + i);
        map.insert(&format!("inc-{i}"), pending);
    }
    let response = api_2fa_pending(&map, &at(NOW + 1));
    let ids: Vec<&str> = response.pending.iter().map(|item| item.approval_id.as_str()).collect();
    assert_eq!(response.total, 4);
    assert_eq!(ids, vec!["inc-3", "inc-5", "inc-7", "inc-9"]);
}

#[test]
fn refusals_say_why() {
    let mut map = PendingApprovals::new();
    map.insert("exp-a", make_pending("exp-a", true));
    map.insert("exp-d", make_pending("exp-d", true));

    assert_eq!(error(approve(&mut map, "")), "invalid approval_id");
    assert_eq!(error(deny(&mut map, &"x".repeat(129))), "invalid approval_id");
    assert_eq!(
        error(approve(&mut map, "nobody")),
        "approval request not found or already resolved"
    );
    assert_eq!(
        error(deny(&mut map, "nobody")),
        "approval request not found or already resolved"
    );
    assert_eq!(error(approve(&mut map, "exp-a")), "approval request has expired");
    let late = deny(&mut map, "exp-d");
    assert_eq!(late.status(), Status::Gone);
    assert_eq!(error(late), "approval request has expired");
    assert!(map.is_empty());
}

#[test]
fn ids_are_measured_in_bytes() {
    assert!(is_valid_id("x"));
    assert!(is_valid_id(&"x".repeat(128)));
    assert!(!is_valid_id(&"x".repeat(129)));
    assert!(!is_valid_id(""));
    assert!(is_valid_id(&"ä".repeat(64)));
    assert!(!is_valid_id(&"ä".repeat(65)));
}

#[test]
fn statuses_have_their_http_codes() {
    assert_eq!(Status::Success.code(), 200);
    assert_eq!(Status::BadRequest.code(), 400);
    assert_eq!(Status::Unauthorized.code(), 401);
    assert_eq!(Status::NotFound.code(), 404);
    assert_eq!(Status::Conflict.code(), 409);
    assert_eq!(Status::Gone.code(), 410);
}

#[test]
fn an_approval_is_audited() {
    let mut map = PendingApprovals::new();
    map.insert("key", make_pending("inc", false));
    let user = Some("olga".to_string());
    let reply = api_2fa_approve(&mut map, "key", user, Ok(()), true, &now(), &at(NOW + 1));

    let resolution = resolution(reply);
    let audit = &resolution.audit;
    assert_eq!(audit.ts.timestamp(), NOW + 1);
    assert_eq!(audit.operator, "olga");
    assert_eq!(audit.source, "dashboard");
    assert_eq!(audit.action, "2fa_approve");
    assert_eq!(audit.target, "key");
    assert_eq!(audit.result, "success");
    assert!(audit.prev_hash.is_none());
    assert_eq!(audit.parameters.len(), 5);
    assert_eq!(parameter(audit, "incident_id"), "inc");
    assert_eq!(parameter(audit, "action_description"), "block IP for incident inc");
    assert_eq!(parameter(audit, "detector"), "ssh_brute_force");
    assert_eq!(parameter(audit, "action_name"), "block_ip");
    assert_eq!(parameter(audit, "two_factor"), "enforced");
    assert_eq!(resolution.outcome.operator, "olga");
    assert_eq!(resolution.incident_id, "inc");
    assert_eq!(resolution.action_description, "block IP for incident inc");
}

#[test]
fn a_denial_is_audited() {
    let mut map = PendingApprovals::new();
    map.insert("key", make_pending("inc", false));
    let reply = deny(&mut map, "key");

    let resolution = resolution(reply);
    let audit = &resolution.audit;
    assert_eq!(audit.operator, "anonymous");
    assert_eq!(audit.source, "dashboard");
    assert_eq!(audit.action, "2fa_deny");
    assert_eq!(audit.target, "key");
    assert_eq!(audit.result, "denied");
    assert_eq!(audit.parameters.len(), 5);
    assert_eq!(parameter(audit, "incident_id"), "inc");
    assert_eq!(parameter(audit, "reason"), "");
    assert!(!resolution.outcome.totp_verified);
    assert_eq!(resolution.incident_id, "inc");
}

#[test]
fn approvals_without_enforcement_say_so() {
    let mut map = PendingApprovals::new();
    map.insert("key", make_pending("inc", false));
    let resolution = resolution(approve(&mut map, "key"));
    assert_eq!(parameter(&resolution.audit, "two_factor"), "none");
    assert_eq!(resolution.audit.operator, "anonymous");
}

#[test]
fn a_decided_request_stays_decided() {
    let mut map = PendingApprovals::new();
    map.insert("a", make_pending("a", false));
    map.insert("b", make_pending("b", false));
    assert_eq!(approve(&mut map, "a").status(), Status::Success);
    assert_eq!(approve(&mut map, "a").status(), Status::NotFound);
    assert_eq!(deny(&mut map, "a").status(), Status::NotFound);
    assert!(map.get("b").is_some());
    assert_eq!(deny(&mut map, "b").status(), Status::Success);
    assert_eq!(deny(&mut map, "b").status(), Status::NotFound);
    assert_eq!(approve(&mut map, "b").status(), Status::NotFound);
}

#[test]
fn a_refused_code_keeps_the_request() {
    let mut map = PendingApprovals::new();
    map.insert("a", make_pending("a", false));
    let verdict = Err("no code".to_string());
    let reply = api_2fa_approve(&mut map, "a", None, verdict, true, &now(), &now());
    assert_eq!(error(reply), "no code");
    assert!(map.get("a").is_some());
    assert_eq!(approve(&mut map, "a").status(), Status::Success);
}

#[test]
fn of_two_approvals_at_once_one_comes_through() {
    let mut map = PendingApprovals::new();
    map.insert("a", make_pending("a", false));
    let first = match approve_begin(&mut map, "a", &now()) {
        ApproveStep::VerifyTotp(pending) => pending,
        ApproveStep::Reply(reply) => panic!("refused: {reply:?}"),
    };
    let second = match approve_begin(&mut map, "a", &now()) {
        ApproveStep::VerifyTotp(pending) => pending,
        ApproveStep::Reply(reply) => panic!("refused: {reply:?}"),
    };
    let reply = approve_finish(&mut map, "a", &first, Ok(()), None, false, &now());
    assert_eq!(reply.status(), Status::Success);
    let reply = approve_finish(&mut map, "a", &second, Ok(()), None, false, &now());
    assert_eq!(reply.status(), Status::Conflict);
    assert_eq!(error(reply), "approval request was resolved concurrently");
}

#[test]
fn a_denial_overtakes_an_approval_in_progress() {
    let mut map = PendingApprovals::new();
    map.insert("a", make_pending("a", false));
    let pending = match approve_begin(&mut map, "a", &now()) {
        ApproveStep::VerifyTotp(pending) => pending,
        ApproveStep::Reply(reply) => panic!("refused: {reply:?}"),
    };
    assert_eq!(deny(&mut map, "a").status(), Status::Success);
    let reply = approve_finish(&mut map, "a", &pending, Ok(()), None, false, &now());
    assert_eq!(reply.status(), Status::Conflict);
}

#[test]
fn an_expired_request_is_removed_by_the_attempt() {
    let mut map = PendingApprovals::new();
    map.insert("a", make_pending("a", true));
    assert_eq!(approve(&mut map, "a").status(), Status::Gone);
    assert!(map.is_empty());
    assert_eq!(approve(&mut map, "a").status(), Status::NotFound);
}

#[test]
fn inserting_again_replaces_a_request() {
    let mut map = PendingApprovals::new();
    map.insert("a", make_pending("old", false));
    map.insert("b", make_pending("b", false));
    map.insert("a", make_pending("new", false));
    assert_eq!(map.entries().len(), 2);
    assert_eq!(map.get("a").unwrap().incident_id, "new");
    assert_eq!(map.remove("a").unwrap().incident_id, "new");
    assert!(map.remove("a").is_none());
    assert!(!map.is_empty());
}

#[test]
fn an_empty_request_has_neither_code_nor_reason() {
    let request = TwoFaActionRequest::default();
    assert_eq!(request.totp, "");
    assert_eq!(request.reason, "");
}

#[test]
fn a_request_is_decided_once_in_any_order() {
    let mut map = PendingApprovals::new();
    map.insert("a", make_pending("a", false));
    map.insert("b", make_pending("b", false));
    let pending = match approve_begin(&mut map, "a", &now()) {
        ApproveStep::VerifyTotp(pending) => pending,
        ApproveStep::Reply(reply) => panic!("refused: {reply:?}"),
    };
    let mut decided = 0;
    for round in 0..3 {
        let wrong = Err("no".to_string());
        let reply = approve_finish(&mut map, "a", &pending, wrong, None, true, &now());
        assert_eq!(reply.status(), Status::Unauthorized);
        if round == 1 {
            assert_eq!(deny(&mut map, "b").status(), Status::Success);
        }
        let reply = approve_finish(&mut map, "a", &pending, Ok(()), None, true, &now());
        if reply.status() == Status::Success {
            decided += 1;
        } else {
            assert_eq!(reply.status(), Status::Conflict);
        }
        assert_eq!(deny(&mut map, "a").status(), Status::NotFound);
        assert_eq!(approve(&mut map, "a").status(), Status::NotFound);
    }
    assert_eq!(decided, 1);
    assert!(map.is_empty());
}
