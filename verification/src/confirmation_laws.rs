//! What the confirmation workflow promises to operators and to the agent, in terms of what is asked
//! and what is answered.

use crate::decision_confirmation::{
    requested, status_text, webhook_due, webhook_payload, TelegramOutcome, WebhookConfig,
};
use crate::pending::{PendingConfirmation, PendingMap, PendingView};
use crate::record::{field_views, FieldView, ValueView};
use crate::time::Instant;
use crate::two_fa::{
    approved, begun, denied, finished, item_views, lists, live, operator_name, reason_of, shows,
    AdminActionEntry, DashboardApprovalOutcome, ItemView, PendingApprovalItem, Reply, ReplyView,
    Resolution, Status, StepView, TwoFaActionRequest,
};
use vstd::prelude::*;
use vstd::utf8::encode_utf8;

verus! {

broadcast use vstd::seq_lib::group_seq_properties;

/// A text parameter of an audit row.
pub open spec fn noted(name: Seq<char>, text: Seq<char>) -> FieldView {
    FieldView { name, value: ValueView::Text(text) }
}

/// The id is empty or has more than 128 bytes.
pub open spec fn is_bad(id: Seq<char>) -> bool {
    id.len() == 0 || encode_utf8(id).len() > 128
}

// ---------------------------------------------------------------------------
// Who decided what
// ---------------------------------------------------------------------------

/// A denial that comes through is on record: the audit row and the message to the agent both name
/// the user who sent it, `anonymous` only where nobody is signed in. The row tells what was denied,
/// of which detector and incident, why and when; the message tells the agent that it was denied,
/// without a code. The request is gone from the map, and only that request.
pub proof fn a_denial_is_on_record(
    map: PendingMap,
    id: Seq<char>,
    user: Option<String>,
    body: Option<TwoFaActionRequest>,
    checked_at: Instant,
    resolved_at: Instant,
)
    ensures
        ({
            let who = match user {
                Some(name) => name@,
                None => "anonymous"@,
            };
            let why = match body {
                Some(request) => request.reason@,
                None => Seq::<char>::empty(),
            };
            let (after, reply) = denied(
                map,
                id,
                operator_name(user),
                reason_of(body),
                checked_at,
                resolved_at,
            );
            reply matches ReplyView::Resolved(r) ==> {
                &&& !is_bad(id)
                &&& map.contains_key(id)
                &&& !map[id].expires_at.before(checked_at)
                &&& after == map.remove(id)
                &&& r.audit.operator == who
                &&& r.outcome.operator == who
                &&& r.audit.ts == resolved_at
                &&& r.audit.source == "dashboard"@
                &&& r.audit.action == "2fa_deny"@
                &&& r.audit.target == id
                &&& r.audit.parameters == seq![
                    noted("incident_id"@, map[id].incident_id),
                    noted("action_description"@, map[id].action_description),
                    noted("detector"@, map[id].detector), noted("action_name"@, map[id].action_name),
                    noted("reason"@, why),
                ]
                &&& r.audit.result == "denied"@
                &&& r.audit.prev_hash is None
                &&& r.outcome.incident_id == map[id].incident_id
                &&& !r.outcome.approved
                &&& !r.outcome.totp_verified
                &&& !r.approved
                &&& r.approval_id == id
                &&& r.incident_id == map[id].incident_id
                &&& r.action_description == map[id].action_description
            }
        }),
{
}

/// An approval that comes through is on record: the code was accepted, the audit row and the
/// message to the agent both name the user who sent it, `anonymous` only where nobody is signed in.
/// The row tells what was approved, of which detector and incident, whether a code was called for,
/// and when; the message tells the agent that it was approved with a verified code. The request is
/// gone from the map, and only that request.
pub proof fn an_approval_is_on_record(
    map: PendingMap,
    id: Seq<char>,
    verdict: Option<Seq<char>>,
    user: Option<String>,
    enforced: bool,
    checked_at: Instant,
    resolved_at: Instant,
)
    ensures
        ({
            let who = match user {
                Some(name) => name@,
                None => "anonymous"@,
            };
            let (after, reply) = approved(
                map,
                id,
                verdict,
                operator_name(user),
                enforced,
                checked_at,
                resolved_at,
            );
            reply matches ReplyView::Resolved(r) ==> {
                &&& !is_bad(id)
                &&& map.contains_key(id)
                &&& !map[id].expires_at.before(checked_at)
                &&& verdict is None
                &&& after == map.remove(id)
                &&& r.audit.operator == who
                &&& r.outcome.operator == who
                &&& r.audit.ts == resolved_at
                &&& r.audit.source == "dashboard"@
                &&& r.audit.action == "2fa_approve"@
                &&& r.audit.target == id
                &&& r.audit.parameters == seq![
                    noted("incident_id"@, map[id].incident_id),
                    noted("action_description"@, map[id].action_description),
                    noted("detector"@, map[id].detector), noted("action_name"@, map[id].action_name),
                    noted("two_factor"@, if enforced { "enforced"@ } else { "none"@ }),
                ]
                &&& r.audit.result == "success"@
                &&& r.audit.prev_hash is None
                &&& r.outcome.incident_id == map[id].incident_id
                &&& r.outcome.approved
                &&& r.outcome.totp_verified
                &&& r.approved
                &&& r.approval_id == id
                &&& r.incident_id == map[id].incident_id
                &&& r.action_description == map[id].action_description
            }
        }),
{
}

/// An approval that was looked up before it comes through with what was looked up: what the audit
/// row, the agent and the operator are told is of the request that the operator saw.
pub proof fn an_approval_is_of_what_was_looked_up(
    map: PendingMap,
    id: Seq<char>,
    pending: PendingView,
    verdict: Option<Seq<char>>,
    user: Option<String>,
    enforced: bool,
    now: Instant,
)
    ensures
        ({
            let who = match user {
                Some(name) => name@,
                None => "anonymous"@,
            };
            let (after, reply) = finished(
                map,
                id,
                pending,
                verdict,
                operator_name(user),
                enforced,
                now,
            );
            match reply {
                ReplyView::Resolved(r) => {
                    &&& verdict is None
                    &&& map.contains_key(id)
                    &&& after == map.remove(id)
                    &&& r.audit.operator == who
                    &&& r.outcome.operator == who
                    &&& r.audit.ts == now
                    &&& r.audit.target == id
                    &&& r.audit.source == "dashboard"@
                    &&& r.audit.action == "2fa_approve"@
                    &&& r.audit.result == "success"@
                    &&& r.audit.parameters == seq![
                        noted("incident_id"@, pending.incident_id),
                        noted("action_description"@, pending.action_description),
                        noted("detector"@, pending.detector),
                        noted("action_name"@, pending.action_name),
                        noted("two_factor"@, if enforced { "enforced"@ } else { "none"@ }),
                    ]
                    &&& r.outcome.incident_id == pending.incident_id
                    &&& r.outcome.approved && r.outcome.totp_verified && r.approved
                    &&& r.approval_id == id
                    &&& r.incident_id == pending.incident_id
                    &&& r.action_description == pending.action_description
                },
                ReplyView::Refused { status, error } => {
                    &&& after == map
                    &&& verdict matches Some(why) ==> status.spec_code() == 401 && error == why
                    &&& verdict is None ==> {
                        &&& !map.contains_key(id)
                        &&& status.spec_code() == 409
                        &&& error == "approval request was resolved concurrently"@
                    }
                },
            }
        }),
{
}

// ---------------------------------------------------------------------------
// What is refused
// ---------------------------------------------------------------------------

/// Every approval is answered: an empty or overlong id with 400, an id without a request with 404,
/// a request past its deadline with 410, a refused code with 401 and the reason, anything else with
/// 200. The map loses the request where it is answered 410 or 200, and is the same otherwise.
pub proof fn approvals_are_answered(
    map: PendingMap,
    id: Seq<char>,
    verdict: Option<Seq<char>>,
    operator: Seq<char>,
    enforced: bool,
    checked_at: Instant,
    resolved_at: Instant,
)
    ensures
        ({
            let (after, reply) = approved(
                map,
                id,
                verdict,
                operator,
                enforced,
                checked_at,
                resolved_at,
            );
            let (code, why): (int, Seq<char>) = match reply {
                ReplyView::Refused { status, error } => (status.spec_code() as int, error),
                ReplyView::Resolved(_) => (200, Seq::empty()),
            };
            let there = !is_bad(id) && map.contains_key(id);
            let late = there && map[id].expires_at.before(checked_at);
            &&& code == 400 <==> is_bad(id)
            &&& code == 404 <==> !is_bad(id) && !map.contains_key(id)
            &&& code == 410 <==> late
            &&& code == 401 <==> there && !late && verdict is Some
            &&& code == 200 <==> there && !late && verdict is None
            &&& code == 400 ==> why == "invalid approval_id"@
            &&& code == 404 ==> why == "approval request not found or already resolved"@
            &&& code == 410 ==> why == "approval request has expired"@
            &&& code == 401 ==> verdict == Some(why)
            &&& after == if code == 410 || code == 200 {
                map.remove(id)
            } else {
                map
            }
        }),
{
}

/// Every denial is answered: an empty or overlong id with 400, an id without a request with 404, a
/// request past its deadline with 410, anything else with 200; no code is called for. The map loses
/// the request where it is answered 410 or 200, and is the same otherwise.
pub proof fn denials_are_answered(
    map: PendingMap,
    id: Seq<char>,
    operator: Seq<char>,
    reason: Seq<char>,
    checked_at: Instant,
    resolved_at: Instant,
)
    ensures
        ({
            let (after, reply) = denied(map, id, operator, reason, checked_at, resolved_at);
            let (code, why): (int, Seq<char>) = match reply {
                ReplyView::Refused { status, error } => (status.spec_code() as int, error),
                ReplyView::Resolved(_) => (200, Seq::empty()),
            };
            let there = !is_bad(id) && map.contains_key(id);
            let late = there && map[id].expires_at.before(checked_at);
            &&& code == 400 <==> is_bad(id)
            &&& code == 404 <==> !is_bad(id) && !map.contains_key(id)
            &&& code == 410 <==> late
            &&& code == 200 <==> there && !late
            &&& code == 400 ==> why == "invalid approval_id"@
            &&& code == 404 ==> why == "approval request not found or already resolved"@
            &&& code == 410 ==> why == "approval request has expired"@
            &&& after == if code == 410 || code == 200 {
                map.remove(id)
            } else {
                map
            }
        }),
{
}

/// Looking a request up hands out the request as it is in the map, exactly where the id is good,
/// the request is there and its deadline has not passed. It takes a request out only past its
/// deadline.
pub proof fn looking_up_hands_out_the_request(map: PendingMap, id: Seq<char>, now: Instant)
    ensures
        ({
            let (after, step) = begun(map, id, now);
            let there = !is_bad(id) && map.contains_key(id);
            let late = there && map[id].expires_at.before(now);
            &&& step is VerifyTotp <==> there && !late
            &&& step matches StepView::VerifyTotp(pending) ==> pending == map[id]
            &&& after == if late {
                map.remove(id)
            } else {
                map
            }
        }),
{
}

/// The numbers of the statuses, and which replies have them.
pub proof fn statuses_have_their_numbers(reply: Reply)
    ensures
        Status::Success.spec_code() == 200,
        Status::BadRequest.spec_code() == 400,
        Status::Unauthorized.spec_code() == 401,
        Status::NotFound.spec_code() == 404,
        Status::Conflict.spec_code() == 409,
        Status::Gone.spec_code() == 410,
        match reply {
            Reply::Resolved(_) => reply.spec_status().spec_code() == 200,
            Reply::Refused { status, .. } => reply.spec_status() == status,
        },
{
}

// ---------------------------------------------------------------------------
// What is listed
// ---------------------------------------------------------------------------

/// The list shows of each request what the map holds of it, exactly where its deadline is still to
/// come, each once, and never a later deadline before an earlier one.
pub proof fn the_list_shows_what_waits(map: PendingMap, now: Instant, items: Seq<ItemView>)
    requires
        lists(map, now, items),
    ensures
        forall|i: int|
            0 <= i < items.len() ==> {
                let item = #[trigger] items[i];
                let pending = map[item.approval_id];
                &&& map.contains_key(item.approval_id)
                &&& now.before(item.expires_at)
                &&& item.incident_id == pending.incident_id
                &&& item.action_description == pending.action_description
                &&& item.detector == pending.detector
                &&& item.action_name == pending.action_name
                &&& item.created_at == pending.created_at
                &&& item.expires_at == pending.expires_at
            },
        forall|id: Seq<char>| #[trigger]
            map.contains_key(id) && now.before(map[id].expires_at) ==> exists|i: int|
                0 <= i < items.len() && (#[trigger] items[i]).approval_id == id,
        forall|i: int, j: int|
            0 <= i < j < items.len() ==> (#[trigger] items[i]).approval_id != (
            #[trigger] items[j]).approval_id && !items[j].expires_at.before(items[i].expires_at),
{
    assert forall|id: Seq<char>| #[trigger]
        map.contains_key(id) && now.before(map[id].expires_at) implies exists|i: int|
        0 <= i < items.len() && (#[trigger] items[i]).approval_id == id by {
        assert(live(map, now, id));
        assert(shows(items, id));
    }
}

// ---------------------------------------------------------------------------
// What is asked
// ---------------------------------------------------------------------------

/// A request says what it asks for: its incident, the summary as its description, the detector, the
/// action, when it was asked and until when it waits. It has the number of its Telegram message,
/// and zero where none was sent.
pub proof fn a_request_says_what_it_asks(
    incident_id: Seq<char>,
    summary: Seq<char>,
    detector: Seq<char>,
    action_name: Seq<char>,
    telegram: TelegramOutcome,
    ttl: u64,
    now: Instant,
)
    ensures
        ({
            let request = requested(
                incident_id,
                summary,
                detector,
                action_name,
                telegram,
                ttl,
                now,
            );
            &&& request.incident_id == incident_id
            &&& request.action_description == summary
            &&& request.detector == detector
            &&& request.action_name == action_name
            &&& request.created_at == now
            &&& ttl < 0x8000_0000_0000_0000 ==> request.expires_at == now.moved(ttl as int)
            &&& ttl >= 0x8000_0000_0000_0000 ==> request.expires_at == now.moved(
                ttl - 18_446_744_073_709_551_616,
            )
            &&& match telegram {
                TelegramOutcome::Sent(id) => request.telegram_message_id == id,
                TelegramOutcome::Failed => request.telegram_message_id == 0,
                TelegramOutcome::NotConfigured => request.telegram_message_id == 0,
            }
        }),
{
}

/// The operator is told the channel that delivered the request, and no other: Telegram where it
/// sent its message; else the webhook where there is one and it took its message; else none.
pub proof fn the_status_tells_the_channel(
    telegram: TelegramOutcome,
    webhook: WebhookConfig,
    delivered: bool,
)
    ensures
        telegram is Sent ==> status_text(telegram, webhook, delivered)
            == "pending: confirmation requested via Telegram (dashboard-approvable)"@,
        !(telegram is Sent) && webhook.enabled && webhook.url@.len() > 0 && delivered
            ==> status_text(telegram, webhook, delivered)
            == "pending: confirmation sent via webhook (dashboard-approvable)"@,
        !(telegram is Sent) && !(webhook.enabled && webhook.url@.len() > 0 && delivered)
            ==> status_text(telegram, webhook, delivered)
            == "pending: confirmation registered for dashboard approval"@,
{
}

/// The webhook is asked exactly where Telegram did not send and a webhook is switched on and has an
/// address. It is told that a confirmation is required, of which incident, for what, and why.
pub proof fn the_webhook_stands_in_for_telegram(
    telegram: TelegramOutcome,
    webhook: WebhookConfig,
    incident_id: Seq<char>,
    summary: Seq<char>,
    reason: Seq<char>,
)
    ensures
        webhook_due(telegram, webhook) <==> (telegram is NotConfigured || telegram is Failed)
            && webhook.enabled && webhook.url@.len() > 0,
        webhook_payload(incident_id, summary, reason) == seq![
            noted("type"@, "confirmation_required"@), noted("incident_id"@, incident_id),
            noted("summary"@, summary), noted("decision_reason"@, reason),
        ],
{
}

// ---------------------------------------------------------------------------
// What views hold
// ---------------------------------------------------------------------------

/// The view of a request holds its fields.
pub proof fn requests_are_seen_as_they_are(pending: PendingConfirmation)
    ensures
        pending@.incident_id == pending.incident_id@,
        pending@.telegram_message_id == pending.telegram_message_id,
        pending@.action_description == pending.action_description@,
        pending@.created_at == pending.created_at@,
        pending@.expires_at == pending.expires_at@,
        pending@.detector == pending.detector@,
        pending@.action_name == pending.action_name@,
{
}

/// The views of list entries hold their fields, in the order of the list.
pub proof fn items_are_seen_as_they_are(items: Seq<PendingApprovalItem>, i: int)
    requires
        0 <= i < items.len(),
    ensures
        item_views(items).len() == items.len(),
        item_views(items)[i].approval_id == items[i].approval_id@,
        item_views(items)[i].incident_id == items[i].incident_id@,
        item_views(items)[i].action_description == items[i].action_description@,
        item_views(items)[i].detector == items[i].detector@,
        item_views(items)[i].action_name == items[i].action_name@,
        item_views(items)[i].created_at == items[i].created_at@,
        item_views(items)[i].expires_at == items[i].expires_at@,
{
}

/// The views of an audit row and of a message to the agent hold their fields.
pub proof fn records_are_seen_as_they_are(
    audit: AdminActionEntry,
    outcome: DashboardApprovalOutcome,
)
    ensures
        audit@.ts == audit.ts@,
        audit@.operator == audit.operator@,
        audit@.source == audit.source@,
        audit@.action == audit.action@,
        audit@.target == audit.target@,
        audit@.parameters == field_views(audit.parameters@),
        audit@.result == audit.result@,
        audit@.prev_hash is None <==> audit.prev_hash is None,
        outcome@.incident_id == outcome.incident_id@,
        outcome@.approved == outcome.approved,
        outcome@.operator == outcome.operator@,
        outcome@.totp_verified == outcome.totp_verified,
{
}

/// The views of a reply hold its fields.
pub proof fn replies_are_seen_as_they_are(reply: Reply, resolution: Resolution)
    ensures
        resolution@.audit == resolution.audit@,
        resolution@.outcome == resolution.outcome@,
        resolution@.approved == resolution.approved,
        resolution@.approval_id == resolution.approval_id@,
        resolution@.incident_id == resolution.incident_id@,
        resolution@.action_description == resolution.action_description@,
        match reply {
            Reply::Resolved(r) => reply@ == ReplyView::Resolved(r@),
            Reply::Refused { status, error } => reply@ == (ReplyView::Refused {
                status,
                error: error@,
            }),
        },
{
}

} // verus!
