//! Asking an operator to confirm a guarded action.
//!
//! The agent asks through Telegram first and through a webhook where Telegram did not deliver.
//! Whatever came of that, the request is registered, so that the dashboard can approve or deny it.
//! The messages are sent by the agent; the library says whether a webhook is due and what it
//! carries, and registers the request with the outcome of both.

use crate::incident::Incident;
use crate::pending::{PendingApprovals, PendingConfirmation, PendingMap, PendingView};
use crate::record::{field_views, text_field, Field, FieldView};
use crate::time::{Instant, Timestamp};
use crate::two_fa::{
    approval, approved, denial, denied, lists, live, shows, valid_id, ItemView, ReplyView,
};
use vstd::hash_map::StringHashMap;
use vstd::prelude::*;

verus! {

/// How Telegram asks for confirmations.
#[derive(Debug)]
pub struct TelegramConfig {
    /// How long a request waits for a decision.
    pub approval_ttl_secs: u64,
}

/// Where the webhook is.
#[derive(Debug)]
pub struct WebhookConfig {
    pub enabled: bool,
    pub url: String,
}

/// What the agent is set up to do.
#[derive(Debug)]
pub struct AgentConfig {
    pub telegram: TelegramConfig,
    pub webhook: WebhookConfig,
}

/// An action that was decided on: its name and its particulars.
#[derive(Debug)]
pub struct AiAction {
    pub name: String,
    pub parameters: Vec<Field>,
}

/// A decision on an incident. How sure the model is of it is handed on and never looked at.
#[derive(Debug)]
pub struct AiDecision<C> {
    pub action: AiAction,
    pub confidence: C,
    pub auto_execute: bool,
    pub reason: String,
    pub alternatives: Vec<String>,
    pub estimated_threat: String,
}

/// What came of the message in Telegram.
#[derive(Clone, Copy, Debug)]
pub enum TelegramOutcome {
    /// There is no client to send it with.
    NotConfigured,
    /// It could not be sent.
    Failed,
    /// It was sent, and is the message of that number.
    Sent(i64),
}

/// A message for the webhook.
#[derive(Debug)]
pub struct WebhookRequest {
    pub url: String,
    pub payload: Vec<Field>,
}

/// What the agent keeps of a request, to act on once it is approved.
#[derive(Debug)]
pub struct Confirmation<C> {
    pub pending: PendingConfirmation,
    pub decision: AiDecision<C>,
    pub incident: Incident,
}

/// What the agent keeps of all requests that wait for a decision, by the incident they belong to.
#[verifier::reject_recursive_types(C)]
pub struct PendingConfirmations<C> {
    kept: StringHashMap<Confirmation<C>>,
}

impl<C> View for PendingConfirmations<C> {
    type V = Map<Seq<char>, Confirmation<C>>;

    closed spec fn view(&self) -> Map<Seq<char>, Confirmation<C>> {
        self.kept@
    }
}

impl<C> PendingConfirmations<C> {
    /// Nothing waits for a decision.
    pub fn new() -> (confirmations: PendingConfirmations<C>)
        ensures
            confirmations@ == Map::<Seq<char>, Confirmation<C>>::empty(),
    {
        PendingConfirmations { kept: StringHashMap::new() }
    }

    /// Whether a request of the incident `id` waits for a decision.
    pub fn contains_key(&self, id: &str) -> (found: bool)
        ensures
            found == self@.contains_key(id@),
    {
        self.kept.contains_key(id)
    }

    /// What is kept of the request of the incident `id`.
    pub fn get(&self, id: &str) -> (found: Option<&Confirmation<C>>)
        ensures
            match found {
                Some(confirmation) => self@.contains_key(id@) && *confirmation == self@[id@],
                None => !self@.contains_key(id@),
            },
    {
        self.kept.get(id)
    }

    /// Keeps a request of the incident `id`, in place of the one that may be there.
    pub fn insert(&mut self, id: String, confirmation: Confirmation<C>)
        ensures
            final(self)@ == old(self)@.insert(id@, confirmation),
    {
        self.kept.insert(id, confirmation);
    }
}

/// The webhook is due: Telegram did not deliver, and there is a webhook.
pub open spec fn webhook_due(telegram: TelegramOutcome, webhook: WebhookConfig) -> bool {
    telegram !is Sent && webhook.enabled && webhook.url@.len() > 0
}

/// What the message for the webhook carries.
pub open spec fn webhook_payload(
    incident_id: Seq<char>,
    summary: Seq<char>,
    reason: Seq<char>,
) -> Seq<FieldView> {
    seq![
        text_field("type", "confirmation_required"@),
        text_field("incident_id", incident_id),
        text_field("summary", summary),
        text_field("decision_reason", reason),
    ]
}

/// Whether the webhook is due.
fn is_webhook_due(telegram: TelegramOutcome, webhook: &WebhookConfig) -> (due: bool)
    ensures
        due == webhook_due(telegram, *webhook),
{
    match telegram {
        TelegramOutcome::Sent(_) => false,
        _ => webhook.enabled && !webhook.url.as_str().is_empty(),
    }
}

/// The message for the webhook, where one is due.
pub fn webhook_request<C>(
    summary: &str,
    decision: &AiDecision<C>,
    incident: &Incident,
    cfg: &AgentConfig,
    telegram: TelegramOutcome,
) -> (request: Option<WebhookRequest>)
    ensures
        request is Some <==> webhook_due(telegram, cfg.webhook),
        request matches Some(r) ==> {
            &&& r.url@ == cfg.webhook.url@
            &&& field_views(r.payload@) == webhook_payload(
                incident.incident_id@,
                summary@,
                decision.reason@,
            )
        },
{
    if !is_webhook_due(telegram, &cfg.webhook) {
        return None;
    }
    let payload: Vec<Field> = vec![
        Field::text("type", "confirmation_required"),
        Field::text("incident_id", &incident.incident_id),
        Field::text("summary", summary),
        Field::text("decision_reason", &decision.reason),
    ];
    assert(field_views(payload@) =~= webhook_payload(
        incident.incident_id@,
        summary@,
        decision.reason@,
    ));
    Some(WebhookRequest { url: cfg.webhook.url.clone(), payload })
}

/// The seconds that a request waits. A number above the largest `i64` wraps around.
pub open spec fn waiting_time(ttl: u64) -> int {
    if ttl <= i64::MAX {
        ttl as int
    } else {
        ttl - 0x1_0000_0000_0000_0000
    }
}

/// The seconds that a request waits.
fn waiting_seconds(ttl: u64) -> (seconds: i64)
    ensures
        seconds == waiting_time(ttl),
{
    let seconds: i64 = ttl as i64;
    assert(ttl <= i64::MAX ==> ttl as i64 == ttl) by (bit_vector);
    assert(ttl > i64::MAX ==> ttl as i64 == ttl - 0x1_0000_0000_0000_0000) by (bit_vector);
    seconds
}

/// The number of the message in Telegram; zero where none was sent.
pub open spec fn message_id(telegram: TelegramOutcome) -> i64 {
    match telegram {
        TelegramOutcome::Sent(id) => id,
        _ => 0,
    }
}

/// The request to confirm an action.
pub open spec fn requested(
    incident_id: Seq<char>,
    summary: Seq<char>,
    detector: Seq<char>,
    action_name: Seq<char>,
    telegram: TelegramOutcome,
    ttl: u64,
    now: Instant,
) -> PendingView {
    PendingView {
        incident_id,
        telegram_message_id: message_id(telegram),
        action_description: summary,
        created_at: now,
        expires_at: now.moved(waiting_time(ttl)),
        detector,
        action_name,
    }
}

/// How a request is reported: by the channel that delivered it.
pub open spec fn status_text(
    telegram: TelegramOutcome,
    webhook: WebhookConfig,
    delivered: bool,
) -> Seq<char> {
    if telegram is Sent {
        "pending: confirmation requested via Telegram (dashboard-approvable)"@
    } else if webhook_due(telegram, webhook) && delivered {
        "pending: confirmation sent via webhook (dashboard-approvable)"@
    } else {
        "pending: confirmation registered for dashboard approval"@
    }
}

/// Registers a request for confirmation: with the dashboard, where its map can be reached, and with
/// the agent. The request does not depend on what came of the webhook. Returns how the request is
/// reported, and whether the action was carried out, which it never is.
///
/// `telegram` is what came of the message in Telegram; `webhook_delivered` tells whether the
/// webhook took its message, where one was due.
pub fn execute_request_confirmation<C>(
    summary: &str,
    decision: AiDecision<C>,
    incident: Incident,
    detector: &str,
    cfg: &AgentConfig,
    telegram: TelegramOutcome,
    webhook_delivered: bool,
    now: &Timestamp,
    dashboard_pending: Option<&mut PendingApprovals>,
    pending_confirmations: &mut PendingConfirmations<C>,
) -> (reported: (String, bool))
    requires
        now@.can_move(waiting_time(cfg.telegram.approval_ttl_secs)),
    ensures
        ({
            let id = incident.incident_id@;
            let request = requested(
                id,
                summary@,
                detector@,
                decision.action.name@,
                telegram,
                cfg.telegram.approval_ttl_secs,
                now@,
            );
            let kept = final(pending_confirmations)@[id];
            &&& dashboard_pending matches Some(map) ==> final(map)@ == map@.insert(id, request)
            &&& final(pending_confirmations)@ == old(pending_confirmations)@.insert(id, kept)
            &&& kept.pending@ == request
            &&& kept.decision == decision
            &&& kept.incident == incident
            &&& kept.pending@.incident_id == incident.incident_id@
            &&& kept.pending@.action_description == summary@
            &&& kept.pending@.detector == detector@
            &&& kept.pending@.action_name == decision.action.name@
            &&& kept.pending@.created_at == now@
        }),
        reported.0@ == status_text(telegram, cfg.webhook, webhook_delivered),
        reported.1 == false,
{
    let pending = PendingConfirmation {
        incident_id: incident.incident_id.clone(),
        telegram_message_id: match telegram {
            TelegramOutcome::Sent(id) => id,
            _ => 0,
        },
        action_description: summary.to_owned(),
        created_at: *now,
        expires_at: now.add_seconds(waiting_seconds(cfg.telegram.approval_ttl_secs)),
        detector: detector.to_owned(),
        action_name: decision.action.name.clone(),
    };
    match dashboard_pending {
        Some(map) => {
            map.insert(&incident.incident_id, pending.clone());
        },
        None => {},
    }
    let sent_by_webhook = is_webhook_due(telegram, &cfg.webhook) && webhook_delivered;
    let id: String = incident.incident_id.clone();
    pending_confirmations.insert(id, Confirmation { pending, decision, incident });
    let status = match telegram {
        TelegramOutcome::Sent(_) =>
            "pending: confirmation requested via Telegram (dashboard-approvable)",
        _ => if sent_by_webhook {
            "pending: confirmation sent via webhook (dashboard-approvable)"
        } else {
            "pending: confirmation registered for dashboard approval"
        },
    };
    (status.to_owned(), false)
}

/// A registered request waits in the dashboard, whatever the channel that announced it: until its
/// deadline the list shows it, and with an id that the endpoints take it can be approved and
/// denied. Either way the agent is told of the incident under which it kept the request.
pub proof fn a_registered_request_can_be_decided(
    map: PendingMap,
    incident_id: Seq<char>,
    summary: Seq<char>,
    detector: Seq<char>,
    action_name: Seq<char>,
    telegram: TelegramOutcome,
    ttl: u64,
    asked_at: Instant,
    now: Instant,
    items: Seq<ItemView>,
    operator: Seq<char>,
    reason: Seq<char>,
    enforced: bool,
)
    requires
        valid_id(incident_id),
        now.before(asked_at.moved(waiting_time(ttl))),
        lists(
            map.insert(
                incident_id,
                requested(incident_id, summary, detector, action_name, telegram, ttl, asked_at),
            ),
            now,
            items,
        ),
    ensures
        ({
            let request = requested(
                incident_id,
                summary,
                detector,
                action_name,
                telegram,
                ttl,
                asked_at,
            );
            let after = map.insert(incident_id, request);
            let yes = approval(incident_id, request, operator, enforced, now);
            let no = denial(incident_id, request, operator, reason, now);
            &&& shows(items, incident_id)
            &&& approved(after, incident_id, None, operator, enforced, now, now).1
                == ReplyView::Resolved(yes)
            &&& denied(after, incident_id, operator, reason, now, now).1 == ReplyView::Resolved(no)
            &&& yes.outcome.incident_id == incident_id
            &&& no.outcome.incident_id == incident_id
        }),
{
    let request = requested(incident_id, summary, detector, action_name, telegram, ttl, asked_at);
    assert(live(map.insert(incident_id, request), now, incident_id));
}

/// What came of the message in Telegram makes no difference to the request but for the message's
/// number.
pub proof fn the_channel_matters_only_to_the_message(
    incident_id: Seq<char>,
    summary: Seq<char>,
    detector: Seq<char>,
    action_name: Seq<char>,
    one: TelegramOutcome,
    other: TelegramOutcome,
    ttl: u64,
    now: Instant,
)
    ensures
        ({
            let first = requested(incident_id, summary, detector, action_name, one, ttl, now);
            let second = requested(incident_id, summary, detector, action_name, other, ttl, now);
            first == (PendingView { telegram_message_id: message_id(one), ..second })
        }),
{
}

/// Outside leap seconds a request waits for exactly the time that is set up, where that is not
/// longer than the time line allows for.
pub proof fn a_request_waits_as_long_as_set_up(
    incident_id: Seq<char>,
    summary: Seq<char>,
    detector: Seq<char>,
    action_name: Seq<char>,
    telegram: TelegramOutcome,
    ttl: u64,
    now: Instant,
)
    requires
        now.valid(),
        !now.in_leap_second(),
        ttl <= i64::MAX,
        now.can_move(waiting_time(ttl)),
    ensures
        ({
            let request = requested(
                incident_id,
                summary,
                detector,
                action_name,
                telegram,
                ttl,
                now,
            );
            request.expires_at.since(request.created_at) == ttl * 1_000_000_000
        }),
{
}

/// The webhook is never asked where Telegram delivered.
pub proof fn the_webhook_is_only_a_fallback(id: i64, webhook: WebhookConfig)
    ensures
        !webhook_due(TelegramOutcome::Sent(id), webhook),
{
}

} // verus!
