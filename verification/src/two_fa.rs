//! The dashboard's endpoints for pending confirmations: list them, approve one, deny one.
//!
//! The library decides; the server around it holds the lock of the map, reads the clock, checks
//! one-time codes, appends audit entries and sends replies. Approving takes two steps, because the
//! one-time code is checked between them, without the lock: [`approve_begin`] looks the request up,
//! and [`approve_finish`] resolves it. [`api_2fa_approve`] is both in one, for a map that nobody
//! else touches in between.

use crate::pending::{
    entry_is_mapped, entry_map, ids_differ, under, PendingApprovals, PendingConfirmation,
    PendingEntry, PendingMap, PendingView,
};
use crate::record::{field_views, text_field, Field, FieldView, ValueView};
use crate::time::{Instant, Timestamp};
use vstd::prelude::*;
use vstd::utf8::encode_utf8;

verus! {

broadcast use vstd::seq_lib::group_seq_properties;

/// The most bytes that an approval id may have.
pub const MAX_APPROVAL_ID_LEN: usize = 128;

// ---------------------------------------------------------------------------
// The list
// ---------------------------------------------------------------------------

/// One entry of the list: a pending confirmation without its Telegram message.
#[derive(Debug)]
pub struct PendingApprovalItem {
    /// The id by which the request is approved or denied.
    pub approval_id: String,
    pub incident_id: String,
    pub action_description: String,
    pub detector: String,
    pub action_name: String,
    pub created_at: Timestamp,
    pub expires_at: Timestamp,
}

/// What a [`PendingApprovalItem`] holds.
#[verifier::ext_equal]
pub struct ItemView {
    pub approval_id: Seq<char>,
    pub incident_id: Seq<char>,
    pub action_description: Seq<char>,
    pub detector: Seq<char>,
    pub action_name: Seq<char>,
    pub created_at: Instant,
    pub expires_at: Instant,
}

impl View for PendingApprovalItem {
    type V = ItemView;

    open spec fn view(&self) -> ItemView {
        ItemView {
            approval_id: self.approval_id@,
            incident_id: self.incident_id@,
            action_description: self.action_description@,
            detector: self.detector@,
            action_name: self.action_name@,
            created_at: self.created_at@,
            expires_at: self.expires_at@,
        }
    }
}

/// What a list of entries holds.
pub open spec fn item_views(items: Seq<PendingApprovalItem>) -> Seq<ItemView> {
    items.map_values(|i: PendingApprovalItem| i@)
}

/// The answer to a request for the list.
#[derive(Debug)]
pub struct PendingApprovalsResponse {
    pub total: usize,
    pub pending: Vec<PendingApprovalItem>,
}

/// The entry for a pending confirmation.
pub open spec fn item_of(approval_id: Seq<char>, pending: PendingView) -> ItemView {
    ItemView {
        approval_id,
        incident_id: pending.incident_id,
        action_description: pending.action_description,
        detector: pending.detector,
        action_name: pending.action_name,
        created_at: pending.created_at,
        expires_at: pending.expires_at,
    }
}

/// The deadlines of the entries ascend.
pub open spec fn by_deadline(items: Seq<ItemView>) -> bool {
    forall|i: int, j: int|
        0 <= i < j < items.len() ==> !(#[trigger] items[j]).expires_at.before(
            (#[trigger] items[i]).expires_at,
        )
}

/// The entries stand under different ids.
pub open spec fn items_differ(items: Seq<ItemView>) -> bool {
    forall|i: int, j: int|
        0 <= i < items.len() && 0 <= j < items.len() && i != j ==> (
        #[trigger] items[i]).approval_id != (#[trigger] items[j]).approval_id
}

/// The request `id` waits for a decision at `now`.
pub open spec fn live(map: PendingMap, now: Instant, id: Seq<char>) -> bool {
    map.contains_key(id) && now.before(map[id].expires_at)
}

/// `items` has an entry under `id`.
pub open spec fn shows(items: Seq<ItemView>, id: Seq<char>) -> bool {
    exists|i: int| 0 <= i < items.len() && (#[trigger] items[i]).approval_id == id
}

/// `items` is a list of the requests that wait for a decision at `now`: each once, the nearest
/// deadline first. Requests with one and the same deadline may stand in any order.
pub open spec fn lists(map: PendingMap, now: Instant, items: Seq<ItemView>) -> bool {
    &&& by_deadline(items)
    &&& items_differ(items)
    &&& forall|i: int|
        0 <= i < items.len() ==> {
            let item = #[trigger] items[i];
            live(map, now, item.approval_id) && item == item_of(
                item.approval_id,
                map[item.approval_id],
            )
        }
    &&& forall|id: Seq<char>| #[trigger] live(map, now, id) ==> shows(items, id)
}

/// The entry for a pending confirmation.
fn new_item(entry: &PendingEntry) -> (item: PendingApprovalItem)
    ensures
        item@ == item_of(entry.approval_id@, entry.pending@),
{
    let pending = &entry.pending;
    PendingApprovalItem {
        approval_id: entry.approval_id.clone(),
        incident_id: pending.incident_id.clone(),
        action_description: pending.action_description.clone(),
        detector: pending.detector.clone(),
        action_name: pending.action_name.clone(),
        created_at: pending.created_at,
        expires_at: pending.expires_at,
    }
}

/// Puts an entry into a list by its deadline, behind those with the same one.
fn file_item(items: &mut Vec<PendingApprovalItem>, item: PendingApprovalItem)
    requires
        by_deadline(item_views(old(items)@)),
    ensures
        by_deadline(item_views(final(items)@)),
        exists|at: int|
            0 <= at <= old(items)@.len() && item_views(final(items)@)
                == #[trigger] item_views(old(items)@).insert(at, item@),
{
    let ghost before = item_views(items@);
    let mut at: usize = 0;
    while at < items.len() && !item.expires_at.is_before(&items[at].expires_at)
        invariant
            before == item_views(items@),
            at <= items.len(),
            forall|j: int|
                0 <= j < at ==> !item@.expires_at.before((#[trigger] before[j]).expires_at),
        decreases items.len() - at,
    {
        at = at + 1;
    }
    let ghost new = item@;
    items.insert(at, item);
    proof {
        let after = item_views(items@);
        assert(after =~= before.insert(at as int, new));
        assert forall|i: int, j: int| 0 <= i < j < after.len() implies !(
        #[trigger] after[j]).expires_at.before((#[trigger] after[i]).expires_at) by {
            let a = if i < at {
                i
            } else {
                i - 1
            };
            let b = if j < at {
                j
            } else {
                j - 1
            };
            if i != at && j != at {
                assert(!before[b].expires_at.before(before[a].expires_at));
            } else if i == at {
                assert(after[j] == before[b]);
                assert(new.expires_at.before(before[at as int].expires_at));
                if b != at {
                    assert(!before[b].expires_at.before(before[at as int].expires_at));
                }
            } else {
                assert(after[i] == before[a]);
            }
        }
    }
}

/// `item` stands for one of the first `n` entries, which waits for a decision at `now`.
spec fn comes_from(entries: Seq<PendingEntry>, n: int, now: Instant, item: ItemView) -> bool {
    exists|e: int|
        {
            &&& 0 <= e < n
            &&& now.before((#[trigger] entries[e]).pending@.expires_at)
            &&& item == item_of(entries[e].approval_id@, entries[e].pending@)
        }
}

/// The requests among the first `n` entries that wait for a decision at `now`.
spec fn lists_first(
    entries: Seq<PendingEntry>,
    n: int,
    now: Instant,
    items: Seq<ItemView>,
) -> bool {
    &&& by_deadline(items)
    &&& items_differ(items)
    &&& forall|i: int|
        0 <= i < items.len() ==> comes_from(entries, n, now, #[trigger] items[i])
    &&& forall|e: int|
        0 <= e < n && now.before((#[trigger] entries[e]).pending@.expires_at) ==> shows(
            items,
            entries[e].approval_id@,
        )
}

/// One more entry, filed where the request waits for a decision.
proof fn filed_entry_is_listed(
    entries: Seq<PendingEntry>,
    n: int,
    now: Instant,
    items: Seq<ItemView>,
    at: int,
)
    requires
        ids_differ(entries),
        0 <= n < entries.len(),
        lists_first(entries, n, now, items),
        now.before(entries[n].pending@.expires_at),
        0 <= at <= items.len(),
        by_deadline(items.insert(at, item_of(entries[n].approval_id@, entries[n].pending@))),
    ensures
        lists_first(
            entries,
            n + 1,
            now,
            items.insert(at, item_of(entries[n].approval_id@, entries[n].pending@)),
        ),
{
    let new = item_of(entries[n].approval_id@, entries[n].pending@);
    let after = items.insert(at, new);
    let origin = |i: int|
        if i < at {
            i
        } else {
            i - 1
        };
    assert forall|i: int| 0 <= i < items.len() implies (#[trigger] items[i]).approval_id
        != new.approval_id by {
        let e = choose|e: int|
            {
                &&& 0 <= e < n
                &&& now.before((#[trigger] entries[e]).pending@.expires_at)
                &&& items[i] == item_of(entries[e].approval_id@, entries[e].pending@)
            };
        assert(entries[e].approval_id@ != entries[n].approval_id@);
    }
    assert forall|i: int, j: int|
        0 <= i < after.len() && 0 <= j < after.len() && i != j implies (
    #[trigger] after[i]).approval_id != (#[trigger] after[j]).approval_id by {
        if i != at && j != at {
            assert(items[origin(i)].approval_id != items[origin(j)].approval_id);
        } else if i == at {
            assert(items[origin(j)].approval_id != new.approval_id);
        } else {
            assert(items[origin(i)].approval_id != new.approval_id);
        }
    }
    assert forall|i: int| 0 <= i < after.len() implies comes_from(
        entries,
        n + 1,
        now,
        #[trigger] after[i],
    ) by {
        if i != at {
            assert(comes_from(entries, n, now, items[origin(i)]));
        }
    }
    assert forall|e: int|
        0 <= e < n + 1 && now.before((#[trigger] entries[e]).pending@.expires_at) implies shows(
        after,
        entries[e].approval_id@,
    ) by {
        if e == n {
            assert(after[at].approval_id == entries[e].approval_id@);
        } else {
            assert(shows(items, entries[e].approval_id@));
            let i = choose|i: int|
                0 <= i < items.len() && (#[trigger] items[i]).approval_id
                    == entries[e].approval_id@;
            let k = if i < at {
                i
            } else {
                i + 1
            };
            assert(after[k] == items[i]);
        }
    }
}

/// One more entry, passed over where the request does not wait for a decision.
proof fn passed_entry_is_not_listed(
    entries: Seq<PendingEntry>,
    n: int,
    now: Instant,
    items: Seq<ItemView>,
)
    requires
        0 <= n < entries.len(),
        lists_first(entries, n, now, items),
        !now.before(entries[n].pending@.expires_at),
    ensures
        lists_first(entries, n + 1, now, items),
{
    assert forall|i: int| 0 <= i < items.len() implies comes_from(
        entries,
        n + 1,
        now,
        #[trigger] items[i],
    ) by {
        assert(comes_from(entries, n, now, items[i]));
    }
}

/// The list of all entries is the list of the map.
proof fn full_list_is_complete(entries: Seq<PendingEntry>, now: Instant, items: Seq<ItemView>)
    requires
        ids_differ(entries),
        lists_first(entries, entries.len() as int, now, items),
    ensures
        lists(entry_map(entries), now, items),
{
    let map = entry_map(entries);
    assert forall|i: int| 0 <= i < items.len() implies ({
        let item = #[trigger] items[i];
        live(map, now, item.approval_id) && item == item_of(
            item.approval_id,
            map[item.approval_id],
        )
    }) by {
        let e = choose|e: int|
            {
                &&& 0 <= e < entries.len()
                &&& now.before((#[trigger] entries[e]).pending@.expires_at)
                &&& items[i] == item_of(entries[e].approval_id@, entries[e].pending@)
            };
        entry_is_mapped(entries, e);
    }
    assert forall|id: Seq<char>| #[trigger] live(map, now, id) implies shows(items, id) by {
        let e = choose|e: int| under(entries, id, e);
        assert(under(entries, id, e));
        entry_is_mapped(entries, e);
        assert(now.before(entries[e].pending@.expires_at));
    }
}

/// Lists the requests that wait for a decision at `now`, the nearest deadline first.
pub fn api_2fa_pending(map: &PendingApprovals, now: &Timestamp) -> (response:
    PendingApprovalsResponse)
    ensures
        lists(map@, now@, item_views(response.pending@)),
        response.total == response.pending@.len(),
{
    let entries = map.entries();
    let mut items: Vec<PendingApprovalItem> = Vec::new();
    for e in 0..entries.len()
        invariant
            ids_differ(entries@),
            lists_first(entries@, e as int, now@, item_views(items@)),
    {
        let ghost before = item_views(items@);
        if now.is_before(&entries[e].pending.expires_at) {
            let item = new_item(&entries[e]);
            let ghost new = item@;
            file_item(&mut items, item);
            proof {
                let at = choose|at: int|
                    0 <= at <= before.len() && item_views(items@) == #[trigger] before.insert(
                        at,
                        new,
                    );
                filed_entry_is_listed(entries@, e as int, now@, before, at);
            }
        } else {
            proof {
                passed_entry_is_not_listed(entries@, e as int, now@, before);
            }
        }
    }
    proof {
        full_list_is_complete(entries@, now@, item_views(items@));
    }
    let total: usize = items.len();
    PendingApprovalsResponse { total, pending: items }
}

// ---------------------------------------------------------------------------
// Replies
// ---------------------------------------------------------------------------

/// The outcome of a request, as HTTP knows it.
#[derive(Clone, Copy, Debug, PartialEq, Eq, Structural)]
pub enum Status {
    Success,
    BadRequest,
    Unauthorized,
    NotFound,
    Conflict,
    Gone,
}

impl Status {
    /// The number of a status.
    pub open spec fn spec_code(&self) -> u16 {
        match self {
            Status::Success => 200,
            Status::BadRequest => 400,
            Status::Unauthorized => 401,
            Status::NotFound => 404,
            Status::Conflict => 409,
            Status::Gone => 410,
        }
    }

    /// The number of this status.
    #[verifier::when_used_as_spec(spec_code)]
    pub fn code(&self) -> (code: u16)
        ensures
            code == self.spec_code(),
    {
        match self {
            Status::Success => 200,
            Status::BadRequest => 400,
            Status::Unauthorized => 401,
            Status::NotFound => 404,
            Status::Conflict => 409,
            Status::Gone => 410,
        }
    }
}

/// What an operator sends along with a decision.
#[derive(Debug)]
pub struct TwoFaActionRequest {
    /// The one-time code. The server checks it; it goes nowhere else.
    pub totp: String,
    pub reason: String,
}

impl Default for TwoFaActionRequest {
    /// No code and no reason.
    fn default() -> (request: TwoFaActionRequest)
        ensures
            request.totp@ == Seq::<char>::empty(),
            request.reason@ == Seq::<char>::empty(),
    {
        TwoFaActionRequest { totp: String::new(), reason: String::new() }
    }
}

/// A row of the audit trail.
#[derive(Debug)]
pub struct AdminActionEntry {
    pub ts: Timestamp,
    pub operator: String,
    pub source: String,
    pub action: String,
    pub target: String,
    pub parameters: Vec<Field>,
    pub result: String,
    /// The hash of the row before; the audit trail fills it in.
    pub prev_hash: Option<String>,
}

/// What an [`AdminActionEntry`] holds.
#[verifier::ext_equal]
pub struct AuditView {
    pub ts: Instant,
    pub operator: Seq<char>,
    pub source: Seq<char>,
    pub action: Seq<char>,
    pub target: Seq<char>,
    pub parameters: Seq<FieldView>,
    pub result: Seq<char>,
    pub prev_hash: Option<Seq<char>>,
}

impl View for AdminActionEntry {
    type V = AuditView;

    open spec fn view(&self) -> AuditView {
        AuditView {
            ts: self.ts@,
            operator: self.operator@,
            source: self.source@,
            action: self.action@,
            target: self.target@,
            parameters: field_views(self.parameters@),
            result: self.result@,
            prev_hash: match self.prev_hash {
                Some(hash) => Some(hash@),
                None => None,
            },
        }
    }
}

/// What the agent is told of a decision. It says whether a one-time code was verified, and never
/// holds the code.
#[derive(Debug)]
pub struct DashboardApprovalOutcome {
    pub incident_id: String,
    pub approved: bool,
    pub operator: String,
    pub totp_verified: bool,
}

/// What a [`DashboardApprovalOutcome`] holds.
#[verifier::ext_equal]
pub struct OutcomeView {
    pub incident_id: Seq<char>,
    pub approved: bool,
    pub operator: Seq<char>,
    pub totp_verified: bool,
}

impl View for DashboardApprovalOutcome {
    type V = OutcomeView;

    open spec fn view(&self) -> OutcomeView {
        OutcomeView {
            incident_id: self.incident_id@,
            approved: self.approved,
            operator: self.operator@,
            totp_verified: self.totp_verified,
        }
    }
}

/// A decision that was taken: the row for the audit trail, the message for the agent, and the
/// fields of the reply to the operator.
#[derive(Debug)]
pub struct Resolution {
    pub audit: AdminActionEntry,
    pub outcome: DashboardApprovalOutcome,
    pub approved: bool,
    pub approval_id: String,
    pub incident_id: String,
    pub action_description: String,
}

/// What a [`Resolution`] holds.
#[verifier::ext_equal]
pub struct ResolutionView {
    pub audit: AuditView,
    pub outcome: OutcomeView,
    pub approved: bool,
    pub approval_id: Seq<char>,
    pub incident_id: Seq<char>,
    pub action_description: Seq<char>,
}

impl View for Resolution {
    type V = ResolutionView;

    open spec fn view(&self) -> ResolutionView {
        ResolutionView {
            audit: self.audit@,
            outcome: self.outcome@,
            approved: self.approved,
            approval_id: self.approval_id@,
            incident_id: self.incident_id@,
            action_description: self.action_description@,
        }
    }
}

/// The reply to a decision: it was taken, or it was refused with a message.
#[derive(Debug)]
pub enum Reply {
    Resolved(Resolution),
    Refused { status: Status, error: String },
}

/// What a [`Reply`] holds.
#[verifier::ext_equal]
pub enum ReplyView {
    Resolved(ResolutionView),
    Refused { status: Status, error: Seq<char> },
}

impl View for Reply {
    type V = ReplyView;

    open spec fn view(&self) -> ReplyView {
        match self {
            Reply::Resolved(resolution) => ReplyView::Resolved(resolution@),
            Reply::Refused { status, error } => ReplyView::Refused {
                status: *status,
                error: error@,
            },
        }
    }
}

impl Reply {
    /// The status of a reply.
    pub open spec fn spec_status(&self) -> Status {
        match self {
            Reply::Resolved(_) => Status::Success,
            Reply::Refused { status, .. } => *status,
        }
    }

    /// The status of this reply.
    #[verifier::when_used_as_spec(spec_status)]
    pub fn status(&self) -> (status: Status)
        ensures
            status == self.spec_status(),
    {
        match self {
            Reply::Resolved(_) => Status::Success,
            Reply::Refused { status, .. } => *status,
        }
    }
}

/// A refusal.
pub open spec fn refusal(status: Status, error: &str) -> ReplyView {
    ReplyView::Refused { status, error: error@ }
}

/// A refusal.
fn refuse(status: Status, error: &str) -> (reply: Reply)
    ensures
        reply@ == refusal(status, error),
{
    Reply::Refused { status, error: error.to_owned() }
}

/// The refusal of an id that is empty or too long.
pub open spec fn bad_id() -> ReplyView {
    refusal(Status::BadRequest, "invalid approval_id")
}

/// The refusal of a request that is not there.
pub open spec fn not_found() -> ReplyView {
    refusal(Status::NotFound, "approval request not found or already resolved")
}

/// The refusal of a request whose deadline has passed.
pub open spec fn expired() -> ReplyView {
    refusal(Status::Gone, "approval request has expired")
}

/// The refusal of a request that somebody else resolved in between.
pub open spec fn overtaken() -> ReplyView {
    refusal(Status::Conflict, "approval request was resolved concurrently")
}

/// An approval id is not empty and has at most 128 bytes.
pub open spec fn valid_id(id: Seq<char>) -> bool {
    id.len() > 0 && encode_utf8(id).len() <= MAX_APPROVAL_ID_LEN
}

/// Whether an approval id is not empty and has at most 128 bytes.
pub fn is_valid_id(id: &str) -> (valid: bool)
    ensures
        valid == valid_id(id@),
{
    !id.is_empty() && id.as_bytes().len() <= MAX_APPROVAL_ID_LEN
}

/// The operator who sent a request.
pub open spec fn operator_name(user: Option<String>) -> Seq<char> {
    match user {
        Some(name) => name@,
        None => "anonymous"@,
    }
}

/// The operator who sent a request.
fn operator_of(user: Option<String>) -> (name: String)
    ensures
        name@ == operator_name(user),
{
    match user {
        Some(name) => name,
        None => "anonymous".to_owned(),
    }
}

// ---------------------------------------------------------------------------
// Approving
// ---------------------------------------------------------------------------

/// What follows from looking a request up: a refusal, or the check of the one-time code.
#[derive(Debug)]
pub enum ApproveStep {
    Reply(Reply),
    VerifyTotp(PendingConfirmation),
}

/// What an [`ApproveStep`] holds.
#[verifier::ext_equal]
pub enum StepView {
    Reply(ReplyView),
    VerifyTotp(PendingView),
}

impl View for ApproveStep {
    type V = StepView;

    open spec fn view(&self) -> StepView {
        match self {
            ApproveStep::Reply(reply) => StepView::Reply(reply@),
            ApproveStep::VerifyTotp(pending) => StepView::VerifyTotp(pending@),
        }
    }
}

/// The first step of an approval: the map after it, and what follows.
pub open spec fn begun(map: PendingMap, id: Seq<char>, now: Instant) -> (PendingMap, StepView) {
    if !valid_id(id) {
        (map, StepView::Reply(bad_id()))
    } else if !map.contains_key(id) {
        (map, StepView::Reply(not_found()))
    } else if map[id].expires_at.before(now) {
        (map.remove(id), StepView::Reply(expired()))
    } else {
        (map, StepView::VerifyTotp(map[id]))
    }
}

/// Looks up the request that is to be approved. A request whose deadline has passed is removed.
pub fn approve_begin(map: &mut PendingApprovals, approval_id: &str, now: &Timestamp) -> (step:
    ApproveStep)
    ensures
        (final(map)@, step@) == begun(old(map)@, approval_id@, now@),
{
    if !is_valid_id(approval_id) {
        return ApproveStep::Reply(refuse(Status::BadRequest, "invalid approval_id"));
    }
    let pending = match map.get(approval_id) {
        Some(pending) => pending.clone(),
        None => {
            return ApproveStep::Reply(
                refuse(Status::NotFound, "approval request not found or already resolved"),
            );
        },
    };
    if pending.expires_at.is_before(now) {
        let _ = map.remove(approval_id);
        return ApproveStep::Reply(refuse(Status::Gone, "approval request has expired"));
    }
    ApproveStep::VerifyTotp(pending)
}

/// The verdict on a one-time code: none, or why it was refused.
pub open spec fn verdict_view(totp: Result<(), String>) -> Option<Seq<char>> {
    match totp {
        Ok(_) => None,
        Err(error) => Some(error@),
    }
}

/// The approval of a request.
pub open spec fn approval(
    id: Seq<char>,
    pending: PendingView,
    operator: Seq<char>,
    enforced: bool,
    now: Instant,
) -> ResolutionView {
    ResolutionView {
        audit: AuditView {
            ts: now,
            operator,
            source: "dashboard"@,
            action: "2fa_approve"@,
            target: id,
            parameters: seq![
                text_field("incident_id", pending.incident_id),
                text_field("action_description", pending.action_description),
                text_field("detector", pending.detector),
                text_field("action_name", pending.action_name),
                text_field("two_factor", if enforced { "enforced"@ } else { "none"@ }),
            ],
            result: "success"@,
            prev_hash: None,
        },
        outcome: OutcomeView {
            incident_id: pending.incident_id,
            approved: true,
            operator,
            totp_verified: true,
        },
        approved: true,
        approval_id: id,
        incident_id: pending.incident_id,
        action_description: pending.action_description,
    }
}

/// The approval of a request.
fn new_approval(
    id: &str,
    pending: &PendingConfirmation,
    operator: String,
    enforced: bool,
    now: &Timestamp,
) -> (resolution: Resolution)
    ensures
        resolution@ == approval(id@, pending@, operator@, enforced, now@),
{
    let two_factor: &str = if enforced {
        "enforced"
    } else {
        "none"
    };
    let resolution = Resolution {
        audit: AdminActionEntry {
            ts: *now,
            operator: operator.clone(),
            source: "dashboard".to_owned(),
            action: "2fa_approve".to_owned(),
            target: id.to_owned(),
            parameters: vec![
                Field::text("incident_id", &pending.incident_id),
                Field::text("action_description", &pending.action_description),
                Field::text("detector", &pending.detector),
                Field::text("action_name", &pending.action_name),
                Field::text("two_factor", two_factor),
            ],
            result: "success".to_owned(),
            prev_hash: None,
        },
        outcome: DashboardApprovalOutcome {
            incident_id: pending.incident_id.clone(),
            approved: true,
            operator,
            totp_verified: true,
        },
        approved: true,
        approval_id: id.to_owned(),
        incident_id: pending.incident_id.clone(),
        action_description: pending.action_description.clone(),
    };
    assert(resolution@ =~~= approval(id@, pending@, operator@, enforced, now@));
    resolution
}

/// The second step of an approval: the map after it, and the reply.
pub open spec fn finished(
    map: PendingMap,
    id: Seq<char>,
    pending: PendingView,
    verdict: Option<Seq<char>>,
    operator: Seq<char>,
    enforced: bool,
    now: Instant,
) -> (PendingMap, ReplyView) {
    match verdict {
        Some(error) => (map, ReplyView::Refused { status: Status::Unauthorized, error }),
        None => if map.contains_key(id) {
            (
                map.remove(id),
                ReplyView::Resolved(approval(id, pending, operator, enforced, now)),
            )
        } else {
            (map, overtaken())
        },
    }
}

/// Resolves the request that [`approve_begin`] looked up, after the verdict on the one-time code. A
/// refused code leaves the request as it is.
pub fn approve_finish(
    map: &mut PendingApprovals,
    approval_id: &str,
    pending: &PendingConfirmation,
    totp: Result<(), String>,
    user: Option<String>,
    enforced: bool,
    now: &Timestamp,
) -> (reply: Reply)
    ensures
        (final(map)@, reply@) == finished(
            old(map)@,
            approval_id@,
            pending@,
            verdict_view(totp),
            operator_name(user),
            enforced,
            now@,
        ),
        reply@ matches ReplyView::Resolved(r) ==> {
            let who = match user {
                Some(name) => name@,
                None => "anonymous"@,
            };
            &&& r.audit.operator == who
            &&& r.outcome.operator == who
            &&& r.audit.target == approval_id@
            &&& r.approval_id == approval_id@
            &&& r.audit.ts == now@
            &&& r.outcome.approved
        },
{
    match totp {
        Err(error) => {
            return Reply::Refused { status: Status::Unauthorized, error };
        },
        Ok(_) => {},
    }
    match map.remove(approval_id) {
        None => {
            assert(map@ =~= old(map)@);
            refuse(Status::Conflict, "approval request was resolved concurrently")
        },
        Some(_) => {
            Reply::Resolved(new_approval(approval_id, pending, operator_of(user), enforced, now))
        },
    }
}

/// An approval without interference: the map after it, and the reply.
pub open spec fn approved(
    map: PendingMap,
    id: Seq<char>,
    verdict: Option<Seq<char>>,
    operator: Seq<char>,
    enforced: bool,
    checked_at: Instant,
    resolved_at: Instant,
) -> (PendingMap, ReplyView) {
    match begun(map, id, checked_at) {
        (after, StepView::Reply(reply)) => (after, reply),
        (after, StepView::VerifyTotp(pending)) => finished(
            after,
            id,
            pending,
            verdict,
            operator,
            enforced,
            resolved_at,
        ),
    }
}

/// Approves a pending request: both steps at once, for a map that nobody else touches in between.
/// The deadline is held against `checked_at`; the audit row is of `resolved_at`.
pub fn api_2fa_approve(
    map: &mut PendingApprovals,
    approval_id: &str,
    user: Option<String>,
    totp: Result<(), String>,
    enforced: bool,
    checked_at: &Timestamp,
    resolved_at: &Timestamp,
) -> (reply: Reply)
    ensures
        (final(map)@, reply@) == approved(
            old(map)@,
            approval_id@,
            verdict_view(totp),
            operator_name(user),
            enforced,
            checked_at@,
            resolved_at@,
        ),
        reply@ matches ReplyView::Resolved(r) ==> {
            let who = match user {
                Some(name) => name@,
                None => "anonymous"@,
            };
            &&& r.audit.operator == who
            &&& r.outcome.operator == who
            &&& r.audit.target == approval_id@
            &&& r.approval_id == approval_id@
            &&& r.audit.ts == resolved_at@
            &&& r.outcome.approved
        },
{
    match approve_begin(map, approval_id, checked_at) {
        ApproveStep::Reply(reply) => reply,
        ApproveStep::VerifyTotp(pending) => approve_finish(
            map,
            approval_id,
            &pending,
            totp,
            user,
            enforced,
            resolved_at,
        ),
    }
}

// ---------------------------------------------------------------------------
// Denying
// ---------------------------------------------------------------------------

/// The denial of a request.
pub open spec fn denial(
    id: Seq<char>,
    pending: PendingView,
    operator: Seq<char>,
    reason: Seq<char>,
    now: Instant,
) -> ResolutionView {
    ResolutionView {
        audit: AuditView {
            ts: now,
            operator,
            source: "dashboard"@,
            action: "2fa_deny"@,
            target: id,
            parameters: seq![
                text_field("incident_id", pending.incident_id),
                text_field("action_description", pending.action_description),
                text_field("detector", pending.detector),
                text_field("action_name", pending.action_name),
                text_field("reason", reason),
            ],
            result: "denied"@,
            prev_hash: None,
        },
        outcome: OutcomeView {
            incident_id: pending.incident_id,
            approved: false,
            operator,
            totp_verified: false,
        },
        approved: false,
        approval_id: id,
        incident_id: pending.incident_id,
        action_description: pending.action_description,
    }
}

/// The denial of a request.
fn new_denial(
    id: &str,
    pending: &PendingConfirmation,
    operator: String,
    reason: &str,
    now: &Timestamp,
) -> (resolution: Resolution)
    ensures
        resolution@ == denial(id@, pending@, operator@, reason@, now@),
{
    let resolution = Resolution {
        audit: AdminActionEntry {
            ts: *now,
            operator: operator.clone(),
            source: "dashboard".to_owned(),
            action: "2fa_deny".to_owned(),
            target: id.to_owned(),
            parameters: vec![
                Field::text("incident_id", &pending.incident_id),
                Field::text("action_description", &pending.action_description),
                Field::text("detector", &pending.detector),
                Field::text("action_name", &pending.action_name),
                Field::text("reason", reason),
            ],
            result: "denied".to_owned(),
            prev_hash: None,
        },
        outcome: DashboardApprovalOutcome {
            incident_id: pending.incident_id.clone(),
            approved: false,
            operator,
            totp_verified: false,
        },
        approved: false,
        approval_id: id.to_owned(),
        incident_id: pending.incident_id.clone(),
        action_description: pending.action_description.clone(),
    };
    assert(resolution@ =~~= denial(id@, pending@, operator@, reason@, now@));
    resolution
}

/// The reason of a denial; empty where the request has no body.
pub open spec fn reason_of(body: Option<TwoFaActionRequest>) -> Seq<char> {
    match body {
        Some(request) => request.reason@,
        None => Seq::empty(),
    }
}

/// A denial: the map after it, and the reply.
pub open spec fn denied(
    map: PendingMap,
    id: Seq<char>,
    operator: Seq<char>,
    reason: Seq<char>,
    checked_at: Instant,
    resolved_at: Instant,
) -> (PendingMap, ReplyView) {
    if !valid_id(id) {
        (map, bad_id())
    } else if !map.contains_key(id) {
        (map, not_found())
    } else if map[id].expires_at.before(checked_at) {
        (map.remove(id), expired())
    } else {
        (
            map.remove(id),
            ReplyView::Resolved(denial(id, map[id], operator, reason, resolved_at)),
        )
    }
}

/// Denies a pending request. It takes no one-time code, and the body is optional. A request whose
/// deadline has passed is removed, and the operator is told so. The deadline is held against
/// `checked_at`; the audit row is of `resolved_at`.
pub fn api_2fa_deny(
    map: &mut PendingApprovals,
    approval_id: &str,
    user: Option<String>,
    body: Option<TwoFaActionRequest>,
    checked_at: &Timestamp,
    resolved_at: &Timestamp,
) -> (reply: Reply)
    ensures
        (final(map)@, reply@) == denied(
            old(map)@,
            approval_id@,
            operator_name(user),
            reason_of(body),
            checked_at@,
            resolved_at@,
        ),
        reply@ matches ReplyView::Resolved(r) ==> {
            let who = match user {
                Some(name) => name@,
                None => "anonymous"@,
            };
            &&& r.audit.operator == who
            &&& r.outcome.operator == who
            &&& r.audit.target == approval_id@
            &&& r.approval_id == approval_id@
            &&& r.audit.ts == resolved_at@
            &&& !r.outcome.approved
            &&& r.audit.parameters[4].value == ValueView::Text(
                match body {
                    Some(request) => request.reason@,
                    None => Seq::<char>::empty(),
                },
            )
        },
{
    if !is_valid_id(approval_id) {
        return refuse(Status::BadRequest, "invalid approval_id");
    }
    let reason = match body {
        Some(request) => request.reason,
        None => String::new(),
    };
    let pending = match map.remove(approval_id) {
        Some(pending) => pending,
        None => {
            assert(map@ =~= old(map)@);
            return refuse(Status::NotFound, "approval request not found or already resolved");
        },
    };
    if pending.expires_at.is_before(checked_at) {
        return refuse(Status::Gone, "approval request has expired");
    }
    Reply::Resolved(
        new_denial(approval_id, &pending, operator_of(user), &reason, resolved_at),
    )
}

// ---------------------------------------------------------------------------
// Laws
// ---------------------------------------------------------------------------

/// A request is decided once: after an approval, no second approval and no denial of it comes
/// through, whoever sends it and whenever; both are told that the request is gone.
pub proof fn an_approved_request_is_settled(
    map: PendingMap,
    id: Seq<char>,
    verdict: Option<Seq<char>>,
    operator: Seq<char>,
    enforced: bool,
    checked_at: Instant,
    resolved_at: Instant,
    again: Option<Seq<char>>,
    other: Seq<char>,
    reason: Seq<char>,
    later: Instant,
)
    requires
        approved(map, id, verdict, operator, enforced, checked_at, resolved_at).1 is Resolved,
    ensures
        ({
            let after = approved(
                map,
                id,
                verdict,
                operator,
                enforced,
                checked_at,
                resolved_at,
            ).0;
            &&& approved(after, id, again, other, enforced, later, later) == (after, not_found())
            &&& denied(after, id, other, reason, later, later) == (after, not_found())
        }),
{
}

/// A request is decided once: after a denial, no approval and no second denial of it comes through.
pub proof fn a_denied_request_is_settled(
    map: PendingMap,
    id: Seq<char>,
    operator: Seq<char>,
    reason: Seq<char>,
    checked_at: Instant,
    resolved_at: Instant,
    verdict: Option<Seq<char>>,
    other: Seq<char>,
    enforced: bool,
    later: Instant,
)
    requires
        denied(map, id, operator, reason, checked_at, resolved_at).1 is Resolved,
    ensures
        ({
            let after = denied(map, id, operator, reason, checked_at, resolved_at).0;
            &&& approved(after, id, verdict, other, enforced, later, later) == (
                after,
                not_found(),
            )
            &&& denied(after, id, other, reason, later, later) == (after, not_found())
        }),
{
}

/// Of two approvals that run at the same time, both past the check of their codes, only the first
/// comes through; the second is told that it was overtaken, and changes nothing.
pub proof fn of_two_concurrent_approvals_one_comes_through(
    map: PendingMap,
    id: Seq<char>,
    pending: PendingView,
    first: Seq<char>,
    second: Seq<char>,
    enforced: bool,
    now: Instant,
    later: Instant,
)
    requires
        finished(map, id, pending, None, first, enforced, now).1 is Resolved,
    ensures
        ({
            let after = finished(map, id, pending, None, first, enforced, now).0;
            finished(after, id, pending, None, second, enforced, later) == (after, overtaken())
        }),
{
}

/// A denial that overtakes an approval past the check of its code settles the request: the approval
/// is told that it was overtaken.
pub proof fn a_denial_overtakes_an_approval(
    map: PendingMap,
    id: Seq<char>,
    operator: Seq<char>,
    reason: Seq<char>,
    now: Instant,
    pending: PendingView,
    approver: Seq<char>,
    enforced: bool,
    later: Instant,
)
    requires
        denied(map, id, operator, reason, now, now).1 is Resolved,
    ensures
        ({
            let after = denied(map, id, operator, reason, now, now).0;
            finished(after, id, pending, None, approver, enforced, later) == (after, overtaken())
        }),
{
}

/// A refused one-time code costs nothing: the request stays as it is, and an approval with a good
/// code that follows before the deadline comes through.
pub proof fn a_refused_code_discards_nothing(
    map: PendingMap,
    id: Seq<char>,
    error: Seq<char>,
    operator: Seq<char>,
    enforced: bool,
    checked_at: Instant,
    resolved_at: Instant,
    later: Instant,
)
    requires
        valid_id(id),
        map.contains_key(id),
        !map[id].expires_at.before(checked_at),
        !map[id].expires_at.before(later),
    ensures
        approved(map, id, Some(error), operator, enforced, checked_at, resolved_at) == (
            map,
            ReplyView::Refused { status: Status::Unauthorized, error },
        ),
        approved(map, id, None, operator, enforced, later, later).1 == ReplyView::Resolved(
            approval(id, map[id], operator, enforced, later),
        ),
{
}

/// Decisions on one request leave all others as they are.
pub proof fn other_requests_are_untouched(
    map: PendingMap,
    id: Seq<char>,
    verdict: Option<Seq<char>>,
    operator: Seq<char>,
    reason: Seq<char>,
    enforced: bool,
    checked_at: Instant,
    resolved_at: Instant,
    other: Seq<char>,
)
    requires
        other != id,
    ensures
        ({
            let after = approved(
                map,
                id,
                verdict,
                operator,
                enforced,
                checked_at,
                resolved_at,
            ).0;
            &&& after.contains_key(other) <==> map.contains_key(other)
            &&& map.contains_key(other) ==> after[other] == map[other]
        }),
        ({
            let after = denied(map, id, operator, reason, checked_at, resolved_at).0;
            &&& after.contains_key(other) <==> map.contains_key(other)
            &&& map.contains_key(other) ==> after[other] == map[other]
        }),
{
}

/// What the list shows can be acted on: a request that is listed at some moment under a valid id
/// can be approved with a good code, and denied, at that moment.
pub proof fn listed_requests_can_be_decided(
    map: PendingMap,
    now: Instant,
    items: Seq<ItemView>,
    i: int,
    operator: Seq<char>,
    reason: Seq<char>,
    enforced: bool,
)
    requires
        lists(map, now, items),
        0 <= i < items.len(),
        valid_id(items[i].approval_id),
    ensures
        ({
            let id = items[i].approval_id;
            &&& approved(map, id, None, operator, enforced, now, now).1 == ReplyView::Resolved(
                approval(id, map[id], operator, enforced, now),
            )
            &&& denied(map, id, operator, reason, now, now).1 == ReplyView::Resolved(
                denial(id, map[id], operator, reason, now),
            )
        }),
{
    assert(live(map, now, items[i].approval_id));
}

/// A decided request is listed no more.
pub proof fn decided_requests_are_not_listed(
    map: PendingMap,
    id: Seq<char>,
    operator: Seq<char>,
    reason: Seq<char>,
    enforced: bool,
    checked_at: Instant,
    resolved_at: Instant,
    later: Instant,
    items: Seq<ItemView>,
)
    ensures
        ({
            let (after, reply) = approved(
                map,
                id,
                None,
                operator,
                enforced,
                checked_at,
                resolved_at,
            );
            reply is Resolved && lists(after, later, items) ==> !shows(items, id)
        }),
        ({
            let (after, reply) = denied(map, id, operator, reason, checked_at, resolved_at);
            reply is Resolved && lists(after, later, items) ==> !shows(items, id)
        }),
{
    let after = approved(map, id, None, operator, enforced, checked_at, resolved_at).0;
    if lists(after, later, items) && shows(items, id) {
        let i = choose|i: int| 0 <= i < items.len() && (#[trigger] items[i]).approval_id == id;
        assert(live(after, later, items[i].approval_id));
    }
    let after = denied(map, id, operator, reason, checked_at, resolved_at).0;
    if lists(after, later, items) && shows(items, id) {
        let i = choose|i: int| 0 <= i < items.len() && (#[trigger] items[i]).approval_id == id;
        assert(live(after, later, items[i].approval_id));
    }
}

/// A request whose deadline has passed can be neither approved nor denied, and the attempt removes
/// it.
pub proof fn expired_requests_are_refused_and_removed(
    map: PendingMap,
    id: Seq<char>,
    verdict: Option<Seq<char>>,
    operator: Seq<char>,
    reason: Seq<char>,
    enforced: bool,
    now: Instant,
)
    requires
        valid_id(id),
        map.contains_key(id),
        map[id].expires_at.before(now),
    ensures
        approved(map, id, verdict, operator, enforced, now, now) == (map.remove(id), expired()),
        denied(map, id, operator, reason, now, now) == (map.remove(id), expired()),
{
}

/// The agent is told of an approval only by an approval whose code was verified, and of a denial
/// only by a denial.
pub proof fn the_agent_is_told_the_truth(
    map: PendingMap,
    id: Seq<char>,
    verdict: Option<Seq<char>>,
    operator: Seq<char>,
    reason: Seq<char>,
    enforced: bool,
    checked_at: Instant,
    resolved_at: Instant,
)
    ensures
        approved(map, id, verdict, operator, enforced, checked_at, resolved_at).1 matches
            ReplyView::Resolved(r) ==> {
            &&& verdict is None
            &&& r.outcome.approved
            &&& r.outcome.totp_verified
            &&& r.outcome.incident_id == map[id].incident_id
            &&& r.audit.operator == r.outcome.operator
            &&& r.audit.target == id
        },
        denied(map, id, operator, reason, checked_at, resolved_at).1 matches ReplyView::Resolved(
            r,
        ) ==> {
            &&& !r.outcome.approved
            &&& !r.outcome.totp_verified
            &&& r.outcome.incident_id == map[id].incident_id
            &&& r.audit.operator == r.outcome.operator
            &&& r.audit.target == id
        },
{
}

/// A request that is not there cannot be decided by any step, whoever takes it and whenever:
/// looking it up and denying it are told that it is gone, and an approval past the check of its
/// code is told that it was overtaken. Nothing changes.
pub proof fn an_absent_request_cannot_be_decided(
    map: PendingMap,
    id: Seq<char>,
    pending: PendingView,
    operator: Seq<char>,
    reason: Seq<char>,
    enforced: bool,
    checked_at: Instant,
    resolved_at: Instant,
)
    requires
        valid_id(id),
        !map.contains_key(id),
    ensures
        begun(map, id, checked_at) == (map, StepView::Reply(not_found())),
        denied(map, id, operator, reason, checked_at, resolved_at) == (map, not_found()),
        finished(map, id, pending, None, operator, enforced, resolved_at) == (map, overtaken()),
{
}

/// One step of an operator on a request. Steps of several operators may follow each other in any
/// order.
pub enum Step {
    /// The first step of an approval.
    Begin { id: Seq<char>, now: Instant },
    /// The second step of an approval, after the verdict on the code.
    Finish {
        id: Seq<char>,
        pending: PendingView,
        verdict: Option<Seq<char>>,
        operator: Seq<char>,
        enforced: bool,
        now: Instant,
    },
    /// A denial.
    Deny {
        id: Seq<char>,
        operator: Seq<char>,
        reason: Seq<char>,
        checked_at: Instant,
        resolved_at: Instant,
    },
}

impl Step {
    /// The request that the step is about.
    pub open spec fn id(self) -> Seq<char> {
        match self {
            Step::Begin { id, .. } => id,
            Step::Finish { id, .. } => id,
            Step::Deny { id, .. } => id,
        }
    }

    /// The map after the step, and the reply where there is one.
    pub open spec fn taken(self, map: PendingMap) -> (PendingMap, Option<ReplyView>) {
        match self {
            Step::Begin { id, now } => match begun(map, id, now) {
                (after, StepView::Reply(reply)) => (after, Some(reply)),
                (after, StepView::VerifyTotp(_)) => (after, None),
            },
            Step::Finish { id, pending, verdict, operator, enforced, now } => {
                let (after, reply) = finished(
                    map,
                    id,
                    pending,
                    verdict,
                    operator,
                    enforced,
                    now,
                );
                (after, Some(reply))
            },
            Step::Deny { id, operator, reason, checked_at, resolved_at } => {
                let (after, reply) = denied(map, id, operator, reason, checked_at, resolved_at);
                (after, Some(reply))
            },
        }
    }

    /// The step decides its request.
    pub open spec fn decides(self, map: PendingMap) -> bool {
        self.taken(map).1 matches Some(reply) && reply is Resolved
    }
}

/// The map after the steps.
pub open spec fn after_steps(map: PendingMap, steps: Seq<Step>) -> PendingMap
    decreases steps.len(),
{
    if steps.len() == 0 {
        map
    } else {
        steps.last().taken(after_steps(map, steps.drop_last())).0
    }
}

/// No step adds a request or changes one: whatever is there after it was there before.
pub proof fn no_step_adds_a_request(map: PendingMap, step: Step, id: Seq<char>)
    requires
        step.taken(map).0.contains_key(id),
    ensures
        map.contains_key(id),
        step.taken(map).0[id] == map[id],
{
}

/// No sequence of steps adds a request or changes one.
pub proof fn no_steps_add_a_request(map: PendingMap, steps: Seq<Step>, id: Seq<char>)
    requires
        after_steps(map, steps).contains_key(id),
    ensures
        map.contains_key(id),
        after_steps(map, steps)[id] == map[id],
    decreases steps.len(),
{
    if steps.len() > 0 {
        let before = after_steps(map, steps.drop_last());
        no_step_adds_a_request(before, steps.last(), id);
        no_steps_add_a_request(map, steps.drop_last(), id);
    }
}

/// Taking steps one after another.
proof fn steps_follow_each_other(map: PendingMap, first: Seq<Step>, second: Seq<Step>)
    ensures
        after_steps(map, first + second) == after_steps(after_steps(map, first), second),
    decreases second.len(),
{
    if second.len() == 0 {
        assert(first + second =~= first);
    } else {
        steps_follow_each_other(map, first, second.drop_last());
        assert((first + second).drop_last() =~= first + second.drop_last());
    }
}

/// A request is decided once: of all the steps that any operators take, in any order and with any
/// verdicts on their codes, at most one decides a request.
pub proof fn a_request_is_decided_once(map: PendingMap, steps: Seq<Step>, i: int, j: int)
    requires
        0 <= i < j < steps.len(),
        steps[i].decides(after_steps(map, steps.take(i))),
        steps[j].decides(after_steps(map, steps.take(j))),
    ensures
        steps[i].id() != steps[j].id(),
{
    let id = steps[i].id();
    let decided = after_steps(map, steps.take(i + 1));
    assert(steps.take(i + 1).drop_last() =~= steps.take(i));
    assert(!decided.contains_key(id));
    let between = steps.subrange(i + 1, j);
    assert(steps.take(j) =~= steps.take(i + 1) + between);
    steps_follow_each_other(map, steps.take(i + 1), between);
    if after_steps(decided, between).contains_key(id) {
        no_steps_add_a_request(decided, between, id);
    }
}

} // verus!
