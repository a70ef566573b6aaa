//! Detectors of reconnaissance: contacts with listed addresses, bursts of discovery, protocol
//! anomalies, port scans, credential stuffing, scanner user agents.

use crate::alert::{
    admitted, alert_views, cooldowns_last, cooling, flat_keys_among, flat_map_holds, flat_singles,
    incidents_are_those_of_the_alerts, incidents_of, keys_among, keys_of, no_key_again,
    no_key_fires_again_within_its_cooldown, proposal_views, proposed_alerts_fire,
    repetition_is_silent, single_alternatives, single_keys_among, singles_have_one_key,
    suppressed_of, Alert, AlertView, Fired, GraphDetectorState,
};
use crate::calibration::{class_label, user_class_label, CalibrationContext, UserClass};
use crate::graph::{
    distinct, distinct_keeps_each_node_once, distinct_nodes, edges_age, edges_leave_their_source,
    fewer_edges_have_fewer_ends, hit_views, in_window, leaves, narrower,
    narrower_filters_keep_fewer, narrower_filters_keep_some, nodes_are_listed, pick_windowed,
    reaches, sources, targets, windowed, windows_move_on, Edge, KnowledgeGraph, Node, NodeId,
    NodeKind, NodeType, Relation, ThreatHit, ThreatHitView,
};
use crate::incident::{
    incident_views, EntityKind, EntityRef, EntityView, Incident, IncidentView, Severity,
};
use crate::recon_laws::{
    discovery_reports_have_a_cause, port_scan_reports_have_a_cause, proto_reports_have_a_cause,
    scanner_reports_have_a_cause, stuffing_reports_have_a_cause, threat_intel_reports_have_a_cause,
};
use crate::record::{count_field, list_field, text_field, Field};
use crate::text::{
    cat2, cat3, cat4, cat5, cat7, contains, decimal, find_part, first_part, has_part, join, joined,
    lower_text, lowercase, number, signed_decimal, signed_number, str_texts, texts,
};
use crate::time::{Instant, Timestamp};
use vstd::prelude::*;

verus! {

broadcast use vstd::seq_lib::group_seq_properties;

// ---------------------------------------------------------------------------
// Contacts with listed addresses
// ---------------------------------------------------------------------------

/// Seconds between two reports of one address in one dataset.
pub const THREAT_INTEL_COOLDOWN: i64 = 300;

/// The alert on a connection of a process to an address that a dataset lists.
pub open spec fn threat_intel_alert(
    host: Seq<char>,
    now: Instant,
    ip: NodeId,
    label: Seq<char>,
    addr: Seq<char>,
    dataset: Seq<char>,
) -> AlertView {
    AlertView {
        key: "graph_ti:"@ + decimal(ip as nat) + ":"@ + dataset,
        incident: IncidentView {
            ts: now,
            host,
            incident_id: "graph_threat_intel:"@ + addr + ":"@ + signed_decimal(now.secs),
            severity: Severity::High,
            title: "Threat intel match: "@ + label + " → "@ + addr + " ("@ + dataset + ")"@,
            summary: "Process "@ + label + " connected to IP "@ + addr
                + " which is in threat dataset '"@ + dataset + "'."@,
            evidence: seq![
                text_field("source", "knowledge_graph"@),
                text_field("detector", "graph_threat_intel"@),
                text_field("process", label),
                text_field("ip", addr),
                text_field("dataset", dataset),
            ],
            recommended_checks: seq![
                "Check process "@ + label,
                "Investigate IP "@ + addr + " in threat feeds"@,
            ],
            tags: seq!["T1071"@],
            entities: seq![EntityView { kind: EntityKind::Ip, value: addr }],
        },
    }
}

/// The alert on a connection of a process to an address that a dataset lists.
fn new_threat_intel_alert(
    host: &str,
    now: &Timestamp,
    ip: NodeId,
    label: &str,
    addr: &str,
    dataset: &str,
) -> (alert: Alert)
    ensures
        alert@ == threat_intel_alert(host@, now@, ip, label@, addr@, dataset@),
{
    let secs = signed_number(now.timestamp());
    let alert = Alert {
        key: cat4("graph_ti:", &number(ip), ":", dataset),
        incident: Incident {
            ts: *now,
            host: host.to_owned(),
            incident_id: cat4("graph_threat_intel:", addr, ":", &secs),
            severity: Severity::High,
            title: cat7("Threat intel match: ", label, " → ", addr, " (", dataset, ")"),
            summary: cat7(
                "Process ",
                label,
                " connected to IP ",
                addr,
                " which is in threat dataset '",
                dataset,
                "'.",
            ),
            evidence: vec![
                Field::text("source", "knowledge_graph"),
                Field::text("detector", "graph_threat_intel"),
                Field::text("process", label),
                Field::text("ip", addr),
                Field::text("dataset", dataset),
            ],
            recommended_checks: vec![
                cat2("Check process ", label),
                cat3("Investigate IP ", addr, " in threat feeds"),
            ],
            tags: vec!["T1071".to_owned()],
            entities: vec![EntityRef::ip(addr)],
        },
    };
    assert(alert@ =~~= threat_intel_alert(host@, now@, ip, label@, addr@, dataset@));
    alert
}

/// The label of the node `id`; nothing where there is no such node.
pub open spec fn label_of(graph: KnowledgeGraph, id: NodeId) -> Seq<char> {
    match graph.node(id) {
        Some(node) => node.label@,
        None => ""@,
    }
}

/// What is proposed of a hit: one alert.
pub open spec fn threat_intel_of_hit(
    graph: KnowledgeGraph,
    host: Seq<char>,
    now: Instant,
) -> spec_fn(ThreatHitView) -> Seq<Seq<AlertView>> {
    |hit: ThreatHitView|
        match graph.node(hit.ip) {
            Some(Node { kind: NodeKind::Ip { addr, .. }, .. }) => seq![
                seq![
                    threat_intel_alert(
                        host,
                        now,
                        hit.ip,
                        label_of(graph, hit.process),
                        addr@,
                        hit.dataset,
                    ),
                ],
            ],
            _ => Seq::empty(),
        }
}

/// What [`detect_threat_intel`] proposes.
pub open spec fn threat_intel_proposals(
    graph: KnowledgeGraph,
    host: Seq<char>,
    now: Instant,
) -> Seq<Seq<AlertView>> {
    graph.hits().flat_map(threat_intel_of_hit(graph, host, now))
}

/// What is proposed of a hit.
fn propose_threat_intel(
    graph: &KnowledgeGraph,
    host: &str,
    now: &Timestamp,
    hit: &ThreatHit,
) -> (proposals: Vec<Vec<Alert>>)
    ensures
        proposal_views(proposals@) == threat_intel_of_hit(*graph, host@, now@)(hit@),
{
    let mut proposals: Vec<Vec<Alert>> = Vec::new();
    let label: &str = match graph.get_node(hit.process) {
        Some(node) => node.label.as_str(),
        None => "",
    };
    match graph.get_node(hit.ip) {
        Some(Node { kind: NodeKind::Ip { addr, .. }, .. }) => {
            let alert = new_threat_intel_alert(host, now, hit.ip, label, addr, &hit.dataset);
            proposals.push(vec![alert]);
        },
        _ => {},
    }
    assert(proposal_views(proposals@) =~~= threat_intel_of_hit(*graph, host@, now@)(hit@));
    proposals
}

/// What a run of [`detect_threat_intel`] lets fire, and when each key fired last after it.
pub open spec fn threat_intel_run(
    fired: Fired,
    graph: KnowledgeGraph,
    host: Seq<char>,
    now: Instant,
) -> (Fired, Seq<AlertView>) {
    admitted(fired, threat_intel_proposals(graph, host, now), now, THREAT_INTEL_COOLDOWN as int)
}

/// Reports connections of processes to addresses that a threat dataset lists.
pub fn detect_threat_intel(
    graph: &KnowledgeGraph,
    state: &mut GraphDetectorState,
    host: &str,
    now: &Timestamp,
) -> (incidents: Vec<Incident>)
    ensures
        (final(state).fired(), incident_views(incidents@)) == ({
            let (fired, alerts) = threat_intel_run(old(state).fired(), *graph, host@, now@);
            (fired, incidents_of(alerts))
        }),
        final(state).suppressed() == old(state).suppressed(),
        forall|i: int|
            0 <= i < incidents@.len() ==> (#[trigger] incidents@[i]).host@ == host@ && incidents@[i].ts@
                == now@ && incidents@[i].severity == Severity::High,
{
    let hits = graph.threat_intel_hits();
    let ghost all = graph.hits();
    let ghost rule = threat_intel_of_hit(*graph, host@, now@);
    let mut proposals: Vec<Vec<Alert>> = Vec::new();
    assert(proposal_views(proposals@) =~= all.take(0).flat_map(rule));
    for i in 0..hits.len()
        invariant
            all == hit_views(hits@),
            rule == threat_intel_of_hit(*graph, host@, now@),
            proposal_views(proposals@) == all.take(i as int).flat_map(rule),
    {
        proof {
            all.lemma_flat_map_take_append(rule, i as int);
        }
        let ghost before = proposals@;
        let mut more = propose_threat_intel(graph, host, now, &hits[i]);
        let ghost new = more@;
        proposals.append(&mut more);
        assert(proposal_views(proposals@) =~= proposal_views(before) + proposal_views(new));
    }
    assert(all.take(all.len() as int) =~= all);
    let incidents = state.raise(proposals, now, THREAT_INTEL_COOLDOWN);
    proof {
        let alerts = threat_intel_run(old(state).fired(), *graph, host@, now@).1;
        incidents_are_those_of_the_alerts(incidents@, alerts);
        assert forall|i: int| 0 <= i < incidents@.len() implies (
        #[trigger] incidents@[i]).host@ == host@ && incidents@[i].ts@ == now@
            && incidents@[i].severity == Severity::High by {
            let _ = threat_intel_reports_have_a_cause(*graph, host@, now@, old(state).fired(), i);
        }
    }
    incidents
}

// ---------------------------------------------------------------------------
// Bursts of discovery
// ---------------------------------------------------------------------------

/// Seconds in which actions are counted.
pub const DISCOVERY_WINDOW: i64 = 60;

/// Actions from which on an unknown user is reported.
pub const DISCOVERY_THRESHOLD: usize = 5;

/// Seconds between two reports of one user.
pub const DISCOVERY_COOLDOWN: i64 = 1800;

/// The actions from which on a user is reported, by class: operators explore their hosts, and
/// services start many processes in their routine work.
pub open spec fn discovery_limit(class: UserClass) -> nat {
    match class {
        UserClass::Root | UserClass::Human => DISCOVERY_THRESHOLD as nat * 3,
        UserClass::Service => DISCOVERY_THRESHOLD as nat * 5,
        UserClass::Unknown => DISCOVERY_THRESHOLD as nat,
    }
}

/// How grave a burst of `total` actions of a user is. That of a service is never graver than
/// medium.
pub open spec fn discovery_severity(class: UserClass, total: nat) -> Severity {
    if class != UserClass::Service && total >= discovery_limit(class) * 2 {
        Severity::High
    } else {
        Severity::Medium
    }
}

/// The edges of one relation that are of `cutoff` or later.
pub open spec fn since_cutoff(relation: Relation, cutoff: Instant) -> spec_fn(Edge) -> bool {
    |e: Edge| e.relation == relation && !e.ts@.before(cutoff)
}

/// The processes that ran as the user at the node `id`, one for each time they did.
pub open spec fn run_as(graph: KnowledgeGraph, cutoff: Instant, id: NodeId) -> Seq<NodeId> {
    sources(graph.incoming(id).filter(since_cutoff(Relation::RunAs, cutoff)))
}

/// A read of a sensitive file at `cutoff` or later.
pub open spec fn sensitive_read(graph: KnowledgeGraph, cutoff: Instant) -> spec_fn(Edge) -> bool {
    |e: Edge|
        e.relation == Relation::Read && !e.ts@.before(cutoff) && (graph.node(e.to) matches Some(
            Node { kind: NodeKind::File { is_sensitive: true, .. }, .. },
        ))
}

/// The reads of sensitive files by the process at the node `id`.
pub open spec fn reads_of(
    graph: KnowledgeGraph,
    cutoff: Instant,
) -> spec_fn(NodeId) -> Seq<Edge> {
    |id: NodeId| graph.outgoing(id).filter(sensitive_read(graph, cutoff))
}

/// How many processes ran as the user at the node `id`.
pub open spec fn discovery_runs(graph: KnowledgeGraph, cutoff: Instant, id: NodeId) -> nat {
    run_as(graph, cutoff, id).len()
}

/// How often these processes read a sensitive file. A process that ran as the user more than once
/// counts as often.
pub open spec fn discovery_reads(graph: KnowledgeGraph, cutoff: Instant, id: NodeId) -> nat {
    run_as(graph, cutoff, id).flat_map(reads_of(graph, cutoff)).len()
}

/// The actions of the user at the node `id`.
pub open spec fn discovery_actions(graph: KnowledgeGraph, cutoff: Instant, id: NodeId) -> nat {
    discovery_runs(graph, cutoff, id) + discovery_reads(graph, cutoff, id)
}

/// The actions of every user can be counted in a machine word.
pub open spec fn actions_countable(graph: KnowledgeGraph, cutoff: Instant) -> bool {
    forall|id: NodeId|
        graph.is_of_type(NodeType::User)(id) ==> #[trigger] discovery_actions(graph, cutoff, id)
            <= usize::MAX
}

/// The alert on the actions of a user.
pub open spec fn discovery_alert(
    host: Seq<char>,
    now: Instant,
    name: Seq<char>,
    class: UserClass,
    runs: nat,
    reads: nat,
) -> AlertView {
    AlertView {
        key: "graph_discovery:"@ + name,
        incident: IncidentView {
            ts: now,
            host,
            incident_id: "graph_discovery_burst:"@ + name + ":"@ + signed_decimal(now.secs),
            severity: discovery_severity(class, runs + reads),
            title: "Discovery burst: user "@ + name + " ("@ + decimal(runs + reads)
                + " actions in 60s)"@,
            summary: "User "@ + name + " performed "@ + decimal(runs) + " process executions and "@
                + decimal(reads) + " sensitive file reads in 60 seconds"@,
            evidence: seq![
                text_field("source", "knowledge_graph"@),
                text_field("detector", "graph_discovery_burst"@),
                text_field("user", name),
                text_field("user_class", class_label(class)),
                count_field("exec_count", runs),
                count_field("sensitive_reads", reads),
            ],
            recommended_checks: seq!["Check for reconnaissance activity"@],
            tags: seq!["T1087"@],
            entities: seq![EntityView { kind: EntityKind::User, value: name }],
        },
    }
}

/// The limit of a class of users.
fn limit_of(class: UserClass) -> (limit: usize)
    ensures
        limit == discovery_limit(class),
{
    match class {
        UserClass::Root | UserClass::Human => DISCOVERY_THRESHOLD * 3,
        UserClass::Service => DISCOVERY_THRESHOLD * 5,
        UserClass::Unknown => DISCOVERY_THRESHOLD,
    }
}

/// The alert on the actions of a user.
fn new_discovery_alert(
    host: &str,
    now: &Timestamp,
    name: &str,
    class: UserClass,
    runs: usize,
    reads: usize,
) -> (alert: Alert)
    requires
        runs + reads <= usize::MAX,
    ensures
        alert@ == discovery_alert(host@, now@, name@, class, runs as nat, reads as nat),
{
    let total: usize = runs + reads;
    let secs = signed_number(now.timestamp());
    let severity = if class == UserClass::Service {
        Severity::Medium
    } else if total >= limit_of(class) * 2 {
        Severity::High
    } else {
        Severity::Medium
    };
    let alert = Alert {
        key: cat2("graph_discovery:", name),
        incident: Incident {
            ts: *now,
            host: host.to_owned(),
            incident_id: cat4("graph_discovery_burst:", name, ":", &secs),
            severity,
            title: cat5(
                "Discovery burst: user ",
                name,
                " (",
                &number(total as u64),
                " actions in 60s)",
            ),
            summary: cat7(
                "User ",
                name,
                " performed ",
                &number(runs as u64),
                " process executions and ",
                &number(reads as u64),
                " sensitive file reads in 60 seconds",
            ),
            evidence: vec![
                Field::text("source", "knowledge_graph"),
                Field::text("detector", "graph_discovery_burst"),
                Field::text("user", name),
                Field::text("user_class", user_class_label(class)),
                Field::count("exec_count", runs),
                Field::count("sensitive_reads", reads),
            ],
            recommended_checks: vec!["Check for reconnaissance activity".to_owned()],
            tags: vec!["T1087".to_owned()],
            entities: vec![EntityRef::user(name)],
        },
    };
    assert(alert@ =~~= discovery_alert(host@, now@, name@, class, runs as nat, reads as nat));
    alert
}

/// What is proposed of a node: one alert where it is a user whose actions reach the limit of its
/// class.
pub open spec fn discovery_of_node(
    graph: KnowledgeGraph,
    host: Seq<char>,
    now: Instant,
    cutoff: Instant,
    ctx: CalibrationContext,
) -> spec_fn(NodeId) -> Seq<Seq<AlertView>> {
    |id: NodeId|
        match graph.node(id) {
            Some(Node { kind: NodeKind::User { name }, .. }) if discovery_actions(graph, cutoff, id)
                >= discovery_limit(ctx.class_of(name@)) => seq![
                seq![
                    discovery_alert(
                        host,
                        now,
                        name@,
                        ctx.class_of(name@),
                        discovery_runs(graph, cutoff, id),
                        discovery_reads(graph, cutoff, id),
                    ),
                ],
            ],
            _ => Seq::empty(),
        }
}

/// What [`detect_discovery_burst_calibrated`] proposes.
pub open spec fn discovery_proposals(
    graph: KnowledgeGraph,
    host: Seq<char>,
    now: Instant,
    ctx: CalibrationContext,
) -> Seq<Seq<AlertView>> {
    let cutoff = now.moved(-DISCOVERY_WINDOW as int);
    graph.ids_of(NodeType::User).flat_map(discovery_of_node(graph, host, now, cutoff, ctx))
}

/// The class of a user whose actions reach the limit of unknown users, but not that of its class.
pub open spec fn suppressed_class_of_node(
    graph: KnowledgeGraph,
    cutoff: Instant,
    ctx: CalibrationContext,
) -> spec_fn(NodeId) -> Seq<UserClass> {
    |id: NodeId|
        match graph.node(id) {
            Some(Node { kind: NodeKind::User { name }, .. }) if DISCOVERY_THRESHOLD
                <= discovery_actions(graph, cutoff, id) < discovery_limit(
                ctx.class_of(name@),
            ) => seq![ctx.class_of(name@)],
            _ => Seq::empty(),
        }
}

/// The classes of the users that are not reported because of their class, one for each such user.
pub open spec fn discovery_suppressions(
    graph: KnowledgeGraph,
    now: Instant,
    ctx: CalibrationContext,
) -> Seq<UserClass> {
    let cutoff = now.moved(-DISCOVERY_WINDOW as int);
    graph.ids_of(NodeType::User).flat_map(suppressed_class_of_node(graph, cutoff, ctx))
}

/// How often a class stands in a list.
pub open spec fn times(classes: Seq<UserClass>, class: UserClass) -> nat
    decreases classes.len(),
{
    if classes.len() == 0 {
        0
    } else {
        times(classes.drop_last(), class) + if classes.last() == class {
            1nat
        } else {
            0nat
        }
    }
}

/// How often a class stands in two lists is the sum of how often it stands in each.
proof fn times_adds_up(a: Seq<UserClass>, b: Seq<UserClass>, class: UserClass)
    ensures
        times(a + b, class) == times(a, class) + times(b, class),
    decreases b.len(),
{
    if b.len() == 0 {
        assert(a + b =~= a);
    } else {
        times_adds_up(a, b.drop_last(), class);
        assert((a + b).drop_last() =~= a + b.drop_last());
    }
}

/// What a rule makes of the first items of a list is no longer than what it makes of the list.
proof fn flat_prefix_is_shorter<A, B>(items: Seq<A>, rule: spec_fn(A) -> Seq<B>, n: int)
    requires
        0 <= n <= items.len(),
    ensures
        items.take(n).flat_map(rule).len() <= items.flat_map(rule).len(),
    decreases items.len() - n,
{
    if n < items.len() {
        flat_prefix_is_shorter(items, rule, n + 1);
        items.lemma_flat_map_take_append(rule, n);
    } else {
        assert(items.take(n) =~= items);
    }
}

/// The edges of one relation among `edges` that are of `cutoff` or later.
fn pick_since<'a>(
    edges: &Vec<&'a Edge>,
    relation: Relation,
    cutoff: &Timestamp,
) -> (picked: Vec<&'a Edge>)
    ensures
        picked@.unref() == edges@.unref().filter(since_cutoff(relation, cutoff@)),
{
    let mut picked: Vec<&'a Edge> = Vec::new();
    let ghost all = edges@.unref();
    let ghost wanted = since_cutoff(relation, cutoff@);
    assert(picked@.unref() =~= all.take(0).filter(wanted)) by {
        reveal(Seq::filter);
    }
    for i in 0..edges.len()
        invariant
            all == edges@.unref(),
            wanted == since_cutoff(relation, cutoff@),
            picked@.unref() == all.take(i as int).filter(wanted),
    {
        proof {
            all.lemma_take_succ_push(i as int);
            all.take(i as int).lemma_filter_push(all[i as int], wanted);
        }
        let edge: &'a Edge = edges[i];
        let ghost before = picked@;
        if edge.relation == relation && !edge.ts.is_before(cutoff) {
            picked.push(edge);
            assert(picked@.unref() =~= before.unref().push(all[i as int]));
        }
    }
    assert(all.take(all.len() as int) =~= all);
    picked
}

/// How often the process at the node `id` read a sensitive file at `cutoff` or later.
fn count_reads(graph: &KnowledgeGraph, cutoff: &Timestamp, id: NodeId) -> (count: usize)
    ensures
        count == reads_of(*graph, cutoff@)(id).len(),
{
    let edges = graph.outgoing_edges(id);
    let mut count: usize = 0;
    let ghost all = edges@.unref();
    let ghost wanted = sensitive_read(*graph, cutoff@);
    assert(all.take(0).filter(wanted) =~= Seq::empty()) by {
        reveal(Seq::filter);
    }
    for i in 0..edges.len()
        invariant
            all == edges@.unref(),
            wanted == sensitive_read(*graph, cutoff@),
            count == all.take(i as int).filter(wanted).len(),
            count <= i,
    {
        proof {
            all.lemma_take_succ_push(i as int);
            all.take(i as int).lemma_filter_push(all[i as int], wanted);
        }
        let edge = edges[i];
        if edge.relation == Relation::Read && !edge.ts.is_before(cutoff) {
            match graph.get_node(edge.to) {
                Some(Node { kind: NodeKind::File { is_sensitive, .. }, .. }) => {
                    if *is_sensitive {
                        count = count + 1;
                    }
                },
                _ => {},
            }
        }
    }
    assert(all.take(all.len() as int) =~= all);
    count
}

/// How many processes ran as the user at the node `id`, and how often they read a sensitive file.
fn count_actions(graph: &KnowledgeGraph, cutoff: &Timestamp, id: NodeId) -> (counts: (usize, usize))
    requires
        discovery_actions(*graph, cutoff@, id) <= usize::MAX,
    ensures
        counts.0 == discovery_runs(*graph, cutoff@, id),
        counts.1 == discovery_reads(*graph, cutoff@, id),
{
    let edges = graph.incoming_edges(id);
    let processes = source_ids(&pick_since(&edges, Relation::RunAs, cutoff));
    let ghost all = run_as(*graph, cutoff@, id);
    let ghost rule = reads_of(*graph, cutoff@);
    let mut reads: usize = 0;
    assert(all.take(0).flat_map(rule) =~= Seq::empty());
    for i in 0..processes.len()
        invariant
            all == processes@,
            rule == reads_of(*graph, cutoff@),
            all.flat_map(rule).len() <= usize::MAX,
            reads == all.take(i as int).flat_map(rule).len(),
    {
        proof {
            all.lemma_flat_map_take_append(rule, i as int);
            flat_prefix_is_shorter(all, rule, i + 1);
        }
        reads = reads + count_reads(graph, cutoff, processes[i]);
    }
    assert(all.take(all.len() as int) =~= all);
    (processes.len(), reads)
}

/// What a run of [`detect_discovery_burst_calibrated`] lets fire, and when each key fired last
/// after it.
pub open spec fn discovery_run(
    fired: Fired,
    graph: KnowledgeGraph,
    host: Seq<char>,
    now: Instant,
    ctx: CalibrationContext,
) -> (Fired, Seq<AlertView>) {
    admitted(fired, discovery_proposals(graph, host, now, ctx), now, DISCOVERY_COOLDOWN as int)
}

/// Reports users with many process starts and reads of sensitive files in one minute. The limit
/// depends on what is known of the user; users that stay below it only because of their class are
/// counted in `state`.
pub fn detect_discovery_burst_calibrated(
    graph: &KnowledgeGraph,
    state: &mut GraphDetectorState,
    host: &str,
    now: &Timestamp,
    ctx: &CalibrationContext,
) -> (incidents: Vec<Incident>)
    requires
        now@.can_move(-DISCOVERY_WINDOW as int),
        actions_countable(*graph, now@.moved(-DISCOVERY_WINDOW as int)),
        forall|class: UserClass|
            #[trigger] suppressed_of(old(state).suppressed(), "discovery_burst"@, class) + times(
                discovery_suppressions(*graph, now@, *ctx),
                class,
            ) <= u64::MAX,
    ensures
        (final(state).fired(), incident_views(incidents@)) == ({
            let (fired, alerts) = discovery_run(old(state).fired(), *graph, host@, now@, *ctx);
            (fired, incidents_of(alerts))
        }),
        forall|class: UserClass|
            #[trigger] suppressed_of(final(state).suppressed(), "discovery_burst"@, class)
                == suppressed_of(old(state).suppressed(), "discovery_burst"@, class) + times(
                discovery_suppressions(*graph, now@, *ctx),
                class,
            ),
        forall|detector: Seq<char>, class: UserClass|
            detector != "discovery_burst"@ ==> #[trigger] suppressed_of(
                final(state).suppressed(),
                detector,
                class,
            ) == suppressed_of(old(state).suppressed(), detector, class),
        forall|i: int|
            0 <= i < incidents@.len() ==> (#[trigger] incidents@[i]).host@ == host@ && incidents@[i].ts@
                == now@,
{
    let cutoff = now.add_seconds(-DISCOVERY_WINDOW);
    let users = graph.nodes_of_type(NodeType::User);
    let ghost all = graph.ids_of(NodeType::User);
    let ghost rule = discovery_of_node(*graph, host@, now@, cutoff@, *ctx);
    let ghost class_rule = suppressed_class_of_node(*graph, cutoff@, *ctx);
    let ghost counted = old(state).suppressed();
    let mut proposals: Vec<Vec<Alert>> = Vec::new();
    assert(proposal_views(proposals@) =~= all.take(0).flat_map(rule));
    assert(all.take(0).flat_map(class_rule) =~= Seq::empty());
    for i in 0..users.len()
        invariant
            all == users@,
            rule == discovery_of_node(*graph, host@, now@, cutoff@, *ctx),
            class_rule == suppressed_class_of_node(*graph, cutoff@, *ctx),
            counted == old(state).suppressed(),
            actions_countable(*graph, cutoff@),
            forall|class: UserClass|
                #[trigger] suppressed_of(counted, "discovery_burst"@, class) + times(
                    all.flat_map(class_rule),
                    class,
                ) <= u64::MAX,
            proposal_views(proposals@) == all.take(i as int).flat_map(rule),
            state.fired() == old(state).fired(),
            forall|class: UserClass|
                #[trigger] suppressed_of(state.suppressed(), "discovery_burst"@, class)
                    == suppressed_of(counted, "discovery_burst"@, class) + times(
                    all.take(i as int).flat_map(class_rule),
                    class,
                ),
            forall|detector: Seq<char>, class: UserClass|
                detector != "discovery_burst"@ ==> #[trigger] suppressed_of(
                    state.suppressed(),
                    detector,
                    class,
                ) == suppressed_of(counted, detector, class),
    {
        let id: NodeId = users[i];
        let ghost before = proposals@;
        let ghost so_far = all.take(i as int).flat_map(class_rule);
        let ghost next = all.take(i + 1).flat_map(class_rule);
        proof {
            all.lemma_flat_map_take_append(rule, i as int);
            all.lemma_flat_map_take_append(class_rule, i as int);
            assert(next == so_far + class_rule(id));
        }
        match graph.get_node(id) {
            Some(Node { kind: NodeKind::User { name }, .. }) => {
                assert(graph.is_of_type(NodeType::User)(id));
                assert(discovery_actions(*graph, cutoff@, id) <= usize::MAX);
                let (runs, reads) = count_actions(graph, &cutoff, id);
                let total: usize = runs + reads;
                let class = ctx.classify_user(name);
                let limit = limit_of(class);
                if total >= DISCOVERY_THRESHOLD && total < limit {
                    proof {
                        assert(class_rule(id) == seq![class]);
                        times_rise(all, class_rule, i + 1, class);
                        assert(next.drop_last() =~= so_far);
                        assert(suppressed_of(counted, "discovery_burst"@, class) + times(
                            all.flat_map(class_rule),
                            class,
                        ) <= u64::MAX);
                    }
                    state.count_suppressed("discovery_burst", class);
                    proof {
                        assert forall|c: UserClass|
                            #[trigger] suppressed_of(state.suppressed(), "discovery_burst"@, c)
                                == suppressed_of(counted, "discovery_burst"@, c) + times(
                                next,
                                c,
                            ) by {}
                    }
                } else {
                    assert(next =~= so_far);
                }
                if total >= limit {
                    let alert = new_discovery_alert(host, now, name, class, runs, reads);
                    let proposal = vec![alert];
                    assert(alert_views(proposal@) =~= seq![alert@]);
                    proposals.push(proposal);
                    assert(proposal_views(proposals@) =~= proposal_views(before) + rule(id));
                } else {
                    assert(proposal_views(proposals@) =~= proposal_views(before) + rule(id));
                }
            },
            _ => {
                assert(next =~= so_far);
                assert(proposal_views(proposals@) =~= proposal_views(before) + rule(id));
            },
        }
    }
    assert(all.take(all.len() as int) =~= all);
    let incidents = state.raise(proposals, now, DISCOVERY_COOLDOWN);
    proof {
        let alerts = discovery_run(old(state).fired(), *graph, host@, now@, *ctx).1;
        incidents_are_those_of_the_alerts(incidents@, alerts);
        assert forall|i: int| 0 <= i < incidents@.len() implies (
        #[trigger] incidents@[i]).host@ == host@ && incidents@[i].ts@ == now@ by {
            let _ = discovery_reports_have_a_cause(*graph, host@, now@, old(state).fired(), *ctx, i);
        }
    }
    incidents
}

/// A class stands no more often in what a rule makes of the first items of a list than in what it
/// makes of the list.
proof fn times_rise<A>(items: Seq<A>, rule: spec_fn(A) -> Seq<UserClass>, n: int, class: UserClass)
    requires
        0 <= n <= items.len(),
    ensures
        times(items.take(n).flat_map(rule), class) <= times(items.flat_map(rule), class),
    decreases items.len() - n,
{
    if n < items.len() {
        times_rise(items, rule, n + 1, class);
        items.lemma_flat_map_take_append(rule, n);
        times_adds_up(items.take(n).flat_map(rule), rule(items[n]), class);
    } else {
        assert(items.take(n) =~= items);
    }
}

// ---------------------------------------------------------------------------
// Protocol anomalies
// ---------------------------------------------------------------------------

/// Seconds in which connections are counted.
pub const PROTO_WINDOW: i64 = 300;

/// Anomalous connections from which on an address is reported.
pub const PROTO_ANOMALIES: usize = 5;

/// Connections of any kind from which on an address is reported.
pub const PROTO_CONNECTIONS: usize = 20;

/// Anomalous connections from which on the report is grave.
pub const PROTO_HIGH: usize = 10;

/// Seconds between two reports of one address.
pub const PROTO_COOLDOWN: i64 = 600;

/// The connection's summary tells of an anomaly.
pub open spec fn anomalous() -> spec_fn(Edge) -> bool {
    |e: Edge|
        e.text_of("summary"@) matches Some(s) && (has_part(s, "malformed"@) || has_part(
            s,
            "anomal"@,
        ) || has_part(s, "invalid"@))
}

/// Whether the connection's summary tells of an anomaly.
fn is_anomalous(edge: &Edge) -> (yes: bool)
    ensures
        yes == anomalous()(*edge),
{
    match edge.text_property("summary") {
        Some(s) => contains(s, "malformed") || contains(s, "anomal") || contains(s, "invalid"),
        None => false,
    }
}

/// How many of `edges` tell of an anomaly.
fn count_anomalous(edges: &Vec<&Edge>) -> (count: usize)
    ensures
        count == edges@.unref().filter(anomalous()).len(),
{
    let mut count: usize = 0;
    let ghost all = edges@.unref();
    let ghost wanted = anomalous();
    assert(all.take(0).filter(wanted) =~= Seq::empty()) by {
        reveal(Seq::filter);
    }
    for i in 0..edges.len()
        invariant
            all == edges@.unref(),
            wanted == anomalous(),
            count == all.take(i as int).filter(wanted).len(),
            count <= i,
    {
        proof {
            all.lemma_take_succ_push(i as int);
            all.take(i as int).lemma_filter_push(all[i as int], wanted);
        }
        if is_anomalous(edges[i]) {
            count = count + 1;
        }
    }
    assert(all.take(all.len() as int) =~= all);
    count
}

/// The alert on the connections of an address.
pub open spec fn proto_anomaly_alert(
    host: Seq<char>,
    now: Instant,
    addr: Seq<char>,
    anomalies: nat,
    connections: nat,
) -> AlertView {
    AlertView {
        key: "graph_proto_agg:"@ + addr,
        incident: IncidentView {
            ts: now,
            host,
            incident_id: "graph_proto_anomaly:"@ + addr + ":"@ + signed_decimal(now.secs),
            severity: if anomalies >= PROTO_HIGH {
                Severity::High
            } else {
                Severity::Medium
            },
            title: "Protocol anomaly: "@ + decimal(anomalies) + " from "@ + addr + " ("@ + decimal(
                connections,
            ) + " connections in 5m)"@,
            summary: "IP "@ + addr + " sent "@ + decimal(anomalies) + " anomalous connections ("@
                + decimal(connections)
                + " total) in 5 minutes. May indicate scanning or exploitation attempts."@,
            evidence: seq![
                text_field("source", "knowledge_graph"@),
                text_field("detector", "graph_proto_anomaly"@),
                text_field("ip", addr),
                count_field("anomaly_count", anomalies),
                count_field("total_connections", connections),
            ],
            recommended_checks: seq!["Check connections: ss -tn | grep "@ + addr],
            tags: seq!["T1190"@],
            entities: seq![EntityView { kind: EntityKind::Ip, value: addr }],
        },
    }
}

/// The alert on the connections of an address.
fn new_proto_anomaly_alert(
    host: &str,
    now: &Timestamp,
    addr: &str,
    anomalies: usize,
    connections: usize,
) -> (alert: Alert)
    ensures
        alert@ == proto_anomaly_alert(host@, now@, addr@, anomalies as nat, connections as nat),
{
    let secs = signed_number(now.timestamp());
    let anomalies_text = number(anomalies as u64);
    let connections_text = number(connections as u64);
    let severity = if anomalies >= PROTO_HIGH {
        Severity::High
    } else {
        Severity::Medium
    };
    let alert = Alert {
        key: cat2("graph_proto_agg:", addr),
        incident: Incident {
            ts: *now,
            host: host.to_owned(),
            incident_id: cat4("graph_proto_anomaly:", addr, ":", &secs),
            severity,
            title: cat7(
                "Protocol anomaly: ",
                &anomalies_text,
                " from ",
                addr,
                " (",
                &connections_text,
                " connections in 5m)",
            ),
            summary: cat7(
                "IP ",
                addr,
                " sent ",
                &anomalies_text,
                " anomalous connections (",
                &connections_text,
                " total) in 5 minutes. May indicate scanning or exploitation attempts.",
            ),
            evidence: vec![
                Field::text("source", "knowledge_graph"),
                Field::text("detector", "graph_proto_anomaly"),
                Field::text("ip", addr),
                Field::count("anomaly_count", anomalies),
                Field::count("total_connections", connections),
            ],
            recommended_checks: vec![cat2("Check connections: ss -tn | grep ", addr)],
            tags: vec!["T1190".to_owned()],
            entities: vec![EntityRef::ip(addr)],
        },
    };
    assert(alert@ =~~= proto_anomaly_alert(
        host@,
        now@,
        addr@,
        anomalies as nat,
        connections as nat,
    ));
    alert
}

/// The connections that the address at the node `id` made in the last five minutes.
pub open spec fn recent_connections(
    graph: KnowledgeGraph,
    now: Instant,
    id: NodeId,
) -> Seq<Edge> {
    graph.outgoing_in_window(id, Relation::ConnectedTo, now, PROTO_WINDOW as int)
}

/// What is proposed of a node: one alert where it is an outside address with enough recent
/// connections, anomalous or of any kind.
pub open spec fn proto_anomaly_of_node(
    graph: KnowledgeGraph,
    host: Seq<char>,
    now: Instant,
) -> spec_fn(NodeId) -> Seq<Seq<AlertView>> {
    |id: NodeId|
        {
            let connections = recent_connections(graph, now, id);
            let anomalies = connections.filter(anomalous()).len();
            match graph.node(id) {
                Some(Node { kind: NodeKind::Ip { addr, is_internal: false, .. }, .. }) if anomalies
                    >= PROTO_ANOMALIES || connections.len() >= PROTO_CONNECTIONS => seq![
                    seq![proto_anomaly_alert(host, now, addr@, anomalies, connections.len())],
                ],
                _ => Seq::empty(),
            }
        }
}

/// What [`detect_proto_anomaly_aggregated`] proposes.
pub open spec fn proto_anomaly_proposals(
    graph: KnowledgeGraph,
    host: Seq<char>,
    now: Instant,
) -> Seq<Seq<AlertView>> {
    graph.ids_of(NodeType::Ip).flat_map(proto_anomaly_of_node(graph, host, now))
}

/// What is proposed of the node `id`.
fn propose_proto_anomaly(
    graph: &KnowledgeGraph,
    host: &str,
    now: &Timestamp,
    id: NodeId,
) -> (proposals: Vec<Vec<Alert>>)
    ensures
        proposal_views(proposals@) == proto_anomaly_of_node(*graph, host@, now@)(id),
{
    let mut proposals: Vec<Vec<Alert>> = Vec::new();
    match graph.get_node(id) {
        Some(Node { kind: NodeKind::Ip { addr, is_internal, .. }, .. }) => {
            if !*is_internal {
                let edges = graph.edges_in_window(id, Relation::ConnectedTo, now, PROTO_WINDOW);
                let anomalies = count_anomalous(&edges);
                let connections = graph.count_edges_in_window(
                    id,
                    Relation::ConnectedTo,
                    now,
                    PROTO_WINDOW,
                );
                if anomalies >= PROTO_ANOMALIES || connections >= PROTO_CONNECTIONS {
                    let alert = new_proto_anomaly_alert(host, now, addr, anomalies, connections);
                    proposals.push(vec![alert]);
                }
            }
        },
        _ => {},
    }
    assert(proposal_views(proposals@) =~~= proto_anomaly_of_node(*graph, host@, now@)(id));
    proposals
}

/// What a run of [`detect_proto_anomaly_aggregated`] lets fire, and when each key fired last after
/// it.
pub open spec fn proto_anomaly_run(
    fired: Fired,
    graph: KnowledgeGraph,
    host: Seq<char>,
    now: Instant,
) -> (Fired, Seq<AlertView>) {
    admitted(fired, proto_anomaly_proposals(graph, host, now), now, PROTO_COOLDOWN as int)
}

/// Reports outside addresses with many anomalous connections, or many connections, in five minutes.
pub fn detect_proto_anomaly_aggregated(
    graph: &KnowledgeGraph,
    state: &mut GraphDetectorState,
    host: &str,
    now: &Timestamp,
) -> (incidents: Vec<Incident>)
    ensures
        (final(state).fired(), incident_views(incidents@)) == ({
            let (fired, alerts) = proto_anomaly_run(old(state).fired(), *graph, host@, now@);
            (fired, incidents_of(alerts))
        }),
        final(state).suppressed() == old(state).suppressed(),
        forall|i: int|
            0 <= i < incidents@.len() ==> (#[trigger] incidents@[i]).host@ == host@ && incidents@[i].ts@
                == now@,
{
    let ids = graph.nodes_of_type(NodeType::Ip);
    let ghost all = graph.ids_of(NodeType::Ip);
    let ghost rule = proto_anomaly_of_node(*graph, host@, now@);
    let mut proposals: Vec<Vec<Alert>> = Vec::new();
    assert(proposal_views(proposals@) =~= all.take(0).flat_map(rule));
    for i in 0..ids.len()
        invariant
            all == ids@,
            rule == proto_anomaly_of_node(*graph, host@, now@),
            proposal_views(proposals@) == all.take(i as int).flat_map(rule),
    {
        proof {
            all.lemma_flat_map_take_append(rule, i as int);
        }
        let ghost before = proposals@;
        let mut more = propose_proto_anomaly(graph, host, now, ids[i]);
        let ghost new = more@;
        proposals.append(&mut more);
        assert(proposal_views(proposals@) =~= proposal_views(before) + proposal_views(new));
    }
    assert(all.take(all.len() as int) =~= all);
    let incidents = state.raise(proposals, now, PROTO_COOLDOWN);
    proof {
        let alerts = proto_anomaly_run(old(state).fired(), *graph, host@, now@).1;
        incidents_are_those_of_the_alerts(incidents@, alerts);
        assert forall|i: int| 0 <= i < incidents@.len() implies (
        #[trigger] incidents@[i]).host@ == host@ && incidents@[i].ts@ == now@ by {
            let _ = proto_reports_have_a_cause(*graph, host@, now@, old(state).fired(), i);
        }
    }
    incidents
}

// ---------------------------------------------------------------------------
// Port scans
// ---------------------------------------------------------------------------

/// Seconds in which probed ports are counted.
pub const PORT_SCAN_WINDOW: i64 = 60;

/// Different ports from which on an address is reported.
pub const PORT_SCAN_THRESHOLD: usize = 10;

/// Seconds between two reports of one address.
pub const PORT_SCAN_COOLDOWN: i64 = 600;

/// The alert on `ports` probed ports.
pub open spec fn port_scan_alert(
    host: Seq<char>,
    now: Instant,
    addr: Seq<char>,
    ports: nat,
) -> AlertView {
    AlertView {
        key: "graph_portscan:"@ + addr,
        incident: IncidentView {
            ts: now,
            host,
            incident_id: "graph_port_scan:"@ + addr + ":"@ + signed_decimal(now.secs),
            severity: Severity::Medium,
            title: "Port scan: "@ + addr + " probed "@ + decimal(ports) + " ports in 1m"@,
            summary: "IP "@ + addr + " probed "@ + decimal(ports)
                + " distinct ports in 1 minute. Indicates network reconnaissance."@,
            evidence: seq![
                text_field("source", "knowledge_graph"@),
                text_field("detector", "graph_port_scan"@),
                text_field("ip", addr),
                count_field("distinct_ports", ports),
            ],
            recommended_checks: seq!["Block scanner: innerwarden block-ip "@ + addr],
            tags: seq!["T1046"@],
            entities: seq![EntityView { kind: EntityKind::Ip, value: addr }],
        },
    }
}

/// The alert on `ports` probed ports.
fn new_port_scan_alert(host: &str, now: &Timestamp, addr: &str, ports: usize) -> (alert: Alert)
    ensures
        alert@ == port_scan_alert(host@, now@, addr@, ports as nat),
{
    let secs = signed_number(now.timestamp());
    let ports_text = number(ports as u64);
    let alert = Alert {
        key: cat2("graph_portscan:", addr),
        incident: Incident {
            ts: *now,
            host: host.to_owned(),
            incident_id: cat4("graph_port_scan:", addr, ":", &secs),
            severity: Severity::Medium,
            title: cat5("Port scan: ", addr, " probed ", &ports_text, " ports in 1m"),
            summary: cat5(
                "IP ",
                addr,
                " probed ",
                &ports_text,
                " distinct ports in 1 minute. Indicates network reconnaissance.",
            ),
            evidence: vec![
                Field::text("source", "knowledge_graph"),
                Field::text("detector", "graph_port_scan"),
                Field::text("ip", addr),
                Field::count("distinct_ports", ports),
            ],
            recommended_checks: vec![cat2("Block scanner: innerwarden block-ip ", addr)],
            tags: vec!["T1046".to_owned()],
            entities: vec![EntityRef::ip(addr)],
        },
    };
    assert(alert@ =~~= port_scan_alert(host@, now@, addr@, ports as nat));
    alert
}

/// The ports that the address at the node `id` probed in the last minute.
pub open spec fn probed_ports(graph: KnowledgeGraph, now: Instant, id: NodeId) -> Set<NodeId> {
    targets(
        graph.outgoing_in_window(id, Relation::ScannedPort, now, PORT_SCAN_WINDOW as int),
    ).to_set()
}

/// What is proposed of a node: one alert where it is an outside address that probed enough
/// different ports.
pub open spec fn port_scan_of_node(
    graph: KnowledgeGraph,
    host: Seq<char>,
    now: Instant,
) -> spec_fn(NodeId) -> Seq<Seq<AlertView>> {
    |id: NodeId|
        {
            let ports = probed_ports(graph, now, id).len();
            match graph.node(id) {
                Some(Node { kind: NodeKind::Ip { addr, is_internal: false, .. }, .. }) if ports
                    >= PORT_SCAN_THRESHOLD => seq![
                    seq![port_scan_alert(host, now, addr@, ports)],
                ],
                _ => Seq::empty(),
            }
        }
}

/// What [`detect_port_scan`] proposes.
pub open spec fn port_scan_proposals(
    graph: KnowledgeGraph,
    host: Seq<char>,
    now: Instant,
) -> Seq<Seq<AlertView>> {
    graph.ids_of(NodeType::Ip).flat_map(port_scan_of_node(graph, host, now))
}

/// What is proposed of the node `id`.
fn propose_port_scan(
    graph: &KnowledgeGraph,
    host: &str,
    now: &Timestamp,
    id: NodeId,
) -> (proposals: Vec<Vec<Alert>>)
    ensures
        proposal_views(proposals@) == port_scan_of_node(*graph, host@, now@)(id),
{
    let mut proposals: Vec<Vec<Alert>> = Vec::new();
    match graph.get_node(id) {
        Some(Node { kind: NodeKind::Ip { addr, is_internal, .. }, .. }) => {
            if !*is_internal {
                let ports = graph.count_distinct_targets_in_window(
                    id,
                    Relation::ScannedPort,
                    now,
                    PORT_SCAN_WINDOW,
                );
                if ports >= PORT_SCAN_THRESHOLD {
                    proposals.push(vec![new_port_scan_alert(host, now, addr, ports)]);
                }
            }
        },
        _ => {},
    }
    assert(proposal_views(proposals@) =~~= port_scan_of_node(*graph, host@, now@)(id));
    proposals
}

/// What a run of [`detect_port_scan`] lets fire, and when each key fired last after it.
pub open spec fn port_scan_run(
    fired: Fired,
    graph: KnowledgeGraph,
    host: Seq<char>,
    now: Instant,
) -> (Fired, Seq<AlertView>) {
    admitted(fired, port_scan_proposals(graph, host, now), now, PORT_SCAN_COOLDOWN as int)
}

/// Reports outside addresses that probed ten or more different ports in one minute.
pub fn detect_port_scan(
    graph: &KnowledgeGraph,
    state: &mut GraphDetectorState,
    host: &str,
    now: &Timestamp,
) -> (incidents: Vec<Incident>)
    ensures
        (final(state).fired(), incident_views(incidents@)) == ({
            let (fired, alerts) = port_scan_run(old(state).fired(), *graph, host@, now@);
            (fired, incidents_of(alerts))
        }),
        final(state).suppressed() == old(state).suppressed(),
        forall|i: int|
            0 <= i < incidents@.len() ==> (#[trigger] incidents@[i]).host@ == host@ && incidents@[i].ts@
                == now@ && incidents@[i].severity == Severity::Medium,
{
    let ids = graph.nodes_of_type(NodeType::Ip);
    let ghost all = graph.ids_of(NodeType::Ip);
    let ghost rule = port_scan_of_node(*graph, host@, now@);
    let mut proposals: Vec<Vec<Alert>> = Vec::new();
    assert(proposal_views(proposals@) =~= all.take(0).flat_map(rule));
    for i in 0..ids.len()
        invariant
            all == ids@,
            rule == port_scan_of_node(*graph, host@, now@),
            proposal_views(proposals@) == all.take(i as int).flat_map(rule),
    {
        proof {
            all.lemma_flat_map_take_append(rule, i as int);
        }
        let ghost before = proposals@;
        let mut more = propose_port_scan(graph, host, now, ids[i]);
        let ghost new = more@;
        proposals.append(&mut more);
        assert(proposal_views(proposals@) =~= proposal_views(before) + proposal_views(new));
    }
    assert(all.take(all.len() as int) =~= all);
    let incidents = state.raise(proposals, now, PORT_SCAN_COOLDOWN);
    proof {
        let alerts = port_scan_run(old(state).fired(), *graph, host@, now@).1;
        incidents_are_those_of_the_alerts(incidents@, alerts);
        assert forall|i: int| 0 <= i < incidents@.len() implies (
        #[trigger] incidents@[i]).host@ == host@ && incidents@[i].ts@ == now@
            && incidents@[i].severity == Severity::Medium by {
            let _ = port_scan_reports_have_a_cause(*graph, host@, now@, old(state).fired(), i);
        }
    }
    incidents
}

// ---------------------------------------------------------------------------
// Credential stuffing
// ---------------------------------------------------------------------------

/// Seconds in which login attempts are counted.
pub const STUFFING_WINDOW: i64 = 300;

/// Different users from which on an address is reported.
pub const STUFFING_THRESHOLD: usize = 5;

/// How many users a report names.
pub const STUFFING_NAMED: usize = 10;

/// Seconds between two reports of one address.
pub const STUFFING_COOLDOWN: i64 = 600;

/// The alert on login attempts as `users` different users, some of which are named.
pub open spec fn credential_stuffing_alert(
    host: Seq<char>,
    now: Instant,
    addr: Seq<char>,
    users: nat,
    names: Seq<Seq<char>>,
) -> AlertView {
    AlertView {
        key: "graph_credstuff:"@ + addr,
        incident: IncidentView {
            ts: now,
            host,
            incident_id: "graph_credential_stuffing:"@ + addr + ":"@ + signed_decimal(now.secs),
            severity: Severity::High,
            title: "Credential stuffing: "@ + addr + " tried "@ + decimal(users) + " users in 5m"@,
            summary: "IP "@ + addr + " attempted login as "@ + decimal(users)
                + " distinct users in 5 minutes: "@ + joined(names, ", "@)
                + ". Indicates credential stuffing attack."@,
            evidence: seq![
                text_field("source", "knowledge_graph"@),
                text_field("detector", "graph_credential_stuffing"@),
                text_field("ip", addr),
                count_field("distinct_users", users),
                list_field("usernames", names),
            ],
            recommended_checks: seq!["Block attacker: innerwarden block-ip "@ + addr],
            tags: seq!["T1110.004"@],
            entities: seq![EntityView { kind: EntityKind::Ip, value: addr }],
        },
    }
}

/// The alert on login attempts as `users` different users, some of which are named.
fn new_credential_stuffing_alert(
    host: &str,
    now: &Timestamp,
    addr: &str,
    users: usize,
    names: Vec<String>,
) -> (alert: Alert)
    ensures
        alert@ == credential_stuffing_alert(host@, now@, addr@, users as nat, texts(names@)),
{
    let secs = signed_number(now.timestamp());
    let users_text = number(users as u64);
    let listed = join(&names, ", ");
    let ghost texts_of_names = texts(names@);
    let alert = Alert {
        key: cat2("graph_credstuff:", addr),
        incident: Incident {
            ts: *now,
            host: host.to_owned(),
            incident_id: cat4("graph_credential_stuffing:", addr, ":", &secs),
            severity: Severity::High,
            title: cat5("Credential stuffing: ", addr, " tried ", &users_text, " users in 5m"),
            summary: cat7(
                "IP ",
                addr,
                " attempted login as ",
                &users_text,
                " distinct users in 5 minutes: ",
                &listed,
                ". Indicates credential stuffing attack.",
            ),
            evidence: vec![
                Field::text("source", "knowledge_graph"),
                Field::text("detector", "graph_credential_stuffing"),
                Field::text("ip", addr),
                Field::count("distinct_users", users),
                Field::list("usernames", names),
            ],
            recommended_checks: vec![cat2("Block attacker: innerwarden block-ip ", addr)],
            tags: vec!["T1110.004".to_owned()],
            entities: vec![EntityRef::ip(addr)],
        },
    };
    assert(alert@ =~~= credential_stuffing_alert(
        host@,
        now@,
        addr@,
        users as nat,
        texts_of_names,
    ));
    alert
}

/// The users as which a login was tried from the address at the node `id` in the last five minutes,
/// each once, in the order of their first attempt. These edges lead from the user to the address.
pub open spec fn tried_users(graph: KnowledgeGraph, now: Instant, id: NodeId) -> Seq<NodeId> {
    distinct(
        sources(
            graph.incoming(id).filter(
                windowed(Relation::LoggedInFrom, now, STUFFING_WINDOW as int),
            ),
        ),
    )
}

/// The label of a node that exists.
pub open spec fn label_if_known(graph: KnowledgeGraph) -> spec_fn(NodeId) -> Seq<Seq<char>> {
    |id: NodeId|
        match graph.node(id) {
            Some(node) => seq![node.label@],
            None => Seq::empty(),
        }
}

/// The labels of the first nodes of a list that exist, at most ten.
pub open spec fn first_labels(graph: KnowledgeGraph, ids: Seq<NodeId>) -> Seq<Seq<char>> {
    let labels = ids.flat_map(label_if_known(graph));
    if labels.len() > STUFFING_NAMED {
        labels.take(STUFFING_NAMED as int)
    } else {
        labels
    }
}

/// The labels of the first nodes of a list that exist, at most ten.
fn pick_labels(graph: &KnowledgeGraph, ids: &Vec<NodeId>) -> (labels: Vec<String>)
    ensures
        texts(labels@) == first_labels(*graph, ids@),
{
    let mut labels: Vec<String> = Vec::new();
    let ghost rule = label_if_known(*graph);
    let ghost all = ids@;
    assert(texts(labels@) =~= all.take(0).flat_map(rule));
    for i in 0..ids.len()
        invariant
            all == ids@,
            rule == label_if_known(*graph),
            ({
                let so_far = all.take(i as int).flat_map(rule);
                texts(labels@) == if so_far.len() > STUFFING_NAMED {
                    so_far.take(STUFFING_NAMED as int)
                } else {
                    so_far
                }
            }),
    {
        proof {
            all.lemma_flat_map_take_append(rule, i as int);
        }
        let ghost before = labels@;
        let ghost so_far = all.take(i as int).flat_map(rule);
        let ghost next = all.take(i + 1).flat_map(rule);
        assert(texts(before).len() == before.len());
        match graph.get_node(ids[i]) {
            Some(node) => {
                assert(next =~= so_far.push(node.label@));
                if labels.len() < STUFFING_NAMED {
                    labels.push(node.label.clone());
                    assert(texts(labels@) =~= texts(before).push(node.label@));
                } else {
                    assert(next.take(STUFFING_NAMED as int) =~= texts(labels@));
                }
            },
            None => {
                assert(next =~= so_far);
            },
        }
    }
    assert(all.take(all.len() as int) =~= all);
    labels
}

/// What is proposed of a node: one alert where it is an outside address from which logins as enough
/// different users were tried.
pub open spec fn credential_stuffing_of_node(
    graph: KnowledgeGraph,
    host: Seq<char>,
    now: Instant,
) -> spec_fn(NodeId) -> Seq<Seq<AlertView>> {
    |id: NodeId|
        {
            let users = tried_users(graph, now, id);
            match graph.node(id) {
                Some(Node { kind: NodeKind::Ip { addr, is_internal: false, .. }, .. }) if users.len()
                    >= STUFFING_THRESHOLD => seq![
                    seq![
                        credential_stuffing_alert(
                            host,
                            now,
                            addr@,
                            users.len(),
                            first_labels(graph, users),
                        ),
                    ],
                ],
                _ => Seq::empty(),
            }
        }
}

/// What [`detect_credential_stuffing`] proposes.
pub open spec fn credential_stuffing_proposals(
    graph: KnowledgeGraph,
    host: Seq<char>,
    now: Instant,
) -> Seq<Seq<AlertView>> {
    graph.ids_of(NodeType::Ip).flat_map(credential_stuffing_of_node(graph, host, now))
}

/// The sources of a list of edges.
fn source_ids(edges: &Vec<&Edge>) -> (ids: Vec<NodeId>)
    ensures
        ids@ == sources(edges@.unref()),
{
    let mut ids: Vec<NodeId> = Vec::new();
    let ghost all = edges@.unref();
    for i in 0..edges.len()
        invariant
            all == edges@.unref(),
            ids@ == sources(all.take(i as int)),
    {
        ids.push(edges[i].from);
        assert(sources(all.take(i + 1)) =~= sources(all.take(i as int)).push(all[i as int].from));
    }
    assert(all.take(all.len() as int) =~= all);
    ids
}

/// What is proposed of the node `id`.
fn propose_credential_stuffing(
    graph: &KnowledgeGraph,
    host: &str,
    now: &Timestamp,
    id: NodeId,
) -> (proposals: Vec<Vec<Alert>>)
    ensures
        proposal_views(proposals@) == credential_stuffing_of_node(*graph, host@, now@)(id),
{
    let mut proposals: Vec<Vec<Alert>> = Vec::new();
    match graph.get_node(id) {
        Some(Node { kind: NodeKind::Ip { addr, is_internal, .. }, .. }) => {
            if !*is_internal {
                let edges = graph.incoming_edges(id);
                let recent = pick_windowed(&edges, Relation::LoggedInFrom, now, STUFFING_WINDOW);
                let users = distinct_nodes(&source_ids(&recent));
                if users.len() >= STUFFING_THRESHOLD {
                    let names = pick_labels(graph, &users);
                    let alert = new_credential_stuffing_alert(host, now, addr, users.len(), names);
                    proposals.push(vec![alert]);
                }
            }
        },
        _ => {},
    }
    assert(proposal_views(proposals@) =~~= credential_stuffing_of_node(*graph, host@, now@)(id));
    proposals
}

/// What a run of [`detect_credential_stuffing`] lets fire, and when each key fired last after it.
pub open spec fn credential_stuffing_run(
    fired: Fired,
    graph: KnowledgeGraph,
    host: Seq<char>,
    now: Instant,
) -> (Fired, Seq<AlertView>) {
    admitted(fired, credential_stuffing_proposals(graph, host, now), now, STUFFING_COOLDOWN as int)
}

/// Reports outside addresses from which logins as five or more users were tried in five minutes.
pub fn detect_credential_stuffing(
    graph: &KnowledgeGraph,
    state: &mut GraphDetectorState,
    host: &str,
    now: &Timestamp,
) -> (incidents: Vec<Incident>)
    ensures
        (final(state).fired(), incident_views(incidents@)) == ({
            let (fired, alerts) = credential_stuffing_run(old(state).fired(), *graph, host@, now@);
            (fired, incidents_of(alerts))
        }),
        final(state).suppressed() == old(state).suppressed(),
        forall|i: int|
            0 <= i < incidents@.len() ==> (#[trigger] incidents@[i]).host@ == host@ && incidents@[i].ts@
                == now@ && incidents@[i].severity == Severity::High,
{
    let ids = graph.nodes_of_type(NodeType::Ip);
    let ghost all = graph.ids_of(NodeType::Ip);
    let ghost rule = credential_stuffing_of_node(*graph, host@, now@);
    let mut proposals: Vec<Vec<Alert>> = Vec::new();
    assert(proposal_views(proposals@) =~= all.take(0).flat_map(rule));
    for i in 0..ids.len()
        invariant
            all == ids@,
            rule == credential_stuffing_of_node(*graph, host@, now@),
            proposal_views(proposals@) == all.take(i as int).flat_map(rule),
    {
        proof {
            all.lemma_flat_map_take_append(rule, i as int);
        }
        let ghost before = proposals@;
        let mut more = propose_credential_stuffing(graph, host, now, ids[i]);
        let ghost new = more@;
        proposals.append(&mut more);
        assert(proposal_views(proposals@) =~= proposal_views(before) + proposal_views(new));
    }
    assert(all.take(all.len() as int) =~= all);
    let incidents = state.raise(proposals, now, STUFFING_COOLDOWN);
    proof {
        let alerts = credential_stuffing_run(old(state).fired(), *graph, host@, now@).1;
        incidents_are_those_of_the_alerts(incidents@, alerts);
        assert forall|i: int| 0 <= i < incidents@.len() implies (
        #[trigger] incidents@[i]).host@ == host@ && incidents@[i].ts@ == now@
            && incidents@[i].severity == Severity::High by {
            let _ = stuffing_reports_have_a_cause(*graph, host@, now@, old(state).fired(), i);
        }
    }
    incidents
}

// ---------------------------------------------------------------------------
// Scanner user agents
// ---------------------------------------------------------------------------

/// The names by which scanners give themselves away, in the order in which they are tried.
pub open spec fn scanner_names() -> Seq<Seq<char>> {
    seq![
        "nmap"@,
        "nikto"@,
        "sqlmap"@,
        "zap"@,
        "burp"@,
        "gobuster"@,
        "dirbuster"@,
        "wfuzz"@,
        "ffuf"@,
        "nuclei"@,
        "whatweb"@,
        "masscan"@,
        "acunetix"@,
    ]
}

/// The names by which scanners give themselves away.
fn scanners() -> (list: Vec<&'static str>)
    ensures
        str_texts(list@) == scanner_names(),
{
    let list = vec![
        "nmap",
        "nikto",
        "sqlmap",
        "zap",
        "burp",
        "gobuster",
        "dirbuster",
        "wfuzz",
        "ffuf",
        "nuclei",
        "whatweb",
        "masscan",
        "acunetix",
    ];
    assert(str_texts(list@) =~= scanner_names());
    list
}

/// Seconds between two reports of one scanner at one address.
pub const SCANNER_COOLDOWN: i64 = 600;

/// The alert on a request of a scanner.
pub open spec fn scanner_ua_alert(
    host: Seq<char>,
    now: Instant,
    addr: Seq<char>,
    scanner: Seq<char>,
    user_agent: Seq<char>,
) -> AlertView {
    AlertView {
        key: "graph_scanner:"@ + addr + ":"@ + scanner,
        incident: IncidentView {
            ts: now,
            host,
            incident_id: "graph_scanner_ua:"@ + addr + ":"@ + signed_decimal(now.secs),
            severity: Severity::Medium,
            title: "Security scanner detected: "@ + scanner + " from "@ + addr,
            summary: "IP "@ + addr
                + " sent HTTP requests with security scanner User-Agent matching '"@ + scanner
                + "'. Indicates active reconnaissance."@,
            evidence: seq![
                text_field("source", "knowledge_graph"@),
                text_field("detector", "graph_scanner_ua"@),
                text_field("ip", addr),
                text_field("scanner", scanner),
                text_field("user_agent", user_agent),
            ],
            recommended_checks: seq!["Check access logs for IP "@ + addr],
            tags: seq!["T1595.002"@],
            entities: seq![EntityView { kind: EntityKind::Ip, value: addr }],
        },
    }
}

/// The alert on a request of a scanner.
fn new_scanner_ua_alert(
    host: &str,
    now: &Timestamp,
    addr: &str,
    scanner: &str,
    user_agent: &str,
) -> (alert: Alert)
    ensures
        alert@ == scanner_ua_alert(host@, now@, addr@, scanner@, user_agent@),
{
    let secs = signed_number(now.timestamp());
    let alert = Alert {
        key: cat4("graph_scanner:", addr, ":", scanner),
        incident: Incident {
            ts: *now,
            host: host.to_owned(),
            incident_id: cat4("graph_scanner_ua:", addr, ":", &secs),
            severity: Severity::Medium,
            title: cat4("Security scanner detected: ", scanner, " from ", addr),
            summary: cat5(
                "IP ",
                addr,
                " sent HTTP requests with security scanner User-Agent matching '",
                scanner,
                "'. Indicates active reconnaissance.",
            ),
            evidence: vec![
                Field::text("source", "knowledge_graph"),
                Field::text("detector", "graph_scanner_ua"),
                Field::text("ip", addr),
                Field::text("scanner", scanner),
                Field::text("user_agent", user_agent),
            ],
            recommended_checks: vec![cat2("Check access logs for IP ", addr)],
            tags: vec!["T1595.002".to_owned()],
            entities: vec![EntityRef::ip(addr)],
        },
    };
    assert(alert@ =~~= scanner_ua_alert(host@, now@, addr@, scanner@, user_agent@));
    alert
}

/// The scanner that a user agent in lower case names.
pub fn find_scanner(user_agent: &str) -> (scanner: Option<&'static str>)
    ensures
        match scanner {
            Some(s) => first_part(user_agent@, scanner_names()) == Some(s@),
            None => first_part(user_agent@, scanner_names()) is None,
        },
{
    find_part(user_agent, &scanners())
}

/// The user agent of a request; empty where it has none.
pub open spec fn user_agent_of(e: Edge) -> Seq<char> {
    match e.text_of("user_agent"@) {
        Some(ua) => ua,
        None => ""@,
    }
}

/// What is proposed of an edge of the address `addr`: one alert where it is a request whose user
/// agent names a scanner.
pub open spec fn scanner_ua_of_edge(
    host: Seq<char>,
    now: Instant,
    addr: Seq<char>,
) -> spec_fn(Edge) -> Seq<Seq<AlertView>> {
    |e: Edge|
        if e.relation == Relation::HttpRequestTo {
            match first_part(lowercase(user_agent_of(e)), scanner_names()) {
                Some(scanner) => seq![
                    seq![scanner_ua_alert(host, now, addr, scanner, user_agent_of(e))],
                ],
                None => Seq::empty(),
            }
        } else {
            Seq::empty()
        }
}

/// What is proposed of a node: the proposals of the edges that leave it, where it is an outside
/// address.
pub open spec fn scanner_ua_of_node(
    graph: KnowledgeGraph,
    host: Seq<char>,
    now: Instant,
) -> spec_fn(NodeId) -> Seq<Seq<AlertView>> {
    |id: NodeId|
        match graph.node(id) {
            Some(Node { kind: NodeKind::Ip { addr, is_internal: false, .. }, .. }) => graph.outgoing(
                id,
            ).flat_map(scanner_ua_of_edge(host, now, addr@)),
            _ => Seq::empty(),
        }
}

/// What [`detect_scanner_ua`] proposes.
pub open spec fn scanner_ua_proposals(
    graph: KnowledgeGraph,
    host: Seq<char>,
    now: Instant,
) -> Seq<Seq<AlertView>> {
    graph.ids_of(NodeType::Ip).flat_map(scanner_ua_of_node(graph, host, now))
}

/// What is proposed of the node `id`.
fn propose_scanner_ua(
    graph: &KnowledgeGraph,
    host: &str,
    now: &Timestamp,
    id: NodeId,
) -> (proposals: Vec<Vec<Alert>>)
    ensures
        proposal_views(proposals@) == scanner_ua_of_node(*graph, host@, now@)(id),
{
    let mut proposals: Vec<Vec<Alert>> = Vec::new();
    assert(proposal_views(proposals@) =~= Seq::empty());
    let addr = match graph.get_node(id) {
        Some(Node { kind: NodeKind::Ip { addr, is_internal, .. }, .. }) => {
            if *is_internal {
                return proposals;
            }
            addr
        },
        _ => {
            return proposals;
        },
    };
    let edges = graph.outgoing_edges(id);
    let ghost all = graph.outgoing(id);
    let ghost rule = scanner_ua_of_edge(host@, now@, addr@);
    assert(proposal_views(proposals@) =~= all.take(0).flat_map(rule));
    for i in 0..edges.len()
        invariant
            all == edges@.unref(),
            rule == scanner_ua_of_edge(host@, now@, addr@),
            proposal_views(proposals@) == all.take(i as int).flat_map(rule),
    {
        proof {
            all.lemma_flat_map_take_append(rule, i as int);
        }
        let ghost before = proposals@;
        let edge = edges[i];
        if edge.relation == Relation::HttpRequestTo {
            let user_agent = match edge.text_property("user_agent") {
                Some(ua) => ua,
                None => "",
            };
            match find_scanner(&lower_text(user_agent)) {
                Some(scanner) => {
                    let alert = new_scanner_ua_alert(host, now, addr, scanner, user_agent);
                    let proposal = vec![alert];
                    assert(alert_views(proposal@) =~= seq![alert@]);
                    proposals.push(proposal);
                    assert(proposal_views(proposals@) =~= proposal_views(before) + rule(
                        all[i as int],
                    ));
                },
                None => {},
            }
        }
    }
    assert(all.take(all.len() as int) =~= all);
    proposals
}

/// What a run of [`detect_scanner_ua`] lets fire, and when each key fired last after it.
pub open spec fn scanner_ua_run(
    fired: Fired,
    graph: KnowledgeGraph,
    host: Seq<char>,
    now: Instant,
) -> (Fired, Seq<AlertView>) {
    admitted(fired, scanner_ua_proposals(graph, host, now), now, SCANNER_COOLDOWN as int)
}

/// Reports outside addresses that sent requests with the user agent of a known scanner.
pub fn detect_scanner_ua(
    graph: &KnowledgeGraph,
    state: &mut GraphDetectorState,
    host: &str,
    now: &Timestamp,
) -> (incidents: Vec<Incident>)
    ensures
        (final(state).fired(), incident_views(incidents@)) == ({
            let (fired, alerts) = scanner_ua_run(old(state).fired(), *graph, host@, now@);
            (fired, incidents_of(alerts))
        }),
        final(state).suppressed() == old(state).suppressed(),
        forall|i: int|
            0 <= i < incidents@.len() ==> (#[trigger] incidents@[i]).host@ == host@ && incidents@[i].ts@
                == now@ && incidents@[i].severity == Severity::Medium,
{
    let ids = graph.nodes_of_type(NodeType::Ip);
    let ghost all = graph.ids_of(NodeType::Ip);
    let ghost rule = scanner_ua_of_node(*graph, host@, now@);
    let mut proposals: Vec<Vec<Alert>> = Vec::new();
    assert(proposal_views(proposals@) =~= all.take(0).flat_map(rule));
    for i in 0..ids.len()
        invariant
            all == ids@,
            rule == scanner_ua_of_node(*graph, host@, now@),
            proposal_views(proposals@) == all.take(i as int).flat_map(rule),
    {
        proof {
            all.lemma_flat_map_take_append(rule, i as int);
        }
        let ghost before = proposals@;
        let mut more = propose_scanner_ua(graph, host, now, ids[i]);
        let ghost new = more@;
        proposals.append(&mut more);
        assert(proposal_views(proposals@) =~= proposal_views(before) + proposal_views(new));
    }
    assert(all.take(all.len() as int) =~= all);
    let incidents = state.raise(proposals, now, SCANNER_COOLDOWN);
    proof {
        let alerts = scanner_ua_run(old(state).fired(), *graph, host@, now@).1;
        incidents_are_those_of_the_alerts(incidents@, alerts);
        assert forall|i: int| 0 <= i < incidents@.len() implies (
        #[trigger] incidents@[i]).host@ == host@ && incidents@[i].ts@ == now@
            && incidents@[i].severity == Severity::Medium by {
            let _ = scanner_reports_have_a_cause(*graph, host@, now@, old(state).fired(), i);
        }
    }
    incidents
}

// ---------------------------------------------------------------------------
// Laws
// ---------------------------------------------------------------------------

/// A second run of [`detect_threat_intel`] on the same graph within 300 seconds
/// reports nothing, unless the cooldown of an older report ends in between.
pub proof fn repeated_threat_intel_is_silent(
    graph: KnowledgeGraph,
    host: Seq<char>,
    now: Instant,
    later: Instant,
    fired: Fired,
)
    requires
        in_window(now, later, THREAT_INTEL_COOLDOWN as int),
        cooldowns_last(
            fired,
            threat_intel_proposals(graph, host, later),
            now,
            later,
            THREAT_INTEL_COOLDOWN as int,
        ),
    ensures
        ({
            let first = threat_intel_proposals(graph, host, now);
            let second = threat_intel_proposals(graph, host, later);
            let after = admitted(fired, first, now, THREAT_INTEL_COOLDOWN as int).0;
            admitted(after, second, later, THREAT_INTEL_COOLDOWN as int) == (
                after,
                Seq::<AlertView>::empty(),
            )
        }),
{
    let first = threat_intel_proposals(graph, host, now);
    let second = threat_intel_proposals(graph, host, later);
    let items = graph.hits();
    let rule = threat_intel_of_hit(graph, host, now);
    let later_rule = threat_intel_of_hit(graph, host, later);
    assert forall|x| single_alternatives(#[trigger] rule(x)) by {}
    flat_singles(items, rule);
    singles_have_one_key(first);
    assert forall|x| keys_among(#[trigger] later_rule(x), rule(x)) by {
        single_keys_among(later_rule(x), rule(x));
    }
    flat_keys_among(items, later_rule, items, rule);
    repetition_is_silent(fired, first, second, now, later, THREAT_INTEL_COOLDOWN as int);
}

/// Where a list has no more items and a rule makes no more of each, it makes no more of the list.
proof fn fewer_runs_make_fewer_reads(
    edges: Seq<Edge>,
    less: spec_fn(Edge) -> bool,
    more: spec_fn(Edge) -> bool,
    few: spec_fn(NodeId) -> Seq<Edge>,
    many: spec_fn(NodeId) -> Seq<Edge>,
)
    requires
        narrower(edges, less, more),
        forall|x: NodeId| (#[trigger] few(x)).len() <= many(x).len(),
    ensures
        sources(edges.filter(less)).flat_map(few).len() <= sources(edges.filter(more)).flat_map(
            many,
        ).len(),
    decreases edges.len(),
{
    reveal(Seq::filter);
    if edges.len() > 0 {
        let front = edges.drop_last();
        let last = edges.last();
        assert forall|i: int| 0 <= i < front.len() && less(#[trigger] front[i]) implies more(
            front[i],
        ) by {
            assert(front[i] == edges[i]);
        }
        fewer_runs_make_fewer_reads(front, less, more, few, many);
        assert(edges[edges.len() - 1] == last);
        let a = sources(front.filter(less));
        let b = sources(front.filter(more));
        a.lemma_flat_map_push(few, last.from);
        b.lemma_flat_map_push(many, last.from);
        assert(less(last) ==> sources(edges.filter(less)) =~= a.push(last.from));
        assert(more(last) ==> sources(edges.filter(more)) =~= b.push(last.from));
        assert(few(last.from).len() <= many(last.from).len());
    } else {
        assert(sources(edges.filter(less)) =~= sources(edges.filter(more)));
        assert(sources(edges.filter(less)).flat_map(few) =~= Seq::empty());
    }
}

/// With a later cutoff a user has no more actions.
proof fn actions_run_out(graph: KnowledgeGraph, cutoff: Instant, later_cutoff: Instant, id: NodeId)
    requires
        !later_cutoff.before(cutoff),
    ensures
        discovery_actions(graph, later_cutoff, id) <= discovery_actions(graph, cutoff, id),
{
    let less = since_cutoff(Relation::RunAs, later_cutoff);
    let more = since_cutoff(Relation::RunAs, cutoff);
    let few = reads_of(graph, later_cutoff);
    let many = reads_of(graph, cutoff);
    assert(narrower(graph.incoming(id), less, more));
    narrower_filters_keep_fewer(graph.incoming(id), less, more, more);
    assert forall|x: NodeId| (#[trigger] few(x)).len() <= many(x).len() by {
        let fewer = sensitive_read(graph, later_cutoff);
        let all = sensitive_read(graph, cutoff);
        assert(narrower(graph.outgoing(x), fewer, all));
        narrower_filters_keep_fewer(graph.outgoing(x), fewer, all, all);
    }
    fewer_runs_make_fewer_reads(graph.incoming(id), less, more, few, many);
}

/// A second run of [`detect_discovery_burst_calibrated`] on the same graph within 1800 seconds
/// reports nothing, unless the cooldown of an older report ends in between. The window may not
/// begin earlier in the second run, which it does not outside leap seconds.
pub proof fn repeated_discovery_burst_is_silent(
    graph: KnowledgeGraph,
    host: Seq<char>,
    now: Instant,
    later: Instant,
    fired: Fired,
    ctx: CalibrationContext,
)
    requires
        !later.moved(-DISCOVERY_WINDOW as int).before(now.moved(-DISCOVERY_WINDOW as int)),
        in_window(now, later, DISCOVERY_COOLDOWN as int),
        cooldowns_last(
            fired,
            discovery_proposals(graph, host, later, ctx),
            now,
            later,
            DISCOVERY_COOLDOWN as int,
        ),
    ensures
        ({
            let first = discovery_proposals(graph, host, now, ctx);
            let second = discovery_proposals(graph, host, later, ctx);
            let after = admitted(fired, first, now, DISCOVERY_COOLDOWN as int).0;
            admitted(after, second, later, DISCOVERY_COOLDOWN as int) == (
                after,
                Seq::<AlertView>::empty(),
            )
        }),
{
    let first = discovery_proposals(graph, host, now, ctx);
    let second = discovery_proposals(graph, host, later, ctx);
    let cutoff = now.moved(-DISCOVERY_WINDOW as int);
    let later_cutoff = later.moved(-DISCOVERY_WINDOW as int);
    let items = graph.ids_of(NodeType::User);
    let rule = discovery_of_node(graph, host, now, cutoff, ctx);
    let later_rule = discovery_of_node(graph, host, later, later_cutoff, ctx);
    assert forall|x| single_alternatives(#[trigger] rule(x)) by {}
    flat_singles(items, rule);
    singles_have_one_key(first);
    assert forall|x| keys_among(#[trigger] later_rule(x), rule(x)) by {
        actions_run_out(graph, cutoff, later_cutoff, x);
        single_keys_among(later_rule(x), rule(x));
    }
    flat_keys_among(items, later_rule, items, rule);
    repetition_is_silent(fired, first, second, now, later, DISCOVERY_COOLDOWN as int);
}

/// A user that [`detect_discovery_burst_calibrated`] reported is not reported again within 1800
/// seconds, whatever happens on the host in between.
pub proof fn discovery_burst_reports_are_not_repeated(
    graph: KnowledgeGraph,
    grown: KnowledgeGraph,
    host: Seq<char>,
    now: Instant,
    later: Instant,
    fired: Fired,
    ctx: CalibrationContext,
)
    requires
        in_window(now, later, DISCOVERY_COOLDOWN as int),
    ensures
        ({
            let first = discovery_proposals(graph, host, now, ctx);
            let second = discovery_proposals(grown, host, later, ctx);
            let (after, alerts) = admitted(fired, first, now, DISCOVERY_COOLDOWN as int);
            no_key_again(alerts, admitted(after, second, later, DISCOVERY_COOLDOWN as int).1)
        }),
{
    no_key_fires_again_within_its_cooldown(
        fired,
        discovery_proposals(graph, host, now, ctx),
        discovery_proposals(grown, host, later, ctx),
        now,
        later,
        DISCOVERY_COOLDOWN as int,
    );
}

/// A second run of [`detect_proto_anomaly_aggregated`] on the same graph within 600 seconds reports
/// nothing, unless the cooldown of an older report ends in between. No edge may be younger in the
/// second run, which none is outside leap seconds.
pub proof fn repeated_proto_anomaly_is_silent(
    graph: KnowledgeGraph,
    host: Seq<char>,
    now: Instant,
    later: Instant,
    fired: Fired,
)
    requires
        edges_age(graph, now, later),
        in_window(now, later, PROTO_COOLDOWN as int),
        cooldowns_last(
            fired,
            proto_anomaly_proposals(graph, host, later),
            now,
            later,
            PROTO_COOLDOWN as int,
        ),
    ensures
        ({
            let first = proto_anomaly_proposals(graph, host, now);
            let second = proto_anomaly_proposals(graph, host, later);
            let after = admitted(fired, first, now, PROTO_COOLDOWN as int).0;
            admitted(after, second, later, PROTO_COOLDOWN as int) == (
                after,
                Seq::<AlertView>::empty(),
            )
        }),
{
    let first = proto_anomaly_proposals(graph, host, now);
    let second = proto_anomaly_proposals(graph, host, later);
    let items = graph.ids_of(NodeType::Ip);
    let rule = proto_anomaly_of_node(graph, host, now);
    let later_rule = proto_anomaly_of_node(graph, host, later);
    assert forall|x| single_alternatives(#[trigger] rule(x)) by {}
    flat_singles(items, rule);
    singles_have_one_key(first);
    assert forall|x| keys_among(#[trigger] later_rule(x), rule(x)) by {
        windows_move_on(graph, leaves(x), Relation::ConnectedTo, now, later, PROTO_WINDOW as int);
        narrower_filters_keep_fewer(
            graph.outgoing(x),
            windowed(Relation::ConnectedTo, later, PROTO_WINDOW as int),
            windowed(Relation::ConnectedTo, now, PROTO_WINDOW as int),
            anomalous(),
        );
        single_keys_among(later_rule(x), rule(x));
    }
    flat_keys_among(items, later_rule, items, rule);
    repetition_is_silent(fired, first, second, now, later, PROTO_COOLDOWN as int);
}

/// An address that [`detect_proto_anomaly_aggregated`] reported is not reported again within 600
/// seconds, whatever happens on the host in between.
pub proof fn proto_anomaly_reports_are_not_repeated(
    graph: KnowledgeGraph,
    grown: KnowledgeGraph,
    host: Seq<char>,
    now: Instant,
    later: Instant,
    fired: Fired,
)
    requires
        in_window(now, later, PROTO_COOLDOWN as int),
    ensures
        ({
            let first = proto_anomaly_proposals(graph, host, now);
            let second = proto_anomaly_proposals(grown, host, later);
            let (after, alerts) = admitted(fired, first, now, PROTO_COOLDOWN as int);
            no_key_again(alerts, admitted(after, second, later, PROTO_COOLDOWN as int).1)
        }),
{
    no_key_fires_again_within_its_cooldown(
        fired,
        proto_anomaly_proposals(graph, host, now),
        proto_anomaly_proposals(grown, host, later),
        now,
        later,
        PROTO_COOLDOWN as int,
    );
}

/// A second run of [`detect_port_scan`] on the same graph within 600 seconds reports nothing,
/// unless the cooldown of an older report ends in between. No edge may be younger in the second
/// run, which none is outside leap seconds.
pub proof fn repeated_port_scan_is_silent(
    graph: KnowledgeGraph,
    host: Seq<char>,
    now: Instant,
    later: Instant,
    fired: Fired,
)
    requires
        edges_age(graph, now, later),
        in_window(now, later, PORT_SCAN_COOLDOWN as int),
        cooldowns_last(
            fired,
            port_scan_proposals(graph, host, later),
            now,
            later,
            PORT_SCAN_COOLDOWN as int,
        ),
    ensures
        ({
            let first = port_scan_proposals(graph, host, now);
            let second = port_scan_proposals(graph, host, later);
            let after = admitted(fired, first, now, PORT_SCAN_COOLDOWN as int).0;
            admitted(after, second, later, PORT_SCAN_COOLDOWN as int) == (
                after,
                Seq::<AlertView>::empty(),
            )
        }),
{
    let first = port_scan_proposals(graph, host, now);
    let second = port_scan_proposals(graph, host, later);
    let items = graph.ids_of(NodeType::Ip);
    let rule = port_scan_of_node(graph, host, now);
    let later_rule = port_scan_of_node(graph, host, later);
    assert forall|x| single_alternatives(#[trigger] rule(x)) by {}
    flat_singles(items, rule);
    singles_have_one_key(first);
    assert forall|x| keys_among(#[trigger] later_rule(x), rule(x)) by {
        windows_move_on(graph, leaves(x), Relation::ScannedPort, now, later, PORT_SCAN_WINDOW as int);
        let less = windowed(Relation::ScannedPort, later, PORT_SCAN_WINDOW as int);
        let more = windowed(Relation::ScannedPort, now, PORT_SCAN_WINDOW as int);
        narrower_filters_keep_some(graph.outgoing(x), less, more);
        fewer_edges_have_fewer_ends(
            graph.outgoing(x).filter(less),
            graph.outgoing(x).filter(more),
        );
        single_keys_among(later_rule(x), rule(x));
    }
    flat_keys_among(items, later_rule, items, rule);
    repetition_is_silent(fired, first, second, now, later, PORT_SCAN_COOLDOWN as int);
}

/// An address that [`detect_port_scan`] reported is not reported again within 600 seconds,
/// whatever happens on the host in between.
pub proof fn port_scan_reports_are_not_repeated(
    graph: KnowledgeGraph,
    grown: KnowledgeGraph,
    host: Seq<char>,
    now: Instant,
    later: Instant,
    fired: Fired,
)
    requires
        in_window(now, later, PORT_SCAN_COOLDOWN as int),
    ensures
        ({
            let first = port_scan_proposals(graph, host, now);
            let second = port_scan_proposals(grown, host, later);
            let (after, alerts) = admitted(fired, first, now, PORT_SCAN_COOLDOWN as int);
            no_key_again(alerts, admitted(after, second, later, PORT_SCAN_COOLDOWN as int).1)
        }),
{
    no_key_fires_again_within_its_cooldown(
        fired,
        port_scan_proposals(graph, host, now),
        port_scan_proposals(grown, host, later),
        now,
        later,
        PORT_SCAN_COOLDOWN as int,
    );
}

/// A second run of [`detect_credential_stuffing`] on the same graph within 600 seconds reports
/// nothing, unless the cooldown of an older report ends in between. No edge may be younger in the
/// second run, which none is outside leap seconds.
pub proof fn repeated_credential_stuffing_is_silent(
    graph: KnowledgeGraph,
    host: Seq<char>,
    now: Instant,
    later: Instant,
    fired: Fired,
)
    requires
        edges_age(graph, now, later),
        in_window(now, later, STUFFING_COOLDOWN as int),
        cooldowns_last(
            fired,
            credential_stuffing_proposals(graph, host, later),
            now,
            later,
            STUFFING_COOLDOWN as int,
        ),
    ensures
        ({
            let first = credential_stuffing_proposals(graph, host, now);
            let second = credential_stuffing_proposals(graph, host, later);
            let after = admitted(fired, first, now, STUFFING_COOLDOWN as int).0;
            admitted(after, second, later, STUFFING_COOLDOWN as int) == (
                after,
                Seq::<AlertView>::empty(),
            )
        }),
{
    let first = credential_stuffing_proposals(graph, host, now);
    let second = credential_stuffing_proposals(graph, host, later);
    let items = graph.ids_of(NodeType::Ip);
    let rule = credential_stuffing_of_node(graph, host, now);
    let later_rule = credential_stuffing_of_node(graph, host, later);
    assert forall|x| single_alternatives(#[trigger] rule(x)) by {}
    flat_singles(items, rule);
    singles_have_one_key(first);
    assert forall|x| keys_among(#[trigger] later_rule(x), rule(x)) by {
        windows_move_on(graph, reaches(x), Relation::LoggedInFrom, now, later, STUFFING_WINDOW as int);
        let less = windowed(Relation::LoggedInFrom, later, STUFFING_WINDOW as int);
        let more = windowed(Relation::LoggedInFrom, now, STUFFING_WINDOW as int);
        narrower_filters_keep_some(graph.incoming(x), less, more);
        fewer_edges_have_fewer_ends(
            graph.incoming(x).filter(less),
            graph.incoming(x).filter(more),
        );
        distinct_keeps_each_node_once(sources(graph.incoming(x).filter(less)));
        distinct_keeps_each_node_once(sources(graph.incoming(x).filter(more)));
        single_keys_among(later_rule(x), rule(x));
    }
    flat_keys_among(items, later_rule, items, rule);
    repetition_is_silent(fired, first, second, now, later, STUFFING_COOLDOWN as int);
}

/// An address that [`detect_credential_stuffing`] reported is not reported again within 600
/// seconds, whatever happens on the host in between.
pub proof fn credential_stuffing_reports_are_not_repeated(
    graph: KnowledgeGraph,
    grown: KnowledgeGraph,
    host: Seq<char>,
    now: Instant,
    later: Instant,
    fired: Fired,
)
    requires
        in_window(now, later, STUFFING_COOLDOWN as int),
    ensures
        ({
            let first = credential_stuffing_proposals(graph, host, now);
            let second = credential_stuffing_proposals(grown, host, later);
            let (after, alerts) = admitted(fired, first, now, STUFFING_COOLDOWN as int);
            no_key_again(alerts, admitted(after, second, later, STUFFING_COOLDOWN as int).1)
        }),
{
    no_key_fires_again_within_its_cooldown(
        fired,
        credential_stuffing_proposals(graph, host, now),
        credential_stuffing_proposals(grown, host, later),
        now,
        later,
        STUFFING_COOLDOWN as int,
    );
}

/// A second run of [`detect_scanner_ua`] on the same graph within 600 seconds
/// reports nothing, unless the cooldown of an older report ends in between.
pub proof fn repeated_scanner_ua_is_silent(
    graph: KnowledgeGraph,
    host: Seq<char>,
    now: Instant,
    later: Instant,
    fired: Fired,
)
    requires
        in_window(now, later, SCANNER_COOLDOWN as int),
        cooldowns_last(
            fired,
            scanner_ua_proposals(graph, host, later),
            now,
            later,
            SCANNER_COOLDOWN as int,
        ),
    ensures
        ({
            let first = scanner_ua_proposals(graph, host, now);
            let second = scanner_ua_proposals(graph, host, later);
            let after = admitted(fired, first, now, SCANNER_COOLDOWN as int).0;
            admitted(after, second, later, SCANNER_COOLDOWN as int) == (
                after,
                Seq::<AlertView>::empty(),
            )
        }),
{
    let first = scanner_ua_proposals(graph, host, now);
    let second = scanner_ua_proposals(graph, host, later);
    let ids = graph.ids_of(NodeType::Ip);
    let rule = scanner_ua_of_node(graph, host, now);
    let later_rule = scanner_ua_of_node(graph, host, later);
    assert forall|x|
        single_alternatives(#[trigger] rule(x)) && keys_among(later_rule(x), rule(x)) by {
        match graph.node(x) {
            Some(Node { kind: NodeKind::Ip { addr, is_internal: false, .. }, .. }) => {
                let edges = graph.outgoing(x);
                let edge_rule = scanner_ua_of_edge(host, now, addr@);
                let later_edge_rule = scanner_ua_of_edge(host, later, addr@);
                assert forall|e| single_alternatives(#[trigger] edge_rule(e)) by {}
                flat_singles(edges, edge_rule);
                assert forall|e| keys_among(#[trigger] later_edge_rule(e), edge_rule(e)) by {
                    single_keys_among(later_edge_rule(e), edge_rule(e));
                }
                flat_keys_among(edges, later_edge_rule, edges, edge_rule);
            },
            _ => {},
        }
    }
    flat_singles(ids, rule);
    singles_have_one_key(first);
    assert forall|x| keys_among(#[trigger] later_rule(x), rule(x)) by {
        assert(single_alternatives(rule(x)));
    }
    flat_keys_among(ids, later_rule, ids, rule);
    repetition_is_silent(fired, first, second, now, later, SCANNER_COOLDOWN as int);
}

/// Addresses of the own network are never reported: nothing is proposed of them.
pub proof fn internal_addresses_are_never_reported(
    graph: KnowledgeGraph,
    host: Seq<char>,
    now: Instant,
    id: NodeId,
)
    requires
        graph.node(id) matches Some(Node { kind: NodeKind::Ip { is_internal: true, .. }, .. }),
    ensures
        proto_anomaly_of_node(graph, host, now)(id) == Seq::<Seq<AlertView>>::empty(),
        port_scan_of_node(graph, host, now)(id) == Seq::<Seq<AlertView>>::empty(),
        credential_stuffing_of_node(graph, host, now)(id) == Seq::<Seq<AlertView>>::empty(),
        scanner_ua_of_node(graph, host, now)(id) == Seq::<Seq<AlertView>>::empty(),
{
}

/// No burst goes unseen: a user whose actions reach the limit of unknown users is either proposed
/// for a report or counted as held back because of its class, and never both. A user below that
/// limit is neither.
pub proof fn bursts_are_reported_or_counted(
    graph: KnowledgeGraph,
    host: Seq<char>,
    now: Instant,
    ctx: CalibrationContext,
    id: NodeId,
)
    requires
        graph.node(id) matches Some(Node { kind: NodeKind::User { .. }, .. }),
    ensures
        ({
            let cutoff = now.moved(-DISCOVERY_WINDOW as int);
            let proposed = discovery_of_node(graph, host, now, cutoff, ctx)(id);
            let counted = suppressed_class_of_node(graph, cutoff, ctx)(id);
            proposed.len() + counted.len() == if discovery_actions(graph, cutoff, id)
                >= DISCOVERY_THRESHOLD {
                1nat
            } else {
                0nat
            }
        }),
{
}

/// The burst of an unknown user is never held back, and that of a service is never graver than
/// medium, however many actions it has.
pub proof fn unknown_users_are_never_held_back(
    graph: KnowledgeGraph,
    cutoff: Instant,
    ctx: CalibrationContext,
    id: NodeId,
    total: nat,
)
    ensures
        !suppressed_class_of_node(graph, cutoff, ctx)(id).contains(UserClass::Unknown),
        discovery_severity(UserClass::Service, total) == Severity::Medium,
{
}

/// What a filter keeps of a list is no longer than the list.
proof fn filter_is_shorter<A>(items: Seq<A>, wanted: spec_fn(A) -> bool)
    ensures
        items.filter(wanted).len() <= items.len(),
{
    items.lemma_filter_len(wanted);
}

/// What a rule that makes at most `most` of each item makes of a list.
proof fn flat_is_bounded<A, B>(items: Seq<A>, rule: spec_fn(A) -> Seq<B>, most: nat)
    requires
        forall|x: A| (#[trigger] rule(x)).len() <= most,
    ensures
        items.flat_map(rule).len() <= items.len() * most,
    decreases items.len(),
{
    if items.len() > 0 {
        let front = items.drop_last();
        flat_is_bounded(front, rule, most);
        front.lemma_flat_map_push(rule, items.last());
        assert(front.push(items.last()) =~= items);
        assert(rule(items.last()).len() <= most);
        assert(items.len() * most == front.len() * most + most) by (nonlinear_arith)
            requires
                items.len() == front.len() + 1,
        ;
    }
}

/// The actions of all users can be counted where the square of the number of edges, and the edges
/// themselves, fit in a machine word.
pub proof fn small_graphs_are_countable(graph: KnowledgeGraph, cutoff: Instant)
    requires
        graph.edges@.len() * graph.edges@.len() + graph.edges@.len() <= usize::MAX,
    ensures
        actions_countable(graph, cutoff),
{
    let edges = graph.edges@.len();
    assert forall|id: NodeId| #[trigger] discovery_actions(graph, cutoff, id) <= usize::MAX by {
        filter_is_shorter(graph.edges@, reaches(id));
        filter_is_shorter(graph.incoming(id), since_cutoff(Relation::RunAs, cutoff));
        let rule = reads_of(graph, cutoff);
        assert forall|x: NodeId| (#[trigger] rule(x)).len() <= edges by {
            filter_is_shorter(graph.edges@, leaves(x));
            filter_is_shorter(graph.outgoing(x), sensitive_read(graph, cutoff));
        }
        let processes = run_as(graph, cutoff, id);
        flat_is_bounded(processes, rule, edges);
        assert(processes.len() * edges <= edges * edges) by (nonlinear_arith)
            requires
                processes.len() <= edges,
        ;
    }
}

/// A class stands in a list no more often than the list is long.
proof fn times_is_bounded(classes: Seq<UserClass>, class: UserClass)
    ensures
        times(classes, class) <= classes.len(),
    decreases classes.len(),
{
    if classes.len() > 0 {
        times_is_bounded(classes.drop_last(), class);
    }
}

/// One run holds back at most one alert for each node of the graph.
pub proof fn a_node_is_held_back_once(
    graph: KnowledgeGraph,
    now: Instant,
    ctx: CalibrationContext,
    class: UserClass,
)
    ensures
        times(discovery_suppressions(graph, now, ctx), class) <= graph.nodes@.len(),
{
    let cutoff = now.moved(-DISCOVERY_WINDOW as int);
    let rule = suppressed_class_of_node(graph, cutoff, ctx);
    filter_is_shorter(graph.ids(), graph.is_of_type(NodeType::User));
    assert forall|x: NodeId| (#[trigger] rule(x)).len() <= 1 by {}
    flat_is_bounded(graph.ids_of(NodeType::User), rule, 1);
    times_is_bounded(discovery_suppressions(graph, now, ctx), class);
}

/// A connection of a process to an address that a dataset lists is reported, unless a report of
/// that address in that dataset is less than 300 seconds old.
pub proof fn listed_addresses_are_reported(
    graph: KnowledgeGraph,
    host: Seq<char>,
    now: Instant,
    fired: Fired,
    e: int,
    datasets: Seq<String>,
    d: int,
)
    requires
        0 <= e < graph.edges@.len(),
        graph.edges@[e].relation == Relation::ConnectedTo,
        graph.node(graph.edges@[e].from) matches Some(
            Node { kind: NodeKind::Process { .. }, .. },
        ),
        graph.node(graph.edges@[e].to) matches Some(
            Node { kind: NodeKind::Ip { datasets: listing, .. }, .. },
        ) && listing@ == datasets,
        0 <= d < datasets.len(),
        !cooling(
            fired,
            "graph_ti:"@ + decimal(graph.edges@[e].to as nat) + ":"@ + datasets[d]@,
            now,
            THREAT_INTEL_COOLDOWN as int,
        ),
    ensures
        keys_of(
            admitted(
                fired,
                threat_intel_proposals(graph, host, now),
                now,
                THREAT_INTEL_COOLDOWN as int,
            ).1,
        ).contains("graph_ti:"@ + decimal(graph.edges@[e].to as nat) + ":"@ + datasets[d]@),
{
    let edge = graph.edges@[e];
    let hit = ThreatHitView { process: edge.from, ip: edge.to, dataset: datasets[d]@ };
    let rule = threat_intel_of_hit(graph, host, now);
    assert(graph.hits_of_edge()(edge)[d] == hit);
    flat_map_holds(graph.edges@, graph.hits_of_edge(), edge, hit);
    let alert = rule(hit)[0][0];
    assert(rule(hit)[0] =~= seq![alert]);
    proposed_alerts_fire(
        fired,
        graph.hits(),
        rule,
        hit,
        alert,
        now,
        THREAT_INTEL_COOLDOWN as int,
    );
}

/// A user whose actions reach the limit of its class is reported, unless a report of that user is
/// less than 1800 seconds old.
pub proof fn discovery_bursts_are_reported(
    graph: KnowledgeGraph,
    host: Seq<char>,
    now: Instant,
    fired: Fired,
    ctx: CalibrationContext,
    id: NodeId,
    name: Seq<char>,
)
    requires
        graph.node(id) matches Some(Node { kind: NodeKind::User { name: n }, .. }) && n@ == name,
        discovery_actions(graph, now.moved(-DISCOVERY_WINDOW as int), id) >= discovery_limit(
            ctx.class_of(name),
        ),
        !cooling(fired, "graph_discovery:"@ + name, now, DISCOVERY_COOLDOWN as int),
    ensures
        keys_of(
            admitted(
                fired,
                discovery_proposals(graph, host, now, ctx),
                now,
                DISCOVERY_COOLDOWN as int,
            ).1,
        ).contains("graph_discovery:"@ + name),
{
    let cutoff = now.moved(-DISCOVERY_WINDOW as int);
    let rule = discovery_of_node(graph, host, now, cutoff, ctx);
    let alert = rule(id)[0][0];
    nodes_are_listed(graph, NodeType::User, id);
    assert(rule(id)[0] =~= seq![alert]);
    proposed_alerts_fire(
        fired,
        graph.ids_of(NodeType::User),
        rule,
        id,
        alert,
        now,
        DISCOVERY_COOLDOWN as int,
    );
}

/// An outside address with five or more anomalous connections, or twenty or more of any kind, in
/// the last five minutes is reported, unless a report of that address is less than 600 seconds old.
pub proof fn proto_anomalies_are_reported(
    graph: KnowledgeGraph,
    host: Seq<char>,
    now: Instant,
    fired: Fired,
    id: NodeId,
    addr: Seq<char>,
)
    requires
        graph.node(id) matches Some(
            Node { kind: NodeKind::Ip { addr: a, is_internal: false, .. }, .. },
        ) && a@ == addr,
        recent_connections(graph, now, id).filter(anomalous()).len() >= PROTO_ANOMALIES
            || recent_connections(graph, now, id).len() >= PROTO_CONNECTIONS,
        !cooling(fired, "graph_proto_agg:"@ + addr, now, PROTO_COOLDOWN as int),
    ensures
        keys_of(
            admitted(fired, proto_anomaly_proposals(graph, host, now), now, PROTO_COOLDOWN as int).1,
        ).contains("graph_proto_agg:"@ + addr),
{
    let rule = proto_anomaly_of_node(graph, host, now);
    let alert = rule(id)[0][0];
    nodes_are_listed(graph, NodeType::Ip, id);
    assert(rule(id)[0] =~= seq![alert]);
    proposed_alerts_fire(
        fired,
        graph.ids_of(NodeType::Ip),
        rule,
        id,
        alert,
        now,
        PROTO_COOLDOWN as int,
    );
}

/// An outside address that probed ten or more different ports in the last minute is reported,
/// unless a report of that address is less than 600 seconds old.
pub proof fn port_scans_are_reported(
    graph: KnowledgeGraph,
    host: Seq<char>,
    now: Instant,
    fired: Fired,
    id: NodeId,
    addr: Seq<char>,
)
    requires
        graph.node(id) matches Some(
            Node { kind: NodeKind::Ip { addr: a, is_internal: false, .. }, .. },
        ) && a@ == addr,
        probed_ports(graph, now, id).len() >= PORT_SCAN_THRESHOLD,
        !cooling(fired, "graph_portscan:"@ + addr, now, PORT_SCAN_COOLDOWN as int),
    ensures
        keys_of(
            admitted(fired, port_scan_proposals(graph, host, now), now, PORT_SCAN_COOLDOWN as int).1,
        ).contains("graph_portscan:"@ + addr),
{
    let rule = port_scan_of_node(graph, host, now);
    let alert = rule(id)[0][0];
    nodes_are_listed(graph, NodeType::Ip, id);
    assert(rule(id)[0] =~= seq![alert]);
    proposed_alerts_fire(
        fired,
        graph.ids_of(NodeType::Ip),
        rule,
        id,
        alert,
        now,
        PORT_SCAN_COOLDOWN as int,
    );
}

/// An outside address from which logins as five or more users were tried in the last five minutes
/// is reported, unless a report of that address is less than 600 seconds old.
pub proof fn credential_stuffing_is_reported(
    graph: KnowledgeGraph,
    host: Seq<char>,
    now: Instant,
    fired: Fired,
    id: NodeId,
    addr: Seq<char>,
)
    requires
        graph.node(id) matches Some(
            Node { kind: NodeKind::Ip { addr: a, is_internal: false, .. }, .. },
        ) && a@ == addr,
        tried_users(graph, now, id).len() >= STUFFING_THRESHOLD,
        !cooling(fired, "graph_credstuff:"@ + addr, now, STUFFING_COOLDOWN as int),
    ensures
        keys_of(
            admitted(fired, credential_stuffing_proposals(graph, host, now), now, STUFFING_COOLDOWN as int).1,
        ).contains("graph_credstuff:"@ + addr),
{
    let rule = credential_stuffing_of_node(graph, host, now);
    let alert = rule(id)[0][0];
    nodes_are_listed(graph, NodeType::Ip, id);
    assert(rule(id)[0] =~= seq![alert]);
    proposed_alerts_fire(
        fired,
        graph.ids_of(NodeType::Ip),
        rule,
        id,
        alert,
        now,
        STUFFING_COOLDOWN as int,
    );
}

/// A request from an outside address whose user agent names a scanner is reported, unless a report
/// of that scanner at that address is less than 600 seconds old.
pub proof fn scanners_are_reported(
    graph: KnowledgeGraph,
    host: Seq<char>,
    now: Instant,
    fired: Fired,
    e: int,
    addr: Seq<char>,
    scanner: Seq<char>,
)
    requires
        0 <= e < graph.edges@.len(),
        graph.edges@[e].relation == Relation::HttpRequestTo,
        graph.node(graph.edges@[e].from) matches Some(
            Node { kind: NodeKind::Ip { addr: a, is_internal: false, .. }, .. },
        ) && a@ == addr,
        first_part(lowercase(user_agent_of(graph.edges@[e])), scanner_names()) == Some(scanner),
        !cooling(
            fired,
            "graph_scanner:"@ + addr + ":"@ + scanner,
            now,
            SCANNER_COOLDOWN as int,
        ),
    ensures
        keys_of(
            admitted(fired, scanner_ua_proposals(graph, host, now), now, SCANNER_COOLDOWN as int).1,
        ).contains("graph_scanner:"@ + addr + ":"@ + scanner),
{
    let edge = graph.edges@[e];
    let id = edge.from;
    let rule = scanner_ua_of_node(graph, host, now);
    let edge_rule = scanner_ua_of_edge(host, now, addr);
    let alert = scanner_ua_alert(host, now, addr, scanner, user_agent_of(edge));
    nodes_are_listed(graph, NodeType::Ip, id);
    edges_leave_their_source(graph, e);
    assert(edge_rule(edge)[0] == seq![alert]);
    flat_map_holds(graph.outgoing(id), edge_rule, edge, seq![alert]);
    proposed_alerts_fire(
        fired,
        graph.ids_of(NodeType::Ip),
        rule,
        id,
        alert,
        now,
        SCANNER_COOLDOWN as int,
    );
}

} // verus!
