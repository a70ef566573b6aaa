//! What the detectors of [`recon`](crate::recon) report, in terms of what happened on the host:
//! each report has a cause in the graph and says what it was, and no cause goes without a report.

use crate::alert::{an_alert_has_an_item, flat_map_origin, keys_of, Fired};
use crate::calibration::{CalibrationContext, UserClass};
use crate::graph::{
    an_outgoing_edge_is_there, distinct_keeps_each_node_once, leaves, reaches, sources, targets,
    two_filters_are_one, windowed, Edge, KnowledgeGraph, Node, NodeId, NodeKind, NodeType, Relation,
};
use crate::incident::{EntityKind, EntityView, Severity};
use crate::persistence_laws::{counted, fired_within, has_text, shown};
use crate::recon::{
    anomalous, credential_stuffing_is_reported, credential_stuffing_of_node,
    credential_stuffing_run, discovery_bursts_are_reported, discovery_of_node, discovery_reads,
    discovery_run, discovery_runs, discovery_suppressions, first_labels, label_if_known,
    listed_addresses_are_reported, port_scan_of_node, port_scan_run, port_scans_are_reported,
    probed_ports, proto_anomalies_are_reported, proto_anomaly_of_node, proto_anomaly_run, reads_of,
    recent_connections, scanner_names, scanner_ua_of_edge, scanner_ua_of_node, scanner_ua_run,
    scanners_are_reported, sensitive_read, since_cutoff, suppressed_class_of_node,
    threat_intel_of_hit, threat_intel_run, times, tried_users, user_agent_of,
};
use crate::record::{FieldView, ValueView};
use crate::text::{decimal, has_part, joined, lowercase, signed_decimal, texts};
use crate::text_laws::{
    a_beginning_can_be_taken_away, a_chosen_part_is_the_first, the_first_part_is_chosen,
};
use crate::time::Instant;
use vstd::prelude::*;

verus! {

broadcast use vstd::seq_lib::group_seq_properties;

// ---------------------------------------------------------------------------
// Contacts with listed addresses
// ---------------------------------------------------------------------------

/// Every report of [`detect_threat_intel`](crate::recon::detect_threat_intel) has a cause: a
/// process connected to an address that a dataset lists. The report names the process, the address
/// and the dataset, and was not held back by one on the same address and dataset.
pub proof fn threat_intel_reports_have_a_cause(
    graph: KnowledgeGraph,
    host: Seq<char>,
    now: Instant,
    fired: Fired,
    i: int,
) -> (cause: (int, int))
    requires
        0 <= i < threat_intel_run(fired, graph, host, now).1.len(),
    ensures
        0 <= cause.0 < graph.edges@.len(),
        ({
            let alert = threat_intel_run(fired, graph, host, now).1[i];
            let report = alert.incident;
            let contact = graph.edges@[cause.0];
            let process = graph.nodes@[contact.from as int];
            let ip = graph.nodes@[contact.to as int];
            let label = process.label@;
            let addr = ip.kind->addr@;
            let dataset = ip.kind->datasets@[cause.1]@;
            &&& contact.relation == Relation::ConnectedTo
            &&& contact.from < graph.nodes@.len() && process.kind is Process
            &&& contact.to < graph.nodes@.len() && ip.kind is Ip
            &&& 0 <= cause.1 < ip.kind->datasets@.len()
            &&& alert.key == "graph_ti:"@ + decimal(contact.to as nat) + ":"@ + dataset
            &&& !fired_within(fired, alert.key, now, 300)
            &&& report.ts == now
            &&& report.host == host
            &&& report.incident_id == "graph_threat_intel:"@ + addr + ":"@ + signed_decimal(
                now.secs,
            )
            &&& report.severity == Severity::High
            &&& report.title == "Threat intel match: "@ + label + " → "@ + addr + " ("@ + dataset
                + ")"@
            &&& report.summary == "Process "@ + label + " connected to IP "@ + addr
                + " which is in threat dataset '"@ + dataset + "'."@
            &&& report.evidence == seq![
                shown("source"@, "knowledge_graph"@), shown("detector"@, "graph_threat_intel"@),
                shown("process"@, label), shown("ip"@, addr), shown("dataset"@, dataset),
            ]
            &&& report.recommended_checks == seq![
                "Check process "@ + label, "Investigate IP "@ + addr + " in threat feeds"@,
            ]
            &&& report.tags == seq!["T1071"@]
            &&& report.entities == seq![(EntityView { kind: EntityKind::Ip, value: addr })]
        }),
{
    let rule = threat_intel_of_hit(graph, host, now);
    let hits = graph.hits();
    let at = an_alert_has_an_item(fired, hits, rule, now, 300, i);
    let hit = hits[at.0];
    let e = flat_map_origin(graph.edges@, graph.hits_of_edge(), at.0);
    let here = graph.hits_of_edge()(graph.edges@[e]);
    let d = choose|d: int| 0 <= d < here.len() && here[d] == hit;
    (e, d)
}

/// Every connection of a process to an address that a dataset lists is reported, unless a report of
/// that address in that dataset is less than 300 seconds old.
pub proof fn contacts_lead_to_reports(
    graph: KnowledgeGraph,
    host: Seq<char>,
    now: Instant,
    fired: Fired,
    e: int,
    d: int,
) -> (report: int)
    requires
        0 <= e < graph.edges@.len(),
        graph.edges@[e].relation == Relation::ConnectedTo,
        graph.edges@[e].from < graph.nodes@.len(),
        graph.nodes@[graph.edges@[e].from as int].kind is Process,
        graph.edges@[e].to < graph.nodes@.len(),
        graph.nodes@[graph.edges@[e].to as int].kind is Ip,
        0 <= d < graph.nodes@[graph.edges@[e].to as int].kind->datasets@.len(),
        !fired_within(
            fired,
            "graph_ti:"@ + decimal(graph.edges@[e].to as nat) + ":"@
                + graph.nodes@[graph.edges@[e].to as int].kind->datasets@[d]@,
            now,
            300,
        ),
    ensures
        ({
            let alerts = threat_intel_run(fired, graph, host, now).1;
            let dataset = graph.nodes@[graph.edges@[e].to as int].kind->datasets@[d]@;
            &&& 0 <= report < alerts.len()
            &&& alerts[report].key == "graph_ti:"@ + decimal(graph.edges@[e].to as nat) + ":"@
                + dataset
            &&& alerts[report].incident.severity == Severity::High
        }),
{
    let datasets = graph.nodes@[graph.edges@[e].to as int].kind->datasets@;
    assert(graph.node(graph.edges@[e].from) == Some(
        graph.nodes@[graph.edges@[e].from as int],
    ));
    assert(graph.node(graph.edges@[e].to) == Some(graph.nodes@[graph.edges@[e].to as int]));
    listed_addresses_are_reported(graph, host, now, fired, e, datasets, d);
    let alerts = threat_intel_run(fired, graph, host, now).1;
    let key = "graph_ti:"@ + decimal(graph.edges@[e].to as nat) + ":"@ + datasets[d]@;
    let report = choose|report: int|
        0 <= report < keys_of(alerts).len() && keys_of(alerts)[report] == key;
    let _ = threat_intel_reports_have_a_cause(graph, host, now, fired, report);
    report
}

// ---------------------------------------------------------------------------
// Bursts of discovery
// ---------------------------------------------------------------------------

/// A process ran as the user at `id` at `cutoff` or later.
pub open spec fn run_of(id: NodeId, cutoff: Instant) -> spec_fn(Edge) -> bool {
    |e: Edge| e.to == id && e.relation == Relation::RunAs && !e.ts@.before(cutoff)
}

/// The process at `id` read a sensitive file at `cutoff` or later.
pub open spec fn sensitive_read_of(
    graph: KnowledgeGraph,
    id: NodeId,
    cutoff: Instant,
) -> spec_fn(Edge) -> bool {
    |e: Edge|
        {
            &&& e.from == id
            &&& e.relation == Relation::Read
            &&& !e.ts@.before(cutoff)
            &&& e.to < graph.nodes@.len()
            &&& graph.nodes@[e.to as int].kind is File
            &&& graph.nodes@[e.to as int].kind->is_sensitive
        }
}

/// How often the processes of some runs read a sensitive file, each run counted for itself.
pub open spec fn reads_in(graph: KnowledgeGraph, runs: Seq<Edge>, cutoff: Instant) -> nat
    decreases runs.len(),
{
    if runs.len() == 0 {
        0
    } else {
        reads_in(graph, runs.drop_last(), cutoff) + graph.edges@.filter(
            sensitive_read_of(graph, runs.last().from, cutoff),
        ).len()
    }
}

/// Counting the runs.
proof fn runs_are_counted(graph: KnowledgeGraph, cutoff: Instant, id: NodeId)
    ensures
        graph.incoming(id).filter(since_cutoff(Relation::RunAs, cutoff)) == graph.edges@.filter(
            run_of(id, cutoff),
        ),
        discovery_runs(graph, cutoff, id) == graph.edges@.filter(run_of(id, cutoff)).len(),
{
    let late = since_cutoff(Relation::RunAs, cutoff);
    let both = run_of(id, cutoff);
    assert forall|e: Edge| #[trigger] both(e) == (reaches(id)(e) && late(e)) by {}
    two_filters_are_one(graph.edges@, reaches(id), late, both);
}

/// Counting the reads of some runs.
proof fn reads_of_runs_are_counted(graph: KnowledgeGraph, runs: Seq<Edge>, cutoff: Instant)
    ensures
        sources(runs).flat_map(reads_of(graph, cutoff)).len() == reads_in(graph, runs, cutoff),
    decreases runs.len(),
{
    let rule = reads_of(graph, cutoff);
    if runs.len() == 0 {
        assert(sources(runs).flat_map(rule) =~= Seq::empty());
    } else {
        let front = runs.drop_last();
        let id = runs.last().from;
        reads_of_runs_are_counted(graph, front, cutoff);
        assert(sources(runs) =~= sources(front).push(id));
        sources(front).lemma_flat_map_push(rule, id);
        let wanted = sensitive_read(graph, cutoff);
        let both = sensitive_read_of(graph, id, cutoff);
        assert forall|e: Edge| #[trigger] both(e) == (leaves(id)(e) && wanted(e)) by {}
        two_filters_are_one(graph.edges@, leaves(id), wanted, both);
        assert(rule(id) == graph.edges@.filter(both));
    }
}

/// Counting the reads.
proof fn reads_are_counted(graph: KnowledgeGraph, cutoff: Instant, id: NodeId)
    ensures
        discovery_reads(graph, cutoff, id) == reads_in(
            graph,
            graph.edges@.filter(run_of(id, cutoff)),
            cutoff,
        ),
{
    runs_are_counted(graph, cutoff, id);
    reads_of_runs_are_counted(graph, graph.edges@.filter(run_of(id, cutoff)), cutoff);
}

/// Every report of
/// [`detect_discovery_burst_calibrated`](crate::recon::detect_discovery_burst_calibrated) has a
/// cause: the runs of processes as the user and their reads of sensitive files in the last minute
/// reach together 15 for `root` and known people, 25 for known services, and 5 for everybody else.
/// The report is grave where they reach twice that and the user is no service. It names the user
/// and says how many there were of each, and was not held back.
pub proof fn discovery_reports_have_a_cause(
    graph: KnowledgeGraph,
    host: Seq<char>,
    now: Instant,
    fired: Fired,
    ctx: CalibrationContext,
    i: int,
) -> (cause: NodeId)
    requires
        0 <= i < discovery_run(fired, graph, host, now, ctx).1.len(),
    ensures
        cause < graph.nodes@.len(),
        ({
            let alert = discovery_run(fired, graph, host, now, ctx).1[i];
            let report = alert.incident;
            let user = graph.nodes@[cause as int];
            let name = user.kind->name@;
            let cutoff = now.moved(-60);
            let runs = graph.edges@.filter(run_of(cause, cutoff)).len();
            let reads = reads_in(graph, graph.edges@.filter(run_of(cause, cutoff)), cutoff);
            let total = runs + reads;
            let is_root = name == "root"@;
            let is_human = !is_root && texts(ctx.human_user_names@).contains(name);
            let is_service = !is_root && !is_human && texts(ctx.service_user_names@).contains(name);
            let limit: nat = if is_root || is_human {
                15
            } else if is_service {
                25
            } else {
                5
            };
            let class = if is_root {
                "root"@
            } else if is_human {
                "human"@
            } else if is_service {
                "service"@
            } else {
                "unknown"@
            };
            &&& user.kind is User
            &&& total >= limit
            &&& report.severity == Severity::High <==> !is_service && total >= 2 * limit
            &&& report.severity == Severity::Medium <==> is_service || total < 2 * limit
            &&& alert.key == "graph_discovery:"@ + name
            &&& !fired_within(fired, alert.key, now, 1800)
            &&& report.ts == now
            &&& report.host == host
            &&& report.incident_id == "graph_discovery_burst:"@ + name + ":"@ + signed_decimal(
                now.secs,
            )
            &&& report.title == "Discovery burst: user "@ + name + " ("@ + decimal(total)
                + " actions in 60s)"@
            &&& report.summary == "User "@ + name + " performed "@ + decimal(runs)
                + " process executions and "@ + decimal(reads)
                + " sensitive file reads in 60 seconds"@
            &&& report.evidence == seq![
                shown("source"@, "knowledge_graph"@), shown("detector"@, "graph_discovery_burst"@),
                shown("user"@, name), shown("user_class"@, class), counted("exec_count"@, runs),
                counted("sensitive_reads"@, reads),
            ]
            &&& report.recommended_checks == seq!["Check for reconnaissance activity"@]
            &&& report.tags == seq!["T1087"@]
            &&& report.entities == seq![(EntityView { kind: EntityKind::User, value: name })]
        }),
{
    let cutoff = now.moved(-60);
    let items = graph.ids_of(NodeType::User);
    let rule = discovery_of_node(graph, host, now, cutoff, ctx);
    let at = an_alert_has_an_item(fired, items, rule, now, 1800, i);
    let id = items[at.0];
    runs_are_counted(graph, cutoff, id);
    reads_are_counted(graph, cutoff, id);
    id
}

/// Every user whose runs and sensitive reads in the last minute reach together the limit of the
/// user is reported, unless a report of the user is less than 1800 seconds old: 15 for `root` and
/// known people, 25 for known services, 5 for everybody else.
pub proof fn discovery_leads_to_reports(
    graph: KnowledgeGraph,
    host: Seq<char>,
    now: Instant,
    fired: Fired,
    ctx: CalibrationContext,
    id: NodeId,
) -> (report: int)
    requires
        id < graph.nodes@.len(),
        graph.nodes@[id as int].kind is User,
        ({
            let name = graph.nodes@[id as int].kind->name@;
            let runs = graph.edges@.filter(run_of(id, now.moved(-60)));
            let total = runs.len() + reads_in(graph, runs, now.moved(-60));
            &&& !fired_within(fired, "graph_discovery:"@ + name, now, 1800)
            &&& {
                ||| total >= 25
                ||| total >= 15 && (name == "root"@ || texts(ctx.human_user_names@).contains(name))
                ||| total >= 15 && !texts(ctx.service_user_names@).contains(name)
                ||| total >= 5 && name != "root"@ && !texts(ctx.human_user_names@).contains(name)
                    && !texts(ctx.service_user_names@).contains(name)
            }
        }),
    ensures
        ({
            let alerts = discovery_run(fired, graph, host, now, ctx).1;
            let name = graph.nodes@[id as int].kind->name@;
            &&& 0 <= report < alerts.len()
            &&& alerts[report].incident.entities == seq![
                (EntityView { kind: EntityKind::User, value: name }),
            ]
        }),
{
    let name = graph.nodes@[id as int].kind->name@;
    let cutoff = now.moved(-60);
    assert(graph.node(id) == Some(graph.nodes@[id as int]));
    runs_are_counted(graph, cutoff, id);
    reads_are_counted(graph, cutoff, id);
    discovery_bursts_are_reported(graph, host, now, fired, ctx, id, name);
    let alerts = discovery_run(fired, graph, host, now, ctx).1;
    let report = choose|report: int|
        0 <= report < keys_of(alerts).len() && keys_of(alerts)[report] == "graph_discovery:"@ + name;
    let cause = discovery_reports_have_a_cause(graph, host, now, fired, ctx, report);
    a_beginning_can_be_taken_away(
        "graph_discovery:"@,
        name,
        graph.nodes@[cause as int].kind->name@,
    );
    report
}

/// The user at `id` is known as a person other than `root` and had 5 to 14 actions in the last
/// minute.
pub open spec fn quiet_person(
    graph: KnowledgeGraph,
    now: Instant,
    ctx: CalibrationContext,
) -> spec_fn(NodeId) -> bool {
    |id: NodeId|
        {
            let runs = graph.edges@.filter(run_of(id, now.moved(-60)));
            let total = runs.len() + reads_in(graph, runs, now.moved(-60));
            &&& id < graph.nodes@.len()
            &&& graph.nodes@[id as int].kind is User
            &&& graph.nodes@[id as int].kind->name@ != "root"@
            &&& texts(ctx.human_user_names@).contains(graph.nodes@[id as int].kind->name@)
            &&& 5 <= total < 15
        }
}

/// The user at `id` is `root` and had 5 to 14 actions in the last minute.
pub open spec fn quiet_root(graph: KnowledgeGraph, now: Instant) -> spec_fn(NodeId) -> bool {
    |id: NodeId|
        {
            let runs = graph.edges@.filter(run_of(id, now.moved(-60)));
            let total = runs.len() + reads_in(graph, runs, now.moved(-60));
            &&& id < graph.nodes@.len()
            &&& graph.nodes@[id as int].kind is User
            &&& graph.nodes@[id as int].kind->name@ == "root"@
            &&& 5 <= total < 15
        }
}

/// The user at `id` is known as a service, not as a person or `root`, and had 5 to 24 actions in
/// the last minute.
pub open spec fn quiet_service(
    graph: KnowledgeGraph,
    now: Instant,
    ctx: CalibrationContext,
) -> spec_fn(NodeId) -> bool {
    |id: NodeId|
        {
            let runs = graph.edges@.filter(run_of(id, now.moved(-60)));
            let total = runs.len() + reads_in(graph, runs, now.moved(-60));
            &&& id < graph.nodes@.len()
            &&& graph.nodes@[id as int].kind is User
            &&& graph.nodes@[id as int].kind->name@ != "root"@
            &&& !texts(ctx.human_user_names@).contains(graph.nodes@[id as int].kind->name@)
            &&& texts(ctx.service_user_names@).contains(graph.nodes@[id as int].kind->name@)
            &&& 5 <= total < 25
        }
}

/// A class stands as often in what a rule makes of a list as the list has items of which the rule
/// makes that class.
proof fn classes_are_counted(
    items: Seq<NodeId>,
    rule: spec_fn(NodeId) -> Seq<UserClass>,
    wanted: spec_fn(NodeId) -> bool,
    class: UserClass,
)
    requires
        forall|x: NodeId| #[trigger] items.contains(x) ==> (if wanted(x) {
            rule(x) == seq![class]
        } else {
            rule(x).len() <= 1 && !rule(x).contains(class)
        }),
    ensures
        times(items.flat_map(rule), class) == items.filter(wanted).len(),
    decreases items.len(),
{
    reveal(Seq::filter);
    if items.len() == 0 {
        assert(items.flat_map(rule) =~= Seq::empty());
    } else {
        let front = items.drop_last();
        let last = items.last();
        assert forall|x: NodeId| #[trigger] front.contains(x) implies (if wanted(x) {
            rule(x) == seq![class]
        } else {
            rule(x).len() <= 1 && !rule(x).contains(class)
        }) by {
            let k = choose|k: int| 0 <= k < front.len() && front[k] == x;
            assert(items[k] == x);
            assert(items.contains(x));
        }
        classes_are_counted(front, rule, wanted, class);
        front.lemma_flat_map_push(rule, last);
        assert(front.push(last) =~= items);
        assert(items[items.len() - 1] == last);
        assert(items.contains(last));
        let before = front.flat_map(rule);
        if rule(last).len() == 0 {
            assert(before + rule(last) =~= before);
            assert(!wanted(last));
        } else {
            let c = rule(last)[0];
            assert(rule(last).contains(c));
            assert((before + rule(last)) =~= before.push(c));
            assert(before.push(c).drop_last() =~= before);
        }
    }
}

/// What is held back because of its class is counted: once for each known person and for `root`
/// with 5 to 14 actions in the last minute, once for each known service with 5 to 24. Nothing is
/// held back of unknown users.
pub proof fn held_back_bursts_are_counted(
    graph: KnowledgeGraph,
    now: Instant,
    ctx: CalibrationContext,
)
    ensures
        ({
            let all = Seq::new(graph.nodes@.len(), |n: int| n as NodeId);
            let held_back = discovery_suppressions(graph, now, ctx);
            &&& times(held_back, UserClass::Human) == all.filter(
                quiet_person(graph, now, ctx),
            ).len()
            &&& times(held_back, UserClass::Root) == all.filter(quiet_root(graph, now)).len()
            &&& times(held_back, UserClass::Service) == all.filter(
                quiet_service(graph, now, ctx),
            ).len()
            &&& times(held_back, UserClass::Unknown) == 0
        }),
{
    let cutoff = now.moved(-60);
    let all = Seq::new(graph.nodes@.len(), |n: int| n as NodeId);
    assert(all =~= graph.ids());
    let users = graph.ids_of(NodeType::User);
    let rule = suppressed_class_of_node(graph, cutoff, ctx);
    let is_user = graph.is_of_type(NodeType::User);
    let nobody = |x: NodeId| false;
    assert forall|x: NodeId| true implies {
        &&& #[trigger] discovery_runs(graph, cutoff, x) == graph.edges@.filter(
            run_of(x, cutoff),
        ).len()
        &&& discovery_reads(graph, cutoff, x) == reads_in(
            graph,
            graph.edges@.filter(run_of(x, cutoff)),
            cutoff,
        )
    } by {
        runs_are_counted(graph, cutoff, x);
        reads_are_counted(graph, cutoff, x);
    }
    let person = quiet_person(graph, now, ctx);
    let root = quiet_root(graph, now);
    let service = quiet_service(graph, now, ctx);
    assert forall|x: NodeId| true implies {
        &&& (if #[trigger] person(x) {
            rule(x) == seq![UserClass::Human]
        } else {
            rule(x).len() <= 1 && !rule(x).contains(UserClass::Human)
        })
        &&& (if root(x) {
            rule(x) == seq![UserClass::Root]
        } else {
            rule(x).len() <= 1 && !rule(x).contains(UserClass::Root)
        })
        &&& (if service(x) {
            rule(x) == seq![UserClass::Service]
        } else {
            rule(x).len() <= 1 && !rule(x).contains(UserClass::Service)
        })
        &&& rule(x).len() <= 1 && !rule(x).contains(UserClass::Unknown)
    } by {
        assert(discovery_runs(graph, cutoff, x) == graph.edges@.filter(run_of(x, cutoff)).len());
    }
    assert forall|x: NodeId| #[trigger] users.contains(x) implies person(x) || !person(x) by {}
    classes_are_counted(users, rule, person, UserClass::Human);
    classes_are_counted(users, rule, root, UserClass::Root);
    classes_are_counted(users, rule, service, UserClass::Service);
    classes_are_counted(users, rule, nobody, UserClass::Unknown);
    two_filters_are_one(graph.ids(), is_user, person, person);
    two_filters_are_one(graph.ids(), is_user, root, root);
    two_filters_are_one(graph.ids(), is_user, service, service);
    users.lemma_all_neg_filter_empty(nobody);
}

// ---------------------------------------------------------------------------
// Protocol anomalies
// ---------------------------------------------------------------------------

/// A connection that the address at `id` made less than five minutes ago.
pub open spec fn connection_of(id: NodeId, now: Instant) -> spec_fn(Edge) -> bool {
    |e: Edge|
        e.from == id && e.relation == Relation::ConnectedTo && now.since(e.ts@) < 300_000_000_000
}

/// Such a connection whose summary holds `malformed`, `anomal` or `invalid`.
pub open spec fn anomaly_of(id: NodeId, now: Instant) -> spec_fn(Edge) -> bool {
    |e: Edge|
        {
            let summary = e.properties@["summary"@]->Text_0@;
            &&& e.from == id
            &&& e.relation == Relation::ConnectedTo
            &&& now.since(e.ts@) < 300_000_000_000
            &&& has_text(e, "summary"@)
            &&& has_part(summary, "malformed"@) || has_part(summary, "anomal"@) || has_part(
                summary,
                "invalid"@,
            )
        }
}

/// Counting connections and anomalies.
proof fn connections_are_counted(graph: KnowledgeGraph, now: Instant, id: NodeId)
    ensures
        recent_connections(graph, now, id) == graph.edges@.filter(connection_of(id, now)),
        recent_connections(graph, now, id).filter(anomalous()) == graph.edges@.filter(
            anomaly_of(id, now),
        ),
{
    let window = windowed(Relation::ConnectedTo, now, 300);
    let both = connection_of(id, now);
    let all = anomaly_of(id, now);
    let odd = anomalous();
    assert forall|e: Edge| #[trigger] both(e) == (leaves(id)(e) && window(e)) by {}
    two_filters_are_one(graph.edges@, leaves(id), window, both);
    assert forall|e: Edge| #[trigger] all(e) == (both(e) && odd(e)) by {}
    two_filters_are_one(graph.edges@, both, odd, all);
}

/// Every report of
/// [`detect_proto_anomaly_aggregated`](crate::recon::detect_proto_anomaly_aggregated) has a cause:
/// an outside address made five or more anomalous connections, or twenty or more of any kind, in
/// the last five minutes. The report is grave exactly where ten or more were anomalous, however
/// many plain ones there were. It names the address and both counts, and was not held back.
pub proof fn proto_reports_have_a_cause(
    graph: KnowledgeGraph,
    host: Seq<char>,
    now: Instant,
    fired: Fired,
    i: int,
) -> (cause: NodeId)
    requires
        0 <= i < proto_anomaly_run(fired, graph, host, now).1.len(),
    ensures
        cause < graph.nodes@.len(),
        ({
            let alert = proto_anomaly_run(fired, graph, host, now).1[i];
            let report = alert.incident;
            let ip = graph.nodes@[cause as int];
            let addr = ip.kind->addr@;
            let total = graph.edges@.filter(connection_of(cause, now)).len();
            let odd = graph.edges@.filter(anomaly_of(cause, now)).len();
            &&& ip.kind is Ip && !ip.kind->is_internal
            &&& odd >= 5 || total >= 20
            &&& report.severity == Severity::High <==> odd >= 10
            &&& report.severity == Severity::Medium <==> odd < 10
            &&& alert.key == "graph_proto_agg:"@ + addr
            &&& !fired_within(fired, alert.key, now, 600)
            &&& report.ts == now
            &&& report.host == host
            &&& report.incident_id == "graph_proto_anomaly:"@ + addr + ":"@ + signed_decimal(
                now.secs,
            )
            &&& report.title == "Protocol anomaly: "@ + decimal(odd) + " from "@ + addr + " ("@
                + decimal(total) + " connections in 5m)"@
            &&& report.summary == "IP "@ + addr + " sent "@ + decimal(odd)
                + " anomalous connections ("@ + decimal(total)
                + " total) in 5 minutes. May indicate scanning or exploitation attempts."@
            &&& report.evidence == seq![
                shown("source"@, "knowledge_graph"@), shown("detector"@, "graph_proto_anomaly"@),
                shown("ip"@, addr), counted("anomaly_count"@, odd),
                counted("total_connections"@, total),
            ]
            &&& report.recommended_checks == seq!["Check connections: ss -tn | grep "@ + addr]
            &&& report.tags == seq!["T1190"@]
            &&& report.entities == seq![(EntityView { kind: EntityKind::Ip, value: addr })]
        }),
{
    let items = graph.ids_of(NodeType::Ip);
    let rule = proto_anomaly_of_node(graph, host, now);
    let at = an_alert_has_an_item(fired, items, rule, now, 600, i);
    connections_are_counted(graph, now, items[at.0]);
    items[at.0]
}

/// Every outside address with five or more anomalous connections, or twenty or more of any kind, in
/// the last five minutes is reported, unless a report of the address is less than 600 seconds old.
pub proof fn anomalies_lead_to_reports(
    graph: KnowledgeGraph,
    host: Seq<char>,
    now: Instant,
    fired: Fired,
    id: NodeId,
) -> (report: int)
    requires
        id < graph.nodes@.len(),
        graph.nodes@[id as int].kind is Ip,
        !graph.nodes@[id as int].kind->is_internal,
        graph.edges@.filter(anomaly_of(id, now)).len() >= 5 || graph.edges@.filter(
            connection_of(id, now),
        ).len() >= 20,
        !fired_within(
            fired,
            "graph_proto_agg:"@ + graph.nodes@[id as int].kind->addr@,
            now,
            600,
        ),
    ensures
        ({
            let alerts = proto_anomaly_run(fired, graph, host, now).1;
            let addr = graph.nodes@[id as int].kind->addr@;
            &&& 0 <= report < alerts.len()
            &&& alerts[report].incident.entities == seq![
                (EntityView { kind: EntityKind::Ip, value: addr }),
            ]
        }),
{
    let addr = graph.nodes@[id as int].kind->addr@;
    assert(graph.node(id) == Some(graph.nodes@[id as int]));
    connections_are_counted(graph, now, id);
    proto_anomalies_are_reported(graph, host, now, fired, id, addr);
    let alerts = proto_anomaly_run(fired, graph, host, now).1;
    let report = choose|report: int|
        0 <= report < keys_of(alerts).len() && keys_of(alerts)[report] == "graph_proto_agg:"@ + addr;
    let cause = proto_reports_have_a_cause(graph, host, now, fired, report);
    a_beginning_can_be_taken_away(
        "graph_proto_agg:"@,
        addr,
        graph.nodes@[cause as int].kind->addr@,
    );
    report
}

// ---------------------------------------------------------------------------
// Port scans
// ---------------------------------------------------------------------------

/// The address at `id` probed the port at `port` less than a minute ago.
pub open spec fn probed(graph: KnowledgeGraph, id: NodeId, now: Instant, port: NodeId) -> bool {
    exists|e: int|
        {
            &&& 0 <= e < graph.edges@.len()
            &&& (#[trigger] graph.edges@[e]).from == id
            &&& graph.edges@[e].to == port
            &&& graph.edges@[e].relation == Relation::ScannedPort
            &&& now.since(graph.edges@[e].ts@) < 60_000_000_000
        }
}

/// Counting ports.
proof fn ports_are_counted(graph: KnowledgeGraph, now: Instant, id: NodeId)
    ensures
        probed_ports(graph, now, id) == Set::new(|port: NodeId| probed(graph, id, now, port)),
{
    let window = windowed(Relation::ScannedPort, now, 60);
    let kept = graph.outgoing(id).filter(window);
    let ports = Set::new(|port: NodeId| probed(graph, id, now, port));
    assert forall|port: NodeId| probed_ports(graph, now, id).contains(port) <==> ports.contains(
        port,
    ) by {
        if probed_ports(graph, now, id).contains(port) {
            let k = choose|k: int| 0 <= k < targets(kept).len() && targets(kept)[k] == port;
            graph.outgoing(id).lemma_filter_pred(window, k);
            assert(kept.contains(kept[k]));
            graph.outgoing(id).lemma_filter_contains_rev(window, kept[k]);
            let n = choose|n: int|
                0 <= n < graph.outgoing(id).len() && graph.outgoing(id)[n] == kept[k];
            let e = an_outgoing_edge_is_there(graph, id, n);
            assert(graph.edges@[e].from == id);
        }
        if probed(graph, id, now, port) {
            let e = choose|e: int|
                {
                    &&& 0 <= e < graph.edges@.len()
                    &&& (#[trigger] graph.edges@[e]).from == id
                    &&& graph.edges@[e].to == port
                    &&& graph.edges@[e].relation == Relation::ScannedPort
                    &&& now.since(graph.edges@[e].ts@) < 60_000_000_000
                };
            let edge = graph.edges@[e];
            graph.edges@.lemma_filter_contains(leaves(id), e);
            let n = choose|n: int|
                0 <= n < graph.outgoing(id).len() && graph.outgoing(id)[n] == edge;
            graph.outgoing(id).lemma_filter_contains(window, n);
            let k = choose|k: int| 0 <= k < kept.len() && kept[k] == edge;
            assert(targets(kept)[k] == port);
        }
    }
    assert(probed_ports(graph, now, id) =~= ports);
}

/// Every report of [`detect_port_scan`](crate::recon::detect_port_scan) has a cause: an outside
/// address probed ten or more different ports in the last minute. The report names the address and
/// says how many, and was not held back.
pub proof fn port_scan_reports_have_a_cause(
    graph: KnowledgeGraph,
    host: Seq<char>,
    now: Instant,
    fired: Fired,
    i: int,
) -> (cause: NodeId)
    requires
        0 <= i < port_scan_run(fired, graph, host, now).1.len(),
    ensures
        cause < graph.nodes@.len(),
        ({
            let alert = port_scan_run(fired, graph, host, now).1[i];
            let report = alert.incident;
            let ip = graph.nodes@[cause as int];
            let addr = ip.kind->addr@;
            let ports = Set::new(|port: NodeId| probed(graph, cause, now, port)).len();
            &&& ip.kind is Ip && !ip.kind->is_internal
            &&& ports >= 10
            &&& alert.key == "graph_portscan:"@ + addr
            &&& !fired_within(fired, alert.key, now, 600)
            &&& report.ts == now
            &&& report.host == host
            &&& report.incident_id == "graph_port_scan:"@ + addr + ":"@ + signed_decimal(now.secs)
            &&& report.severity == Severity::Medium
            &&& report.title == "Port scan: "@ + addr + " probed "@ + decimal(ports)
                + " ports in 1m"@
            &&& report.summary == "IP "@ + addr + " probed "@ + decimal(ports)
                + " distinct ports in 1 minute. Indicates network reconnaissance."@
            &&& report.evidence == seq![
                shown("source"@, "knowledge_graph"@), shown("detector"@, "graph_port_scan"@),
                shown("ip"@, addr), counted("distinct_ports"@, ports),
            ]
            &&& report.recommended_checks == seq!["Block scanner: innerwarden block-ip "@ + addr]
            &&& report.tags == seq!["T1046"@]
            &&& report.entities == seq![(EntityView { kind: EntityKind::Ip, value: addr })]
        }),
{
    let items = graph.ids_of(NodeType::Ip);
    let rule = port_scan_of_node(graph, host, now);
    let at = an_alert_has_an_item(fired, items, rule, now, 600, i);
    ports_are_counted(graph, now, items[at.0]);
    items[at.0]
}

/// Every outside address that probed ten or more different ports in the last minute is reported,
/// unless a report of the address is less than 600 seconds old.
pub proof fn port_scans_lead_to_reports(
    graph: KnowledgeGraph,
    host: Seq<char>,
    now: Instant,
    fired: Fired,
    id: NodeId,
) -> (report: int)
    requires
        id < graph.nodes@.len(),
        graph.nodes@[id as int].kind is Ip,
        !graph.nodes@[id as int].kind->is_internal,
        Set::new(|port: NodeId| probed(graph, id, now, port)).len() >= 10,
        !fired_within(
            fired,
            "graph_portscan:"@ + graph.nodes@[id as int].kind->addr@,
            now,
            600,
        ),
    ensures
        ({
            let alerts = port_scan_run(fired, graph, host, now).1;
            let addr = graph.nodes@[id as int].kind->addr@;
            &&& 0 <= report < alerts.len()
            &&& alerts[report].incident.entities == seq![
                (EntityView { kind: EntityKind::Ip, value: addr }),
            ]
        }),
{
    let addr = graph.nodes@[id as int].kind->addr@;
    assert(graph.node(id) == Some(graph.nodes@[id as int]));
    ports_are_counted(graph, now, id);
    port_scans_are_reported(graph, host, now, fired, id, addr);
    let alerts = port_scan_run(fired, graph, host, now).1;
    let report = choose|report: int|
        0 <= report < keys_of(alerts).len() && keys_of(alerts)[report] == "graph_portscan:"@ + addr;
    let cause = port_scan_reports_have_a_cause(graph, host, now, fired, report);
    a_beginning_can_be_taken_away(
        "graph_portscan:"@,
        addr,
        graph.nodes@[cause as int].kind->addr@,
    );
    report
}

// ---------------------------------------------------------------------------
// Credential stuffing
// ---------------------------------------------------------------------------

/// A login as the user at `user` was tried from the address at `id` less than five minutes ago.
pub open spec fn tried(graph: KnowledgeGraph, id: NodeId, now: Instant, user: NodeId) -> bool {
    exists|e: int|
        {
            &&& 0 <= e < graph.edges@.len()
            &&& (#[trigger] graph.edges@[e]).from == user
            &&& graph.edges@[e].to == id
            &&& graph.edges@[e].relation == Relation::LoggedInFrom
            &&& now.since(graph.edges@[e].ts@) < 300_000_000_000
        }
}

/// Counting users.
proof fn users_are_counted(graph: KnowledgeGraph, now: Instant, id: NodeId)
    ensures
        tried_users(graph, now, id).no_duplicates(),
        tried_users(graph, now, id).to_set() == Set::new(
            |user: NodeId| tried(graph, id, now, user),
        ),
        tried_users(graph, now, id).len() == Set::new(
            |user: NodeId| tried(graph, id, now, user),
        ).len(),
{
    let window = windowed(Relation::LoggedInFrom, now, 300);
    let kept = graph.incoming(id).filter(window);
    let users = Set::new(|user: NodeId| tried(graph, id, now, user));
    assert forall|user: NodeId| sources(kept).to_set().contains(user) <==> users.contains(user) by {
        if sources(kept).to_set().contains(user) {
            let k = choose|k: int| 0 <= k < sources(kept).len() && sources(kept)[k] == user;
            graph.incoming(id).lemma_filter_pred(window, k);
            assert(kept.contains(kept[k]));
            graph.incoming(id).lemma_filter_contains_rev(window, kept[k]);
            graph.edges@.lemma_filter_contains_rev(reaches(id), kept[k]);
            let n = choose|n: int|
                0 <= n < graph.incoming(id).len() && graph.incoming(id)[n] == kept[k];
            graph.edges@.lemma_filter_pred(reaches(id), n);
            let e = choose|e: int| 0 <= e < graph.edges@.len() && graph.edges@[e] == kept[k];
            assert(graph.edges@[e].from == user);
        }
        if tried(graph, id, now, user) {
            let e = choose|e: int|
                {
                    &&& 0 <= e < graph.edges@.len()
                    &&& (#[trigger] graph.edges@[e]).from == user
                    &&& graph.edges@[e].to == id
                    &&& graph.edges@[e].relation == Relation::LoggedInFrom
                    &&& now.since(graph.edges@[e].ts@) < 300_000_000_000
                };
            let edge = graph.edges@[e];
            graph.edges@.lemma_filter_contains(reaches(id), e);
            let n = choose|n: int|
                0 <= n < graph.incoming(id).len() && graph.incoming(id)[n] == edge;
            graph.incoming(id).lemma_filter_contains(window, n);
            let k = choose|k: int| 0 <= k < kept.len() && kept[k] == edge;
            assert(sources(kept)[k] == user);
        }
    }
    assert(sources(kept).to_set() =~= users);
    distinct_keeps_each_node_once(sources(kept));
}

/// The node is there.
pub open spec fn known(graph: KnowledgeGraph) -> spec_fn(NodeId) -> bool {
    |id: NodeId| id < graph.nodes@.len()
}

/// The names of a report are the labels of the nodes of the list that are there.
proof fn names_are_labels(graph: KnowledgeGraph, ids: Seq<NodeId>)
    ensures
        ids.flat_map(label_if_known(graph)) == ids.filter(known(graph)).map_values(
            |id: NodeId| graph.nodes@[id as int].label@,
        ),
    decreases ids.len(),
{
    reveal(Seq::filter);
    let rule = label_if_known(graph);
    let label = |id: NodeId| graph.nodes@[id as int].label@;
    if ids.len() == 0 {
        assert(ids.flat_map(rule) =~= ids.filter(known(graph)).map_values(label));
    } else {
        let front = ids.drop_last();
        names_are_labels(graph, front);
        front.lemma_flat_map_push(rule, ids.last());
        assert(front.push(ids.last()) =~= ids);
        assert(ids.flat_map(rule) =~= ids.filter(known(graph)).map_values(label));
    }
}

/// A filter keeps each item at most as often as it is there.
proof fn filters_duplicate_nothing(ids: Seq<NodeId>, wanted: spec_fn(NodeId) -> bool)
    requires
        ids.no_duplicates(),
    ensures
        ids.filter(wanted).no_duplicates(),
    decreases ids.len(),
{
    reveal(Seq::filter);
    if ids.len() > 0 {
        let front = ids.drop_last();
        assert forall|i: int, j: int|
            0 <= i < front.len() && 0 <= j < front.len() && i != j implies front[i] != front[j] by {
            assert(ids[i] != ids[j]);
        }
        filters_duplicate_nothing(front, wanted);
        let kept = front.filter(wanted);
        assert forall|k: int| 0 <= k < kept.len() implies #[trigger] kept[k] != ids.last() by {
            assert(kept.contains(kept[k]));
            front.lemma_filter_contains_rev(wanted, kept[k]);
            let n = choose|n: int| 0 <= n < front.len() && front[n] == kept[k];
            assert(ids[n] != ids[ids.len() - 1]);
        }
    }
}

/// The users that a report names.
proof fn named_users(graph: KnowledgeGraph, now: Instant, id: NodeId) -> (users: Seq<NodeId>)
    ensures
        users.no_duplicates(),
        users.len() == first_labels(graph, tried_users(graph, now, id)).len(),
        forall|k: int|
            0 <= k < users.len() ==> {
                &&& tried(graph, id, now, #[trigger] users[k])
                &&& users[k] < graph.nodes@.len()
                &&& first_labels(graph, tried_users(graph, now, id))[k]
                    == graph.nodes@[users[k] as int].label@
            },
        ({
            let all = Set::new(
                |user: NodeId| tried(graph, id, now, user) && user < graph.nodes@.len(),
            ).len();
            users.len() == if all > 10 {
                10
            } else {
                all
            }
        }),
{
    let listed = tried_users(graph, now, id);
    let there = listed.filter(known(graph));
    users_are_counted(graph, now, id);
    names_are_labels(graph, listed);
    filters_duplicate_nothing(listed, known(graph));
    let all = Set::new(|user: NodeId| tried(graph, id, now, user) && user < graph.nodes@.len());
    assert forall|user: NodeId| there.to_set().contains(user) <==> all.contains(user) by {
        if there.contains(user) {
            let k = choose|k: int| 0 <= k < there.len() && there[k] == user;
            listed.lemma_filter_pred(known(graph), k);
            listed.lemma_filter_contains_rev(known(graph), user);
            assert(listed.to_set().contains(user));
        }
        if all.contains(user) {
            assert(listed.to_set().contains(user));
            let n = choose|n: int| 0 <= n < listed.len() && listed[n] == user;
            listed.lemma_filter_contains(known(graph), n);
        }
    }
    assert(there.to_set() =~= all);
    there.unique_seq_to_set();
    let users = if there.len() > 10 {
        there.take(10)
    } else {
        there
    };
    assert forall|k: int| 0 <= k < users.len() implies {
        &&& tried(graph, id, now, #[trigger] users[k])
        &&& users[k] < graph.nodes@.len()
        &&& first_labels(graph, listed)[k] == graph.nodes@[users[k] as int].label@
    } by {
        assert(users[k] == there[k]);
        assert(there.to_set().contains(there[k]));
        assert(all.contains(there[k]));
    }
    users
}

/// Every report of [`detect_credential_stuffing`](crate::recon::detect_credential_stuffing) has a
/// cause: logins as five or more different users were tried from an outside address in the last
/// five minutes. The report says how many there were. It names ten different ones of them, or all
/// where there are fewer, by their labels. It was not held back.
pub proof fn stuffing_reports_have_a_cause(
    graph: KnowledgeGraph,
    host: Seq<char>,
    now: Instant,
    fired: Fired,
    i: int,
) -> (cause: (NodeId, Seq<NodeId>))
    requires
        0 <= i < credential_stuffing_run(fired, graph, host, now).1.len(),
    ensures
        cause.0 < graph.nodes@.len(),
        ({
            let alert = credential_stuffing_run(fired, graph, host, now).1[i];
            let report = alert.incident;
            let ip = graph.nodes@[cause.0 as int];
            let addr = ip.kind->addr@;
            let users = Set::new(|user: NodeId| tried(graph, cause.0, now, user));
            let there = Set::new(
                |user: NodeId| tried(graph, cause.0, now, user) && user < graph.nodes@.len(),
            ).len();
            let names = cause.1.map_values(|user: NodeId| graph.nodes@[user as int].label@);
            &&& ip.kind is Ip && !ip.kind->is_internal
            &&& users.len() >= 5
            &&& cause.1.no_duplicates()
            &&& cause.1.len() == if there > 10 {
                10
            } else {
                there
            }
            &&& forall|k: int|
                0 <= k < cause.1.len() ==> tried(graph, cause.0, now, #[trigger] cause.1[k])
                    && cause.1[k] < graph.nodes@.len()
            &&& alert.key == "graph_credstuff:"@ + addr
            &&& !fired_within(fired, alert.key, now, 600)
            &&& report.ts == now
            &&& report.host == host
            &&& report.incident_id == "graph_credential_stuffing:"@ + addr + ":"@ + signed_decimal(
                now.secs,
            )
            &&& report.severity == Severity::High
            &&& report.title == "Credential stuffing: "@ + addr + " tried "@ + decimal(users.len())
                + " users in 5m"@
            &&& report.summary == "IP "@ + addr + " attempted login as "@ + decimal(users.len())
                + " distinct users in 5 minutes: "@ + joined(names, ", "@)
                + ". Indicates credential stuffing attack."@
            &&& report.evidence == seq![
                shown("source"@, "knowledge_graph"@),
                shown("detector"@, "graph_credential_stuffing"@), shown("ip"@, addr),
                counted("distinct_users"@, users.len()),
                (FieldView { name: "usernames"@, value: ValueView::List(names) }),
            ]
            &&& report.recommended_checks == seq!["Block attacker: innerwarden block-ip "@ + addr]
            &&& report.tags == seq!["T1110.004"@]
            &&& report.entities == seq![(EntityView { kind: EntityKind::Ip, value: addr })]
        }),
{
    let items = graph.ids_of(NodeType::Ip);
    let rule = credential_stuffing_of_node(graph, host, now);
    let at = an_alert_has_an_item(fired, items, rule, now, 600, i);
    let id = items[at.0];
    users_are_counted(graph, now, id);
    let users = named_users(graph, now, id);
    assert(first_labels(graph, tried_users(graph, now, id)) =~= users.map_values(
        |user: NodeId| graph.nodes@[user as int].label@,
    ));
    (id, users)
}

/// Every outside address from which logins as five or more different users were tried in the last
/// five minutes is reported, unless a report of the address is less than 600 seconds old.
pub proof fn stuffing_leads_to_reports(
    graph: KnowledgeGraph,
    host: Seq<char>,
    now: Instant,
    fired: Fired,
    id: NodeId,
) -> (report: int)
    requires
        id < graph.nodes@.len(),
        graph.nodes@[id as int].kind is Ip,
        !graph.nodes@[id as int].kind->is_internal,
        Set::new(|user: NodeId| tried(graph, id, now, user)).len() >= 5,
        !fired_within(
            fired,
            "graph_credstuff:"@ + graph.nodes@[id as int].kind->addr@,
            now,
            600,
        ),
    ensures
        ({
            let alerts = credential_stuffing_run(fired, graph, host, now).1;
            let addr = graph.nodes@[id as int].kind->addr@;
            &&& 0 <= report < alerts.len()
            &&& alerts[report].incident.entities == seq![
                (EntityView { kind: EntityKind::Ip, value: addr }),
            ]
        }),
{
    let addr = graph.nodes@[id as int].kind->addr@;
    assert(graph.node(id) == Some(graph.nodes@[id as int]));
    users_are_counted(graph, now, id);
    credential_stuffing_is_reported(graph, host, now, fired, id, addr);
    let alerts = credential_stuffing_run(fired, graph, host, now).1;
    let report = choose|report: int|
        0 <= report < keys_of(alerts).len() && keys_of(alerts)[report] == "graph_credstuff:"@ + addr;
    let cause = stuffing_reports_have_a_cause(graph, host, now, fired, report);
    a_beginning_can_be_taken_away(
        "graph_credstuff:"@,
        addr,
        graph.nodes@[cause.0 as int].kind->addr@,
    );
    report
}

// ---------------------------------------------------------------------------
// Scanner user agents
// ---------------------------------------------------------------------------

/// The user agent of a request; empty where it has none.
pub open spec fn agent_text(e: Edge) -> Seq<char> {
    if has_text(e, "user_agent"@) {
        e.properties@["user_agent"@]->Text_0@
    } else {
        ""@
    }
}

/// The names of the thirteen scanners.
pub open spec fn is_scanner(name: Seq<char>) -> bool {
    name == "nmap"@ || name == "nikto"@ || name == "sqlmap"@ || name == "zap"@ || name == "burp"@
        || name == "gobuster"@ || name == "dirbuster"@ || name == "wfuzz"@ || name == "ffuf"@ || name
        == "nuclei"@ || name == "whatweb"@ || name == "masscan"@ || name == "acunetix"@
}

/// Every report of [`detect_scanner_ua`](crate::recon::detect_scanner_ua) has a cause: a request
/// from an outside address whose user agent, in lower case, holds the name of a scanner, the first
/// of the thirteen that it holds. The report names the address, the scanner and the user agent as
/// it was sent, and was not held back.
pub proof fn scanner_reports_have_a_cause(
    graph: KnowledgeGraph,
    host: Seq<char>,
    now: Instant,
    fired: Fired,
    i: int,
) -> (cause: (int, int))
    requires
        0 <= i < scanner_ua_run(fired, graph, host, now).1.len(),
    ensures
        0 <= cause.0 < graph.edges@.len(),
        0 <= cause.1 < 13,
        ({
            let names = seq![
                "nmap"@, "nikto"@, "sqlmap"@, "zap"@, "burp"@, "gobuster"@, "dirbuster"@,
                "wfuzz"@, "ffuf"@, "nuclei"@, "whatweb"@, "masscan"@, "acunetix"@,
            ];
            let alert = scanner_ua_run(fired, graph, host, now).1[i];
            let report = alert.incident;
            let request = graph.edges@[cause.0];
            let ip = graph.nodes@[request.from as int];
            let addr = ip.kind->addr@;
            let agent = agent_text(request);
            let scanner = names[cause.1];
            &&& request.relation == Relation::HttpRequestTo
            &&& request.from < graph.nodes@.len() && ip.kind is Ip && !ip.kind->is_internal
            &&& has_part(lowercase(agent), scanner)
            &&& forall|j: int|
                0 <= j < cause.1 ==> !has_part(lowercase(agent), #[trigger] names[j])
            &&& alert.key == "graph_scanner:"@ + addr + ":"@ + scanner
            &&& !fired_within(fired, alert.key, now, 600)
            &&& report.ts == now
            &&& report.host == host
            &&& report.incident_id == "graph_scanner_ua:"@ + addr + ":"@ + signed_decimal(now.secs)
            &&& report.severity == Severity::Medium
            &&& report.title == "Security scanner detected: "@ + scanner + " from "@ + addr
            &&& report.summary == "IP "@ + addr
                + " sent HTTP requests with security scanner User-Agent matching '"@ + scanner
                + "'. Indicates active reconnaissance."@
            &&& report.evidence == seq![
                shown("source"@, "knowledge_graph"@), shown("detector"@, "graph_scanner_ua"@),
                shown("ip"@, addr), shown("scanner"@, scanner), shown("user_agent"@, agent),
            ]
            &&& report.recommended_checks == seq!["Check access logs for IP "@ + addr]
            &&& report.tags == seq!["T1595.002"@]
            &&& report.entities == seq![(EntityView { kind: EntityKind::Ip, value: addr })]
        }),
{
    let items = graph.ids_of(NodeType::Ip);
    let rule = scanner_ua_of_node(graph, host, now);
    let at = an_alert_has_an_item(fired, items, rule, now, 600, i);
    let id = items[at.0];
    match graph.node(id) {
        Some(Node { kind: NodeKind::Ip { addr, .. }, .. }) => {
            let edge_rule = scanner_ua_of_edge(host, now, addr@);
            let n = flat_map_origin(graph.outgoing(id), edge_rule, at.1);
            let e = an_outgoing_edge_is_there(graph, id, n);
            let agent = lowercase(user_agent_of(graph.edges@[e]));
            let k = a_chosen_part_is_the_first(agent, scanner_names());
            let names = seq![
                "nmap"@, "nikto"@, "sqlmap"@, "zap"@, "burp"@, "gobuster"@, "dirbuster"@,
                "wfuzz"@, "ffuf"@, "nuclei"@, "whatweb"@, "masscan"@, "acunetix"@,
            ];
            assert(names =~= scanner_names());
            (e, k)
        },
        _ => (0, 0),
    }
}

/// Every request from an outside address whose user agent, in lower case, holds the name of one of
/// the thirteen scanners leads to a report: where none of the scanners that it names was reported
/// of the address in the last 600 seconds, one of them is now.
pub proof fn scanner_requests_lead_to_reports(
    graph: KnowledgeGraph,
    host: Seq<char>,
    now: Instant,
    fired: Fired,
    e: int,
    scanner: Seq<char>,
) -> (report: int)
    requires
        0 <= e < graph.edges@.len(),
        graph.edges@[e].relation == Relation::HttpRequestTo,
        graph.edges@[e].from < graph.nodes@.len(),
        graph.nodes@[graph.edges@[e].from as int].kind is Ip,
        !graph.nodes@[graph.edges@[e].from as int].kind->is_internal,
        is_scanner(scanner),
        has_part(lowercase(agent_text(graph.edges@[e])), scanner),
        forall|name: Seq<char>| #[trigger]
            has_part(lowercase(agent_text(graph.edges@[e])), name) && is_scanner(name)
                ==> !fired_within(
                fired,
                "graph_scanner:"@ + graph.nodes@[graph.edges@[e].from as int].kind->addr@ + ":"@
                    + name,
                now,
                600,
            ),
    ensures
        ({
            let alerts = scanner_ua_run(fired, graph, host, now).1;
            let addr = graph.nodes@[graph.edges@[e].from as int].kind->addr@;
            &&& 0 <= report < alerts.len()
            &&& exists|name: Seq<char>| #[trigger]
                has_part(lowercase(agent_text(graph.edges@[e])), name) && is_scanner(name)
                    && alerts[report].key == "graph_scanner:"@ + addr + ":"@ + name
            &&& alerts[report].incident.severity == Severity::Medium
        }),
{
    let names = seq![
        "nmap"@, "nikto"@, "sqlmap"@, "zap"@, "burp"@, "gobuster"@, "dirbuster"@, "wfuzz"@,
        "ffuf"@, "nuclei"@, "whatweb"@, "masscan"@, "acunetix"@,
    ];
    assert(names =~= scanner_names());
    assert(names[0] == "nmap"@ && names[1] == "nikto"@ && names[2] == "sqlmap"@ && names[3]
        == "zap"@ && names[4] == "burp"@ && names[5] == "gobuster"@ && names[6] == "dirbuster"@
        && names[7] == "wfuzz"@ && names[8] == "ffuf"@ && names[9] == "nuclei"@ && names[10]
        == "whatweb"@ && names[11] == "masscan"@ && names[12] == "acunetix"@);
    let edge = graph.edges@[e];
    let addr = graph.nodes@[edge.from as int].kind->addr@;
    let agent = lowercase(agent_text(edge));
    assert(agent_text(edge) == user_agent_of(edge));
    assert(names.contains(scanner));
    let k = choose|k: int| 0 <= k < names.len() && names[k] == scanner;
    the_first_part_is_chosen(agent, names, k);
    let chosen = a_chosen_part_is_the_first(agent, names);
    assert(graph.node(edge.from) == Some(graph.nodes@[edge.from as int]));
    assert(is_scanner(names[chosen]));
    assert(!fired_within(
        fired,
        "graph_scanner:"@ + addr + ":"@ + names[chosen],
        now,
        600,
    ));
    scanners_are_reported(graph, host, now, fired, e, addr, names[chosen]);
    let alerts = scanner_ua_run(fired, graph, host, now).1;
    let report = choose|report: int|
        0 <= report < keys_of(alerts).len() && keys_of(alerts)[report] == "graph_scanner:"@ + addr
            + ":"@ + names[chosen];
    let _ = scanner_reports_have_a_cause(graph, host, now, fired, report);
    report
}

} // verus!
