//! Detectors of persistence, privilege abuse and defence evasion: writes to persistence locations,
//! stopped security services, tampering with logs, bursts of `sudo`.

use crate::alert::{
    admitted, alert_views, cooldowns_last, cooling, flat_keys_among, flat_map_holds,
    flat_map_origin, flat_one_key, flat_singles, incidents_are_those_of_the_alerts, incidents_of,
    keys_among, keys_of, no_detection_is_lost, no_key_again, no_key_fires_again_within_its_cooldown,
    one_key_each, proposal_views, proposed_alerts_fire, proposes, repetition_is_silent,
    single_alternatives, single_keys_among, singles_have_one_key, Alert, AlertView, Fired,
    GraphDetectorState,
};
use crate::graph::{
    edges_age, edges_leave_their_source, find_text, first_text, in_window, narrower,
    narrower_filters_keep_fewer, narrower_filters_keep_some, nodes_are_listed, pick_windowed,
    reaches, relation_name, windowed, windows_move_on, Edge, KnowledgeGraph, Node, NodeId, NodeKind,
    NodeType, Relation,
};
use crate::incident::{
    incident_views, EntityKind, EntityRef, EntityView, Incident, IncidentView, Severity,
};
use crate::persistence_laws::{
    log_tampering_reports_have_a_cause, persistence_reports_have_a_cause,
    service_stop_reports_have_a_cause, sudo_reports_have_a_cause,
};
use crate::record::{count_field, text_field, Field};
use crate::text::{
    cat2, cat4, cat5, contains, decimal, find_part, first_part, has_part, lower_text, lowercase,
    number, one_of, part_at, same_text, signed_decimal, signed_number, starts_with, str_texts,
};
use crate::time::{Instant, Timestamp};
use vstd::prelude::*;

verus! {

broadcast use vstd::seq_lib::group_seq_properties;

// ---------------------------------------------------------------------------
// Writes to persistence locations
// ---------------------------------------------------------------------------

/// A place from which code is started again after a restart or a login.
pub struct Location {
    pub part: &'static str,
    pub detector: &'static str,
    pub technique: &'static str,
}

/// What a [`Location`] holds.
#[verifier::ext_equal]
pub struct LocationView {
    pub part: Seq<char>,
    pub detector: Seq<char>,
    pub technique: Seq<char>,
}

impl View for Location {
    type V = LocationView;

    open spec fn view(&self) -> LocationView {
        LocationView {
            part: self.part@,
            detector: self.detector@,
            technique: self.technique@,
        }
    }
}

/// What a list of locations holds.
pub open spec fn location_views(list: Seq<Location>) -> Seq<LocationView> {
    list.map_values(|l: Location| l@)
}

/// One location.
pub open spec fn location(part: &str, detector: &str, technique: &str) -> LocationView {
    LocationView { part: part@, detector: detector@, technique: technique@ }
}

/// The locations that are watched, in the order in which they are tried.
pub open spec fn persistence_locations() -> Seq<LocationView> {
    seq![
        location("/etc/cron", "crontab_persistence", "T1053.003"),
        location("/var/spool/cron", "crontab_persistence", "T1053.003"),
        location("/etc/systemd/", "systemd_persistence", "T1543.002"),
        location("/usr/lib/systemd/", "systemd_persistence", "T1543.002"),
        location("authorized_keys", "ssh_key_injection", "T1098.004"),
    ]
}

/// The locations that are watched.
fn locations() -> (list: Vec<Location>)
    ensures
        location_views(list@) == persistence_locations(),
{
    let list = vec![
        Location {
            part: "/etc/cron",
            detector: "crontab_persistence",
            technique: "T1053.003",
        },
        Location {
            part: "/var/spool/cron",
            detector: "crontab_persistence",
            technique: "T1053.003",
        },
        Location {
            part: "/etc/systemd/",
            detector: "systemd_persistence",
            technique: "T1543.002",
        },
        Location {
            part: "/usr/lib/systemd/",
            detector: "systemd_persistence",
            technique: "T1543.002",
        },
        Location {
            part: "authorized_keys",
            detector: "ssh_key_injection",
            technique: "T1098.004",
        },
    ];
    assert(location_views(list@) =~= persistence_locations());
    list
}

/// Seconds that a write stays of interest.
pub const PERSISTENCE_WINDOW: i64 = 300;

/// Seconds between two reports of one kind of persistence by one process.
pub const PERSISTENCE_COOLDOWN: i64 = 600;

/// The key of an alert on the process `id`, for one location.
pub open spec fn persistence_key(l: LocationView, id: NodeId) -> Seq<char> {
    "graph_persist:"@ + l.detector + ":"@ + decimal(id as nat)
}

/// The alert on a write of `path` by the process `id`, for one location.
pub open spec fn persistence_alert(
    host: Seq<char>,
    now: Instant,
    id: NodeId,
    label: Seq<char>,
    path: Seq<char>,
    l: LocationView,
) -> AlertView {
    AlertView {
        key: persistence_key(l, id),
        incident: IncidentView {
            ts: now,
            host,
            incident_id: "graph_"@ + l.detector + ":"@ + decimal(id as nat) + ":"@
                + signed_decimal(now.secs),
            severity: Severity::High,
            title: "Persistence: "@ + label + " wrote to "@ + path,
            summary: "Process "@ + label + " wrote to persistence location "@ + path,
            evidence: seq![
                text_field("source", "knowledge_graph"@),
                text_field("detector", "graph_"@ + l.detector),
                text_field("process", label),
                text_field("path", path),
            ],
            recommended_checks: seq!["Inspect "@ + path, "Check process tree of "@ + label],
            tags: seq![l.technique],
            entities: seq![EntityView { kind: EntityKind::Path, value: path }],
        },
    }
}

/// The alert on a write of `path` by the process `id`, for one location.
fn new_persistence_alert(
    host: &str,
    now: &Timestamp,
    id: NodeId,
    label: &str,
    path: &str,
    l: &Location,
) -> (alert: Alert)
    ensures
        alert@ == persistence_alert(host@, now@, id, label@, path@, l@),
{
    let id_text = number(id);
    let secs = signed_number(now.timestamp());
    let alert = Alert {
        key: cat4("graph_persist:", l.detector, ":", &id_text),
        incident: Incident {
            ts: *now,
            host: host.to_owned(),
            incident_id: cat2(&cat5("graph_", l.detector, ":", &id_text, ":"), &secs),
            severity: Severity::High,
            title: cat4("Persistence: ", label, " wrote to ", path),
            summary: cat4("Process ", label, " wrote to persistence location ", path),
            evidence: vec![
                Field::text("source", "knowledge_graph"),
                Field::text("detector", &cat2("graph_", l.detector)),
                Field::text("process", label),
                Field::text("path", path),
            ],
            recommended_checks: vec![cat2("Inspect ", path), cat2("Check process tree of ", label)],
            tags: vec![l.technique.to_owned()],
            entities: vec![EntityRef::path(path)],
        },
    };
    assert(alert@ =~~= persistence_alert(host@, now@, id, label@, path@, l@));
    alert
}

/// The alert for a location that `path` lies in.
pub open spec fn alert_for_location(
    host: Seq<char>,
    now: Instant,
    id: NodeId,
    label: Seq<char>,
    path: Seq<char>,
) -> spec_fn(LocationView) -> Seq<AlertView> {
    |l: LocationView|
        if has_part(path, l.part) {
            seq![persistence_alert(host, now, id, label, path, l)]
        } else {
            Seq::empty()
        }
}

/// The alerts on a write of `path` by the process `id`: one for each location that it lies in.
pub open spec fn persistence_alternatives(
    host: Seq<char>,
    now: Instant,
    id: NodeId,
    label: Seq<char>,
    path: Seq<char>,
) -> Seq<AlertView> {
    persistence_locations().flat_map(alert_for_location(host, now, id, label, path))
}

/// The alerts on a write of `path` by the process `id`: one for each location that it lies in.
fn new_persistence_alternatives(
    host: &str,
    now: &Timestamp,
    id: NodeId,
    label: &str,
    path: &str,
) -> (alerts: Vec<Alert>)
    ensures
        alert_views(alerts@) == persistence_alternatives(host@, now@, id, label@, path@),
{
    let list = locations();
    let ghost all = persistence_locations();
    let ghost rule = alert_for_location(host@, now@, id, label@, path@);
    let mut alerts: Vec<Alert> = Vec::new();
    assert(alert_views(alerts@) =~= all.take(0).flat_map(rule));
    for i in 0..list.len()
        invariant
            all == location_views(list@),
            rule == alert_for_location(host@, now@, id, label@, path@),
            alert_views(alerts@) == all.take(i as int).flat_map(rule),
    {
        proof {
            all.lemma_flat_map_take_append(rule, i as int);
        }
        let ghost before = alerts@;
        if contains(path, list[i].part) {
            alerts.push(new_persistence_alert(host, now, id, label, path, &list[i]));
            assert(alert_views(alerts@) =~= alert_views(before) + rule(all[i as int]));
        }
    }
    assert(all.take(all.len() as int) =~= all);
    alerts
}

/// What is proposed of an edge of the process `id`: one proposal where it is a write of a file at
/// `cutoff` or later.
pub open spec fn persistence_of_edge(
    graph: KnowledgeGraph,
    host: Seq<char>,
    now: Instant,
    cutoff: Instant,
    id: NodeId,
    label: Seq<char>,
) -> spec_fn(Edge) -> Seq<Seq<AlertView>> {
    |e: Edge|
        if e.relation == Relation::Wrote && !e.ts@.before(cutoff) {
            match graph.node(e.to) {
                Some(Node { kind: NodeKind::File { path, .. }, .. }) => seq![
                    persistence_alternatives(host, now, id, label, path@),
                ],
                _ => Seq::empty(),
            }
        } else {
            Seq::empty()
        }
}

/// What is proposed of a node: the proposals of the edges that leave it, where it is a process.
pub open spec fn persistence_of_node(
    graph: KnowledgeGraph,
    host: Seq<char>,
    now: Instant,
    cutoff: Instant,
) -> spec_fn(NodeId) -> Seq<Seq<AlertView>> {
    |id: NodeId|
        match graph.node(id) {
            Some(Node { label, kind: NodeKind::Process { .. } }) => graph.outgoing(id).flat_map(
                persistence_of_edge(graph, host, now, cutoff, id, label@),
            ),
            _ => Seq::empty(),
        }
}

/// What [`detect_persistence`] proposes.
pub open spec fn persistence_proposals(
    graph: KnowledgeGraph,
    host: Seq<char>,
    now: Instant,
) -> Seq<Seq<AlertView>> {
    let cutoff = now.moved(-PERSISTENCE_WINDOW as int);
    graph.active_ids(cutoff).flat_map(persistence_of_node(graph, host, now, cutoff))
}

/// What is proposed of the process `id`.
fn propose_persistence(
    graph: &KnowledgeGraph,
    host: &str,
    now: &Timestamp,
    cutoff: &Timestamp,
    id: NodeId,
) -> (proposals: Vec<Vec<Alert>>)
    ensures
        proposal_views(proposals@) == persistence_of_node(*graph, host@, now@, cutoff@)(id),
{
    let mut proposals: Vec<Vec<Alert>> = Vec::new();
    let node = match graph.get_node(id) {
        Some(node) => node,
        None => {
            assert(proposal_views(proposals@) =~= Seq::empty());
            return proposals;
        },
    };
    if node.node_type() != NodeType::Process {
        assert(proposal_views(proposals@) =~= Seq::empty());
        return proposals;
    }
    let edges = graph.outgoing_edges(id);
    let ghost all = graph.outgoing(id);
    let ghost rule = persistence_of_edge(*graph, host@, now@, cutoff@, id, node.label@);
    assert(proposal_views(proposals@) =~= all.take(0).flat_map(rule));
    for i in 0..edges.len()
        invariant
            all == edges@.unref(),
            rule == persistence_of_edge(*graph, host@, now@, cutoff@, id, node.label@),
            proposal_views(proposals@) == all.take(i as int).flat_map(rule),
    {
        proof {
            all.lemma_flat_map_take_append(rule, i as int);
        }
        let ghost before = proposals@;
        let edge = edges[i];
        if edge.relation == Relation::Wrote && !edge.ts.is_before(cutoff) {
            match graph.get_node(edge.to) {
                Some(Node { kind: NodeKind::File { path, .. }, .. }) => {
                    proposals.push(
                        new_persistence_alternatives(host, now, id, &node.label, path),
                    );
                    assert(proposal_views(proposals@) =~= proposal_views(before) + rule(
                        all[i as int],
                    ));
                },
                _ => {},
            }
        }
    }
    assert(all.take(all.len() as int) =~= all);
    proposals
}

/// What a run of [`detect_persistence`] lets fire, and when each key fired last after it.
pub open spec fn persistence_run(
    fired: Fired,
    graph: KnowledgeGraph,
    host: Seq<char>,
    now: Instant,
) -> (Fired, Seq<AlertView>) {
    admitted(fired, persistence_proposals(graph, host, now), now, PERSISTENCE_COOLDOWN as int)
}

/// Reports processes that wrote to a persistence location in the last 300 seconds.
pub fn detect_persistence(
    graph: &KnowledgeGraph,
    state: &mut GraphDetectorState,
    host: &str,
    now: &Timestamp,
) -> (incidents: Vec<Incident>)
    requires
        now@.can_move(-PERSISTENCE_WINDOW as int),
    ensures
        (final(state).fired(), incident_views(incidents@)) == ({
            let (fired, alerts) = persistence_run(old(state).fired(), *graph, host@, now@);
            (fired, incidents_of(alerts))
        }),
        final(state).suppressed() == old(state).suppressed(),
        forall|i: int|
            0 <= i < incidents@.len() ==> (#[trigger] incidents@[i]).host@ == host@ && incidents@[i].ts@
                == now@ && incidents@[i].severity == Severity::High,
{
    let cutoff = now.add_seconds(-PERSISTENCE_WINDOW);
    let active = graph.active_nodes_since(&cutoff);
    let ghost all = graph.active_ids(cutoff@);
    let ghost rule = persistence_of_node(*graph, host@, now@, cutoff@);
    let mut proposals: Vec<Vec<Alert>> = Vec::new();
    assert(proposal_views(proposals@) =~= all.take(0).flat_map(rule));
    for i in 0..active.len()
        invariant
            all == active@,
            rule == persistence_of_node(*graph, host@, now@, cutoff@),
            proposal_views(proposals@) == all.take(i as int).flat_map(rule),
    {
        proof {
            all.lemma_flat_map_take_append(rule, i as int);
        }
        let ghost before = proposals@;
        let mut more = propose_persistence(graph, host, now, &cutoff, active[i]);
        let ghost new = more@;
        proposals.append(&mut more);
        assert(proposal_views(proposals@) =~= proposal_views(before) + proposal_views(new));
    }
    assert(all.take(all.len() as int) =~= all);
    let incidents = state.raise(proposals, now, PERSISTENCE_COOLDOWN);
    proof {
        let alerts = persistence_run(old(state).fired(), *graph, host@, now@).1;
        incidents_are_those_of_the_alerts(incidents@, alerts);
        assert forall|i: int| 0 <= i < incidents@.len() implies (
        #[trigger] incidents@[i]).host@ == host@ && incidents@[i].ts@ == now@
            && incidents@[i].severity == Severity::High by {
            let _ = persistence_reports_have_a_cause(*graph, host@, now@, old(state).fired(), i);
        }
    }
    incidents
}

// ---------------------------------------------------------------------------
// Stopped security services
// ---------------------------------------------------------------------------

/// The services whose stop is reported, in the order in which they are tried.
pub open spec fn security_services() -> Seq<Seq<char>> {
    seq![
        "innerwarden"@,
        "fail2ban"@,
        "auditd"@,
        "rsyslog"@,
        "syslog"@,
        "iptables"@,
        "nftables"@,
        "ufw"@,
        "firewalld"@,
        "apparmor"@,
        "selinux"@,
    ]
}

/// The services whose stop is reported.
fn services() -> (list: Vec<&'static str>)
    ensures
        str_texts(list@) == security_services(),
{
    let list = vec![
        "innerwarden",
        "fail2ban",
        "auditd",
        "rsyslog",
        "syslog",
        "iptables",
        "nftables",
        "ufw",
        "firewalld",
        "apparmor",
        "selinux",
    ];
    assert(str_texts(list@) =~= security_services());
    list
}

/// Seconds between two reports of the stop of one service.
pub const SERVICE_STOP_COOLDOWN: i64 = 300;

/// The alert on the stop of a service by a command with the given arguments.
pub open spec fn service_stop_alert(
    host: Seq<char>,
    now: Instant,
    comm: Seq<char>,
    args: Seq<char>,
    service: Seq<char>,
) -> AlertView {
    AlertView {
        key: "graph_svc_stop:"@ + service,
        incident: IncidentView {
            ts: now,
            host,
            incident_id: "graph_service_stop:"@ + service + ":"@ + signed_decimal(now.secs),
            severity: Severity::Critical,
            title: "Security service stopped: "@ + service,
            summary: "Process '"@ + comm + "' stopped security service '"@ + service
                + "'. This may indicate defense evasion."@,
            evidence: seq![
                text_field("source", "knowledge_graph"@),
                text_field("detector", "graph_service_stop"@),
                text_field("process", comm),
                text_field("service", service),
                text_field("args", args),
            ],
            recommended_checks: seq![
                "Check if "@ + service + " is still running: systemctl status "@ + service,
                "Review who initiated the stop"@,
            ],
            tags: seq!["T1562.001"@],
            entities: Seq::empty(),
        },
    }
}

/// The alert on the stop of a service by a command with the given arguments.
fn new_service_stop_alert(
    host: &str,
    now: &Timestamp,
    comm: &str,
    args: &str,
    service: &str,
) -> (alert: Alert)
    ensures
        alert@ == service_stop_alert(host@, now@, comm@, args@, service@),
{
    let secs = signed_number(now.timestamp());
    let alert = Alert {
        key: cat2("graph_svc_stop:", service),
        incident: Incident {
            ts: *now,
            host: host.to_owned(),
            incident_id: cat4("graph_service_stop:", service, ":", &secs),
            severity: Severity::Critical,
            title: cat2("Security service stopped: ", service),
            summary: cat5(
                "Process '",
                comm,
                "' stopped security service '",
                service,
                "'. This may indicate defense evasion.",
            ),
            evidence: vec![
                Field::text("source", "knowledge_graph"),
                Field::text("detector", "graph_service_stop"),
                Field::text("process", comm),
                Field::text("service", service),
                Field::text("args", args),
            ],
            recommended_checks: vec![
                cat4("Check if ", service, " is still running: systemctl status ", service),
                "Review who initiated the stop".to_owned(),
            ],
            tags: vec!["T1562.001".to_owned()],
            entities: Vec::new(),
        },
    };
    assert(alert@ =~~= service_stop_alert(host@, now@, comm@, args@, service@));
    alert
}

/// The arguments of a command: the first summary among its edges, in lower case.
pub open spec fn command_args(edges: Seq<Edge>) -> Seq<char> {
    lowercase(
        match first_text(edges, "summary"@) {
            Some(summary) => summary,
            None => ""@,
        },
    )
}

/// The security service that a command stops or disables by its arguments.
pub open spec fn stopped_service(comm: Seq<char>, args: Seq<char>) -> Option<Seq<char>> {
    if (comm == "systemctl"@ || comm == "service"@) && (has_part(args, "stop"@) || has_part(
        args,
        "disable"@,
    )) {
        first_part(args, security_services())
    } else {
        None
    }
}

/// The security service that a command stops or disables by its arguments, which are in lower
/// case.
pub fn find_stopped_service(comm: &str, args: &str) -> (service: Option<&'static str>)
    ensures
        match service {
            Some(s) => stopped_service(comm@, args@) == Some(s@),
            None => stopped_service(comm@, args@) is None,
        },
{
    if !same_text(comm, "systemctl") && !same_text(comm, "service") {
        return None;
    }
    if !contains(args, "stop") && !contains(args, "disable") {
        return None;
    }
    find_part(args, &services())
}

/// What is proposed of a node: one alert where it is a process that stops a security service.
pub open spec fn service_stop_of_node(
    graph: KnowledgeGraph,
    host: Seq<char>,
    now: Instant,
) -> spec_fn(NodeId) -> Seq<Seq<AlertView>> {
    |id: NodeId|
        match graph.node(id) {
            Some(Node { kind: NodeKind::Process { comm }, .. }) => {
                let args = command_args(graph.outgoing(id));
                match stopped_service(comm@, args) {
                    Some(service) => seq![
                        seq![service_stop_alert(host, now, comm@, args, service)],
                    ],
                    None => Seq::empty(),
                }
            },
            _ => Seq::empty(),
        }
}

/// What [`detect_service_stop`] proposes.
pub open spec fn service_stop_proposals(
    graph: KnowledgeGraph,
    host: Seq<char>,
    now: Instant,
) -> Seq<Seq<AlertView>> {
    graph.ids_of(NodeType::Process).flat_map(service_stop_of_node(graph, host, now))
}

/// What is proposed of the node `id`.
fn propose_service_stop(
    graph: &KnowledgeGraph,
    host: &str,
    now: &Timestamp,
    id: NodeId,
) -> (proposals: Vec<Vec<Alert>>)
    ensures
        proposal_views(proposals@) == service_stop_of_node(*graph, host@, now@)(id),
{
    let mut proposals: Vec<Vec<Alert>> = Vec::new();
    match graph.get_node(id) {
        Some(Node { kind: NodeKind::Process { comm }, .. }) => {
            let edges = graph.outgoing_edges(id);
            let summary = match find_text(&edges, "summary") {
                Some(summary) => summary,
                None => "",
            };
            let args = lower_text(summary);
            match find_stopped_service(comm, &args) {
                Some(service) => {
                    let alert = new_service_stop_alert(host, now, comm, &args, service);
                    proposals.push(vec![alert]);
                },
                None => {},
            }
        },
        _ => {},
    }
    assert(proposal_views(proposals@) =~~= service_stop_of_node(*graph, host@, now@)(id));
    proposals
}

/// What a run of [`detect_service_stop`] lets fire, and when each key fired last after it.
pub open spec fn service_stop_run(
    fired: Fired,
    graph: KnowledgeGraph,
    host: Seq<char>,
    now: Instant,
) -> (Fired, Seq<AlertView>) {
    admitted(fired, service_stop_proposals(graph, host, now), now, SERVICE_STOP_COOLDOWN as int)
}

/// Reports commands that stopped or disabled a security service.
pub fn detect_service_stop(
    graph: &KnowledgeGraph,
    state: &mut GraphDetectorState,
    host: &str,
    now: &Timestamp,
) -> (incidents: Vec<Incident>)
    ensures
        (final(state).fired(), incident_views(incidents@)) == ({
            let (fired, alerts) = service_stop_run(old(state).fired(), *graph, host@, now@);
            (fired, incidents_of(alerts))
        }),
        final(state).suppressed() == old(state).suppressed(),
        forall|i: int|
            0 <= i < incidents@.len() ==> (#[trigger] incidents@[i]).host@ == host@ && incidents@[i].ts@
                == now@ && incidents@[i].severity == Severity::Critical,
{
    let ids = graph.nodes_of_type(NodeType::Process);
    let ghost all = graph.ids_of(NodeType::Process);
    let ghost rule = service_stop_of_node(*graph, host@, now@);
    let mut proposals: Vec<Vec<Alert>> = Vec::new();
    assert(proposal_views(proposals@) =~= all.take(0).flat_map(rule));
    for i in 0..ids.len()
        invariant
            all == ids@,
            rule == service_stop_of_node(*graph, host@, now@),
            proposal_views(proposals@) == all.take(i as int).flat_map(rule),
    {
        proof {
            all.lemma_flat_map_take_append(rule, i as int);
        }
        let ghost before = proposals@;
        let mut more = propose_service_stop(graph, host, now, ids[i]);
        let ghost new = more@;
        proposals.append(&mut more);
        assert(proposal_views(proposals@) =~= proposal_views(before) + proposal_views(new));
    }
    assert(all.take(all.len() as int) =~= all);
    let incidents = state.raise(proposals, now, SERVICE_STOP_COOLDOWN);
    proof {
        let alerts = service_stop_run(old(state).fired(), *graph, host@, now@).1;
        incidents_are_those_of_the_alerts(incidents@, alerts);
        assert forall|i: int| 0 <= i < incidents@.len() implies (
        #[trigger] incidents@[i]).host@ == host@ && incidents@[i].ts@ == now@
            && incidents@[i].severity == Severity::Critical by {
            let _ = service_stop_reports_have_a_cause(*graph, host@, now@, old(state).fired(), i);
        }
    }
    incidents
}

// ---------------------------------------------------------------------------
// Tampering with logs
// ---------------------------------------------------------------------------

/// The programs whose job it is to write logs.
pub open spec fn log_writers() -> Seq<Seq<char>> {
    seq![
        "rsyslog"@,
        "syslog-ng"@,
        "journald"@,
        "systemd-journal"@,
        "logrotate"@,
        "systemd"@,
        "auditd"@,
        "innerwarden-sensor"@,
        "innerwarden-agent"@,
    ]
}

/// The programs whose job it is to write logs.
fn trusted_writers() -> (list: Vec<&'static str>)
    ensures
        str_texts(list@) == log_writers(),
{
    let list = vec![
        "rsyslog",
        "syslog-ng",
        "journald",
        "systemd-journal",
        "logrotate",
        "systemd",
        "auditd",
        "innerwarden-sensor",
        "innerwarden-agent",
    ];
    assert(str_texts(list@) =~= log_writers());
    list
}

/// Seconds between two reports of one program at one log.
pub const LOG_TAMPERING_COOLDOWN: i64 = 600;

/// The alert on a change of the log `path` by the program `comm`.
pub open spec fn log_tampering_alert(
    host: Seq<char>,
    now: Instant,
    comm: Seq<char>,
    path: Seq<char>,
    relation: Relation,
) -> AlertView {
    AlertView {
        key: "graph_logtamp:"@ + comm + ":"@ + path,
        incident: IncidentView {
            ts: now,
            host,
            incident_id: "graph_log_tampering:"@ + comm + ":"@ + signed_decimal(now.secs),
            severity: Severity::High,
            title: "Log tampering: "@ + comm + " modified "@ + path,
            summary: "Non-standard process '"@ + comm + "' modified log file '"@ + path
                + "'. This may indicate log tampering to cover tracks."@,
            evidence: seq![
                text_field("source", "knowledge_graph"@),
                text_field("detector", "graph_log_tampering"@),
                text_field("process", comm),
                text_field("file", path),
                text_field("action", relation_name(relation)),
            ],
            recommended_checks: seq![
                "Check integrity of "@ + path,
                "Investigate process "@ + comm,
            ],
            tags: seq!["T1070.002"@],
            entities: Seq::empty(),
        },
    }
}

/// The alert on a change of the log `path` by the program `comm`.
fn new_log_tampering_alert(
    host: &str,
    now: &Timestamp,
    comm: &str,
    path: &str,
    relation: Relation,
) -> (alert: Alert)
    ensures
        alert@ == log_tampering_alert(host@, now@, comm@, path@, relation),
{
    let secs = signed_number(now.timestamp());
    let alert = Alert {
        key: cat4("graph_logtamp:", comm, ":", path),
        incident: Incident {
            ts: *now,
            host: host.to_owned(),
            incident_id: cat4("graph_log_tampering:", comm, ":", &secs),
            severity: Severity::High,
            title: cat4("Log tampering: ", comm, " modified ", path),
            summary: cat5(
                "Non-standard process '",
                comm,
                "' modified log file '",
                path,
                "'. This may indicate log tampering to cover tracks.",
            ),
            evidence: vec![
                Field::text("source", "knowledge_graph"),
                Field::text("detector", "graph_log_tampering"),
                Field::text("process", comm),
                Field::text("file", path),
                Field::text("action", relation.name()),
            ],
            recommended_checks: vec![
                cat2("Check integrity of ", path),
                cat2("Investigate process ", comm),
            ],
            tags: vec!["T1070.002".to_owned()],
            entities: Vec::new(),
        },
    };
    assert(alert@ =~~= log_tampering_alert(host@, now@, comm@, path@, relation));
    alert
}

/// The relations that change a file.
pub open spec fn changes_file(relation: Relation) -> bool {
    relation == Relation::Wrote || relation == Relation::Deleted || relation
        == Relation::Truncated
}

/// What is proposed of an edge of the program `comm`: one alert where it changes a file below
/// `/var/log/`.
pub open spec fn log_tampering_of_edge(
    graph: KnowledgeGraph,
    host: Seq<char>,
    now: Instant,
    comm: Seq<char>,
) -> spec_fn(Edge) -> Seq<Seq<AlertView>> {
    |e: Edge|
        match graph.node(e.to) {
            Some(Node { kind: NodeKind::File { path, .. }, .. }) if changes_file(e.relation)
                && part_at(path@, "/var/log/"@, 0) => seq![
                seq![log_tampering_alert(host, now, comm, path@, e.relation)],
            ],
            _ => Seq::empty(),
        }
}

/// What is proposed of a node: the proposals of the edges that leave it, where it is a process that
/// is no log writer.
pub open spec fn log_tampering_of_node(
    graph: KnowledgeGraph,
    host: Seq<char>,
    now: Instant,
) -> spec_fn(NodeId) -> Seq<Seq<AlertView>> {
    |id: NodeId|
        match graph.node(id) {
            Some(Node { kind: NodeKind::Process { comm }, .. }) if !log_writers().contains(
                comm@,
            ) => graph.outgoing(id).flat_map(log_tampering_of_edge(graph, host, now, comm@)),
            _ => Seq::empty(),
        }
}

/// What [`detect_log_tampering`] proposes.
pub open spec fn log_tampering_proposals(
    graph: KnowledgeGraph,
    host: Seq<char>,
    now: Instant,
) -> Seq<Seq<AlertView>> {
    graph.ids_of(NodeType::Process).flat_map(log_tampering_of_node(graph, host, now))
}

/// What is proposed of the node `id`.
fn propose_log_tampering(
    graph: &KnowledgeGraph,
    host: &str,
    now: &Timestamp,
    id: NodeId,
) -> (proposals: Vec<Vec<Alert>>)
    ensures
        proposal_views(proposals@) == log_tampering_of_node(*graph, host@, now@)(id),
{
    let mut proposals: Vec<Vec<Alert>> = Vec::new();
    assert(proposal_views(proposals@) =~= Seq::empty());
    let comm = match graph.get_node(id) {
        Some(Node { kind: NodeKind::Process { comm }, .. }) => comm,
        _ => {
            return proposals;
        },
    };
    if one_of(comm, &trusted_writers()) {
        return proposals;
    }
    let edges = graph.outgoing_edges(id);
    let ghost all = graph.outgoing(id);
    let ghost rule = log_tampering_of_edge(*graph, host@, now@, comm@);
    assert(proposal_views(proposals@) =~= all.take(0).flat_map(rule));
    for i in 0..edges.len()
        invariant
            all == edges@.unref(),
            rule == log_tampering_of_edge(*graph, host@, now@, comm@),
            proposal_views(proposals@) == all.take(i as int).flat_map(rule),
    {
        proof {
            all.lemma_flat_map_take_append(rule, i as int);
        }
        let ghost before = proposals@;
        let edge = edges[i];
        if edge.relation == Relation::Wrote || edge.relation == Relation::Deleted || edge.relation
            == Relation::Truncated {
            match graph.get_node(edge.to) {
                Some(Node { kind: NodeKind::File { path, .. }, .. }) => {
                    if starts_with(path, "/var/log/") {
                        let alert = new_log_tampering_alert(host, now, comm, path, edge.relation);
                        let proposal = vec![alert];
                        assert(alert_views(proposal@) =~= seq![alert@]);
                        proposals.push(proposal);
                        assert(proposal_views(proposals@) =~= proposal_views(before) + rule(
                            all[i as int],
                        ));
                    }
                },
                _ => {},
            }
        }
    }
    assert(all.take(all.len() as int) =~= all);
    proposals
}

/// What a run of [`detect_log_tampering`] lets fire, and when each key fired last after it.
pub open spec fn log_tampering_run(
    fired: Fired,
    graph: KnowledgeGraph,
    host: Seq<char>,
    now: Instant,
) -> (Fired, Seq<AlertView>) {
    admitted(fired, log_tampering_proposals(graph, host, now), now, LOG_TAMPERING_COOLDOWN as int)
}

/// Reports programs other than log writers that changed a file below `/var/log/`.
pub fn detect_log_tampering(
    graph: &KnowledgeGraph,
    state: &mut GraphDetectorState,
    host: &str,
    now: &Timestamp,
) -> (incidents: Vec<Incident>)
    ensures
        (final(state).fired(), incident_views(incidents@)) == ({
            let (fired, alerts) = log_tampering_run(old(state).fired(), *graph, host@, now@);
            (fired, incidents_of(alerts))
        }),
        final(state).suppressed() == old(state).suppressed(),
        forall|i: int|
            0 <= i < incidents@.len() ==> (#[trigger] incidents@[i]).host@ == host@ && incidents@[i].ts@
                == now@ && incidents@[i].severity == Severity::High,
{
    let ids = graph.nodes_of_type(NodeType::Process);
    let ghost all = graph.ids_of(NodeType::Process);
    let ghost rule = log_tampering_of_node(*graph, host@, now@);
    let mut proposals: Vec<Vec<Alert>> = Vec::new();
    assert(proposal_views(proposals@) =~= all.take(0).flat_map(rule));
    for i in 0..ids.len()
        invariant
            all == ids@,
            rule == log_tampering_of_node(*graph, host@, now@),
            proposal_views(proposals@) == all.take(i as int).flat_map(rule),
    {
        proof {
            all.lemma_flat_map_take_append(rule, i as int);
        }
        let ghost before = proposals@;
        let mut more = propose_log_tampering(graph, host, now, ids[i]);
        let ghost new = more@;
        proposals.append(&mut more);
        assert(proposal_views(proposals@) =~= proposal_views(before) + proposal_views(new));
    }
    assert(all.take(all.len() as int) =~= all);
    let incidents = state.raise(proposals, now, LOG_TAMPERING_COOLDOWN);
    proof {
        let alerts = log_tampering_run(old(state).fired(), *graph, host@, now@).1;
        incidents_are_those_of_the_alerts(incidents@, alerts);
        assert forall|i: int| 0 <= i < incidents@.len() implies (
        #[trigger] incidents@[i]).host@ == host@ && incidents@[i].ts@ == now@
            && incidents@[i].severity == Severity::High by {
            let _ = log_tampering_reports_have_a_cause(*graph, host@, now@, old(state).fired(), i);
        }
    }
    incidents
}

// ---------------------------------------------------------------------------
// Bursts of sudo
// ---------------------------------------------------------------------------

/// Seconds in which uses of `sudo` are counted.
pub const SUDO_WINDOW: i64 = 60;

/// Uses of `sudo` from which on they are reported.
pub const SUDO_THRESHOLD: usize = 10;

/// Seconds between two reports of one user.
pub const SUDO_COOLDOWN: i64 = 1800;

/// The alert on `count` uses of `sudo` by a user.
pub open spec fn sudo_abuse_alert(
    host: Seq<char>,
    now: Instant,
    name: Seq<char>,
    count: nat,
) -> AlertView {
    AlertView {
        key: "graph_sudoabuse:"@ + name,
        incident: IncidentView {
            ts: now,
            host,
            incident_id: "graph_sudo_abuse:"@ + name + ":"@ + signed_decimal(now.secs),
            severity: Severity::High,
            title: "Sudo abuse: "@ + name + " ran "@ + decimal(count) + " sudo commands in 1m"@,
            summary: "User '"@ + name + "' executed "@ + decimal(count)
                + " sudo commands in 1 minute. May indicate privilege abuse or automated exploitation."@,
            evidence: seq![
                text_field("source", "knowledge_graph"@),
                text_field("detector", "graph_sudo_abuse"@),
                text_field("user", name),
                count_field("sudo_count", count),
            ],
            recommended_checks: seq![
                "Check sudo log: journalctl _COMM=sudo | grep "@ + name,
                "Suspend user: innerwarden suspend-user "@ + name,
            ],
            tags: seq!["T1548.003"@],
            entities: seq![EntityView { kind: EntityKind::User, value: name }],
        },
    }
}

/// The alert on `count` uses of `sudo` by a user.
fn new_sudo_abuse_alert(host: &str, now: &Timestamp, name: &str, count: usize) -> (alert: Alert)
    ensures
        alert@ == sudo_abuse_alert(host@, now@, name@, count as nat),
{
    let secs = signed_number(now.timestamp());
    let count_text = number(count as u64);
    let alert = Alert {
        key: cat2("graph_sudoabuse:", name),
        incident: Incident {
            ts: *now,
            host: host.to_owned(),
            incident_id: cat4("graph_sudo_abuse:", name, ":", &secs),
            severity: Severity::High,
            title: cat5("Sudo abuse: ", name, " ran ", &count_text, " sudo commands in 1m"),
            summary: cat5(
                "User '",
                name,
                "' executed ",
                &count_text,
                " sudo commands in 1 minute. May indicate privilege abuse or automated exploitation.",
            ),
            evidence: vec![
                Field::text("source", "knowledge_graph"),
                Field::text("detector", "graph_sudo_abuse"),
                Field::text("user", name),
                Field::count("sudo_count", count),
            ],
            recommended_checks: vec![
                cat2("Check sudo log: journalctl _COMM=sudo | grep ", name),
                cat2("Suspend user: innerwarden suspend-user ", name),
            ],
            tags: vec!["T1548.003".to_owned()],
            entities: vec![EntityRef::user(name)],
        },
    };
    assert(alert@ =~~= sudo_abuse_alert(host@, now@, name@, count as nat));
    alert
}

/// The uses of `sudo` by the user at the node `id` in the last minute. These edges lead from the
/// process to the user.
pub open spec fn recent_sudo(graph: KnowledgeGraph, now: Instant, id: NodeId) -> Seq<Edge> {
    graph.incoming(id).filter(windowed(Relation::SudoAs, now, SUDO_WINDOW as int))
}

/// What is proposed of a node: one alert where it is a user other than `root` with enough recent
/// uses of `sudo`.
pub open spec fn sudo_abuse_of_node(
    graph: KnowledgeGraph,
    host: Seq<char>,
    now: Instant,
) -> spec_fn(NodeId) -> Seq<Seq<AlertView>> {
    |id: NodeId|
        match graph.node(id) {
            Some(Node { kind: NodeKind::User { name }, .. }) if name@ != "root"@ && recent_sudo(
                graph,
                now,
                id,
            ).len() >= SUDO_THRESHOLD => seq![
                seq![sudo_abuse_alert(host, now, name@, recent_sudo(graph, now, id).len())],
            ],
            _ => Seq::empty(),
        }
}

/// What [`detect_sudo_abuse`] proposes.
pub open spec fn sudo_abuse_proposals(
    graph: KnowledgeGraph,
    host: Seq<char>,
    now: Instant,
) -> Seq<Seq<AlertView>> {
    graph.ids_of(NodeType::User).flat_map(sudo_abuse_of_node(graph, host, now))
}

/// What is proposed of the node `id`.
fn propose_sudo_abuse(
    graph: &KnowledgeGraph,
    host: &str,
    now: &Timestamp,
    id: NodeId,
) -> (proposals: Vec<Vec<Alert>>)
    ensures
        proposal_views(proposals@) == sudo_abuse_of_node(*graph, host@, now@)(id),
{
    let mut proposals: Vec<Vec<Alert>> = Vec::new();
    match graph.get_node(id) {
        Some(Node { kind: NodeKind::User { name }, .. }) => {
            if !same_text(name, "root") {
                let edges = graph.incoming_edges(id);
                let recent = pick_windowed(&edges, Relation::SudoAs, now, SUDO_WINDOW);
                assert(recent@.unref().len() == recent@.len());
                if recent.len() >= SUDO_THRESHOLD {
                    proposals.push(vec![new_sudo_abuse_alert(host, now, name, recent.len())]);
                }
            }
        },
        _ => {},
    }
    assert(proposal_views(proposals@) =~~= sudo_abuse_of_node(*graph, host@, now@)(id));
    proposals
}

/// What a run of [`detect_sudo_abuse`] lets fire, and when each key fired last after it.
pub open spec fn sudo_abuse_run(
    fired: Fired,
    graph: KnowledgeGraph,
    host: Seq<char>,
    now: Instant,
) -> (Fired, Seq<AlertView>) {
    admitted(fired, sudo_abuse_proposals(graph, host, now), now, SUDO_COOLDOWN as int)
}

/// Reports users other than `root` with ten or more uses of `sudo` in the last minute.
pub fn detect_sudo_abuse(
    graph: &KnowledgeGraph,
    state: &mut GraphDetectorState,
    host: &str,
    now: &Timestamp,
) -> (incidents: Vec<Incident>)
    ensures
        (final(state).fired(), incident_views(incidents@)) == ({
            let (fired, alerts) = sudo_abuse_run(old(state).fired(), *graph, host@, now@);
            (fired, incidents_of(alerts))
        }),
        final(state).suppressed() == old(state).suppressed(),
        forall|i: int|
            0 <= i < incidents@.len() ==> (#[trigger] incidents@[i]).host@ == host@ && incidents@[i].ts@
                == now@ && incidents@[i].severity == Severity::High,
{
    let ids = graph.nodes_of_type(NodeType::User);
    let ghost all = graph.ids_of(NodeType::User);
    let ghost rule = sudo_abuse_of_node(*graph, host@, now@);
    let mut proposals: Vec<Vec<Alert>> = Vec::new();
    assert(proposal_views(proposals@) =~= all.take(0).flat_map(rule));
    for i in 0..ids.len()
        invariant
            all == ids@,
            rule == sudo_abuse_of_node(*graph, host@, now@),
            proposal_views(proposals@) == all.take(i as int).flat_map(rule),
    {
        proof {
            all.lemma_flat_map_take_append(rule, i as int);
        }
        let ghost before = proposals@;
        let mut more = propose_sudo_abuse(graph, host, now, ids[i]);
        let ghost new = more@;
        proposals.append(&mut more);
        assert(proposal_views(proposals@) =~= proposal_views(before) + proposal_views(new));
    }
    assert(all.take(all.len() as int) =~= all);
    let incidents = state.raise(proposals, now, SUDO_COOLDOWN);
    proof {
        let alerts = sudo_abuse_run(old(state).fired(), *graph, host@, now@).1;
        incidents_are_those_of_the_alerts(incidents@, alerts);
        assert forall|i: int| 0 <= i < incidents@.len() implies (
        #[trigger] incidents@[i]).host@ == host@ && incidents@[i].ts@ == now@
            && incidents@[i].severity == Severity::High by {
            let _ = sudo_reports_have_a_cause(*graph, host@, now@, old(state).fired(), i);
        }
    }
    incidents
}

// ---------------------------------------------------------------------------
// Laws
// ---------------------------------------------------------------------------

/// A second run of [`detect_service_stop`] on the same graph within 300 seconds reports nothing,
/// unless the cooldown of an older report ends in between.
pub proof fn repeated_service_stop_is_silent(
    graph: KnowledgeGraph,
    host: Seq<char>,
    now: Instant,
    later: Instant,
    fired: Fired,
)
    requires
        in_window(now, later, SERVICE_STOP_COOLDOWN as int),
        cooldowns_last(
            fired,
            service_stop_proposals(graph, host, later),
            now,
            later,
            SERVICE_STOP_COOLDOWN as int,
        ),
    ensures
        ({
            let first = service_stop_proposals(graph, host, now);
            let second = service_stop_proposals(graph, host, later);
            let after = admitted(fired, first, now, SERVICE_STOP_COOLDOWN as int).0;
            admitted(after, second, later, SERVICE_STOP_COOLDOWN as int) == (
                after,
                Seq::<AlertView>::empty(),
            )
        }),
{
    let first = service_stop_proposals(graph, host, now);
    let second = service_stop_proposals(graph, host, later);
    let ids = graph.ids_of(NodeType::Process);
    let rule = service_stop_of_node(graph, host, now);
    let later_rule = service_stop_of_node(graph, host, later);
    assert forall|x| single_alternatives(#[trigger] rule(x)) by {}
    flat_singles(ids, rule);
    singles_have_one_key(first);
    assert forall|x| keys_among(#[trigger] later_rule(x), rule(x)) by {
        single_keys_among(later_rule(x), rule(x));
    }
    flat_keys_among(ids, later_rule, ids, rule);
    repetition_is_silent(fired, first, second, now, later, SERVICE_STOP_COOLDOWN as int);
}

/// A second run of [`detect_log_tampering`] on the same graph within 600 seconds reports nothing,
/// unless the cooldown of an older report ends in between.
pub proof fn repeated_log_tampering_is_silent(
    graph: KnowledgeGraph,
    host: Seq<char>,
    now: Instant,
    later: Instant,
    fired: Fired,
)
    requires
        in_window(now, later, LOG_TAMPERING_COOLDOWN as int),
        cooldowns_last(
            fired,
            log_tampering_proposals(graph, host, later),
            now,
            later,
            LOG_TAMPERING_COOLDOWN as int,
        ),
    ensures
        ({
            let first = log_tampering_proposals(graph, host, now);
            let second = log_tampering_proposals(graph, host, later);
            let after = admitted(fired, first, now, LOG_TAMPERING_COOLDOWN as int).0;
            admitted(after, second, later, LOG_TAMPERING_COOLDOWN as int) == (
                after,
                Seq::<AlertView>::empty(),
            )
        }),
{
    let first = log_tampering_proposals(graph, host, now);
    let second = log_tampering_proposals(graph, host, later);
    let ids = graph.ids_of(NodeType::Process);
    let rule = log_tampering_of_node(graph, host, now);
    let later_rule = log_tampering_of_node(graph, host, later);
    assert forall|x|
        single_alternatives(#[trigger] rule(x)) && keys_among(later_rule(x), rule(x)) by {
        match graph.node(x) {
            Some(Node { kind: NodeKind::Process { comm }, .. }) => {
                let edges = graph.outgoing(x);
                let edge_rule = log_tampering_of_edge(graph, host, now, comm@);
                let later_edge_rule = log_tampering_of_edge(graph, host, later, comm@);
                assert forall|e| single_alternatives(#[trigger] edge_rule(e)) by {}
                flat_singles(edges, edge_rule);
                assert forall|e| keys_among(#[trigger] later_edge_rule(e), edge_rule(e)) by {
                    single_keys_among(later_edge_rule(e), edge_rule(e));
                }
                flat_keys_among(edges, later_edge_rule, edges, edge_rule);
            },
            _ => {},
        }
    }
    flat_singles(ids, rule);
    singles_have_one_key(first);
    assert forall|x| keys_among(#[trigger] later_rule(x), rule(x)) by {
        assert(single_alternatives(rule(x)));
    }
    flat_keys_among(ids, later_rule, ids, rule);
    repetition_is_silent(fired, first, second, now, later, LOG_TAMPERING_COOLDOWN as int);
}

/// A second run of [`detect_sudo_abuse`] on the same graph within 1800 seconds reports nothing,
/// unless the cooldown of an older report ends in between. No edge may be younger in the second
/// run, which none is outside leap seconds.
pub proof fn repeated_sudo_abuse_is_silent(
    graph: KnowledgeGraph,
    host: Seq<char>,
    now: Instant,
    later: Instant,
    fired: Fired,
)
    requires
        edges_age(graph, now, later),
        in_window(now, later, SUDO_COOLDOWN as int),
        cooldowns_last(
            fired,
            sudo_abuse_proposals(graph, host, later),
            now,
            later,
            SUDO_COOLDOWN as int,
        ),
    ensures
        ({
            let first = sudo_abuse_proposals(graph, host, now);
            let second = sudo_abuse_proposals(graph, host, later);
            let after = admitted(fired, first, now, SUDO_COOLDOWN as int).0;
            admitted(after, second, later, SUDO_COOLDOWN as int) == (
                after,
                Seq::<AlertView>::empty(),
            )
        }),
{
    let first = sudo_abuse_proposals(graph, host, now);
    let second = sudo_abuse_proposals(graph, host, later);
    let ids = graph.ids_of(NodeType::User);
    let rule = sudo_abuse_of_node(graph, host, now);
    let later_rule = sudo_abuse_of_node(graph, host, later);
    assert forall|x| single_alternatives(#[trigger] rule(x)) by {}
    flat_singles(ids, rule);
    singles_have_one_key(first);
    assert forall|x| keys_among(#[trigger] later_rule(x), rule(x)) by {
        let less = windowed(Relation::SudoAs, later, SUDO_WINDOW as int);
        let more = windowed(Relation::SudoAs, now, SUDO_WINDOW as int);
        windows_move_on(
            graph,
            reaches(x),
            Relation::SudoAs,
            now,
            later,
            SUDO_WINDOW as int,
        );
        narrower_filters_keep_fewer(graph.incoming(x), less, more, more);
        single_keys_among(later_rule(x), rule(x));
    }
    flat_keys_among(ids, later_rule, ids, rule);
    repetition_is_silent(fired, first, second, now, later, SUDO_COOLDOWN as int);
}

/// A user that [`detect_sudo_abuse`] reported is not reported again within 1800 seconds, whatever
/// happens on the host in between.
pub proof fn sudo_reports_are_not_repeated(
    graph: KnowledgeGraph,
    grown: KnowledgeGraph,
    host: Seq<char>,
    now: Instant,
    later: Instant,
    fired: Fired,
)
    requires
        in_window(now, later, SUDO_COOLDOWN as int),
    ensures
        ({
            let first = sudo_abuse_proposals(graph, host, now);
            let second = sudo_abuse_proposals(grown, host, later);
            let (after, alerts) = admitted(fired, first, now, SUDO_COOLDOWN as int);
            no_key_again(alerts, admitted(after, second, later, SUDO_COOLDOWN as int).1)
        }),
{
    no_key_fires_again_within_its_cooldown(
        fired,
        sudo_abuse_proposals(graph, host, now),
        sudo_abuse_proposals(grown, host, later),
        now,
        later,
        SUDO_COOLDOWN as int,
    );
}

/// `root` is never reported for its use of `sudo`: nothing is proposed of it.
pub proof fn root_is_never_reported_for_sudo(
    graph: KnowledgeGraph,
    host: Seq<char>,
    now: Instant,
    id: NodeId,
)
    requires
        graph.node(id) matches Some(Node { kind: NodeKind::User { name }, .. }) && name@
            == "root"@,
    ensures
        sudo_abuse_of_node(graph, host, now)(id) == Seq::<Seq<AlertView>>::empty(),
{
}

/// Log writers are never reported for what they do to logs: nothing is proposed of them.
pub proof fn log_writers_are_never_reported(
    graph: KnowledgeGraph,
    host: Seq<char>,
    now: Instant,
    id: NodeId,
)
    requires
        graph.node(id) matches Some(Node { kind: NodeKind::Process { comm }, .. })
            && log_writers().contains(comm@),
    ensures
        log_tampering_of_node(graph, host, now)(id) == Seq::<Seq<AlertView>>::empty(),
{
}

/// No write to a persistence location is missed: of every write of a file by a process in the last
/// 300 seconds there is a proposal, with an alternative for each location that the file lies in.
pub proof fn no_persistence_write_is_missed(
    graph: KnowledgeGraph,
    host: Seq<char>,
    now: Instant,
    e: int,
)
    requires
        0 <= e < graph.edges@.len(),
        graph.edges@[e].relation == Relation::Wrote,
        !graph.edges@[e].ts@.before(now.moved(-PERSISTENCE_WINDOW as int)),
        graph.node(graph.edges@[e].from) matches Some(
            Node { kind: NodeKind::Process { .. }, .. },
        ),
        graph.node(graph.edges@[e].to) matches Some(Node { kind: NodeKind::File { .. }, .. }),
    ensures
        match (graph.node(graph.edges@[e].from), graph.node(graph.edges@[e].to)) {
            (Some(Node { label, .. }), Some(Node { kind: NodeKind::File { path, .. }, .. })) => {
                persistence_proposals(graph, host, now).contains(
                    persistence_alternatives(host, now, graph.edges@[e].from, label@, path@),
                )
            },
            _ => false,
        },
{
    let edge = graph.edges@[e];
    let cutoff = now.moved(-PERSISTENCE_WINDOW as int);
    let id = edge.from;
    match (graph.node(edge.from), graph.node(edge.to)) {
        (
            Some(Node { label, .. }),
            Some(Node { kind: NodeKind::File { path, .. }, .. }),
        ) => {
            let wanted = persistence_alternatives(host, now, id, label@, path@);
            let edge_rule = persistence_of_edge(graph, host, now, cutoff, id, label@);
            let node_rule = persistence_of_node(graph, host, now, cutoff);
            assert(edge_rule(edge) =~= seq![wanted]);
            assert(edge_rule(edge)[0] == wanted);
            edges_leave_their_source(graph, e);
            flat_map_holds(graph.outgoing(id), edge_rule, edge, wanted);
            assert(node_rule(id).contains(wanted));
            assert(graph.ids()[id as int] == id);
            assert(graph.active(cutoff)(id));
            graph.ids().lemma_filter_contains(graph.active(cutoff), id as int);
            flat_map_holds(graph.active_ids(cutoff), node_rule, id, wanted);
        },
        _ => {},
    }
}

/// No file of the graph lies in locations of two kinds.
pub open spec fn kinds_of_locations_apart(graph: KnowledgeGraph) -> bool {
    forall|id: NodeId, i: int, j: int|
        #![trigger graph.node(id), persistence_locations()[i], persistence_locations()[j]]
        0 <= i < persistence_locations().len() && 0 <= j < persistence_locations().len() ==> (
        graph.node(id) matches Some(Node { kind: NodeKind::File { path, .. }, .. }) ==> has_part(
            path@,
            persistence_locations()[i].part,
        ) && has_part(path@, persistence_locations()[j].part) ==> persistence_locations()[i].detector
            == persistence_locations()[j].detector)
}

/// The keys of the alerts on a write do not depend on when it is looked at.
proof fn persistence_keys_do_not_depend_on_time(
    host: Seq<char>,
    now: Instant,
    later: Instant,
    id: NodeId,
    label: Seq<char>,
    path: Seq<char>,
)
    ensures
        keys_among(
            seq![persistence_alternatives(host, later, id, label, path)],
            seq![persistence_alternatives(host, now, id, label, path)],
        ),
{
    let all = persistence_locations();
    let rule = alert_for_location(host, now, id, label, path);
    let later_rule = alert_for_location(host, later, id, label, path);
    let first = seq![persistence_alternatives(host, now, id, label, path)];
    let second = seq![persistence_alternatives(host, later, id, label, path)];
    assert forall|key: Seq<char>| #[trigger] proposes(second, key) implies proposes(first, key) by {
        let (p, i) = choose|p: int, i: int|
            0 <= p < second.len() && 0 <= i < second[p].len() && (#[trigger] second[p][i]).key
                == key;
        let n = flat_map_origin(all, later_rule, i);
        let alert = persistence_alert(host, now, id, label, path, all[n]);
        assert(rule(all[n])[0] == alert);
        flat_map_holds(all, rule, all[n], alert);
        let j = choose|j: int| 0 <= j < first[0].len() && first[0][j] == alert;
        assert(first[0][j].key == key);
    }
}

/// The keys that [`detect_persistence`] proposes later on the same graph are among those that it
/// proposes now.
proof fn persistence_keys_move_on(
    graph: KnowledgeGraph,
    host: Seq<char>,
    now: Instant,
    later: Instant,
)
    requires
        !later.moved(-PERSISTENCE_WINDOW as int).before(now.moved(-PERSISTENCE_WINDOW as int)),
    ensures
        keys_among(
            persistence_proposals(graph, host, later),
            persistence_proposals(graph, host, now),
        ),
{
    let cutoff = now.moved(-PERSISTENCE_WINDOW as int);
    let later_cutoff = later.moved(-PERSISTENCE_WINDOW as int);
    let rule = persistence_of_node(graph, host, now, cutoff);
    let later_rule = persistence_of_node(graph, host, later, later_cutoff);
    assert forall|x: NodeId| keys_among(#[trigger] later_rule(x), rule(x)) by {
        match graph.node(x) {
            Some(Node { label, kind: NodeKind::Process { .. } }) => {
                let edges = graph.outgoing(x);
                let edge_rule = persistence_of_edge(graph, host, now, cutoff, x, label@);
                let later_edge_rule = persistence_of_edge(
                    graph,
                    host,
                    later,
                    later_cutoff,
                    x,
                    label@,
                );
                assert forall|e: Edge| keys_among(#[trigger] later_edge_rule(e), edge_rule(e)) by {
                    match graph.node(e.to) {
                        Some(Node { kind: NodeKind::File { path, .. }, .. }) => {
                            persistence_keys_do_not_depend_on_time(
                                host,
                                now,
                                later,
                                x,
                                label@,
                                path@,
                            );
                        },
                        _ => {},
                    }
                }
                flat_keys_among(edges, later_edge_rule, edges, edge_rule);
            },
            _ => {},
        }
    }
    let ids = graph.active_ids(cutoff);
    let later_ids = graph.active_ids(later_cutoff);
    assert(narrower(graph.ids(), graph.active(later_cutoff), graph.active(cutoff)));
    narrower_filters_keep_some(graph.ids(), graph.active(later_cutoff), graph.active(cutoff));
    flat_keys_among(later_ids, later_rule, ids, rule);
}

/// Where no file lies in locations of two kinds, a second run of [`detect_persistence`] on the same
/// graph within 600 seconds reports nothing, unless the cooldown of an older report ends in
/// between. The window may not begin earlier in the second run, which it does not outside leap
/// seconds. (A file in locations of two kinds is reported for the one in the first run and for the
/// other in the second.)
pub proof fn repeated_persistence_is_silent(
    graph: KnowledgeGraph,
    host: Seq<char>,
    now: Instant,
    later: Instant,
    fired: Fired,
)
    requires
        kinds_of_locations_apart(graph),
        !later.moved(-PERSISTENCE_WINDOW as int).before(now.moved(-PERSISTENCE_WINDOW as int)),
        in_window(now, later, PERSISTENCE_COOLDOWN as int),
        cooldowns_last(
            fired,
            persistence_proposals(graph, host, later),
            now,
            later,
            PERSISTENCE_COOLDOWN as int,
        ),
    ensures
        ({
            let first = persistence_proposals(graph, host, now);
            let second = persistence_proposals(graph, host, later);
            let after = admitted(fired, first, now, PERSISTENCE_COOLDOWN as int).0;
            admitted(after, second, later, PERSISTENCE_COOLDOWN as int) == (
                after,
                Seq::<AlertView>::empty(),
            )
        }),
{
    let first = persistence_proposals(graph, host, now);
    let second = persistence_proposals(graph, host, later);
    let cutoff = now.moved(-PERSISTENCE_WINDOW as int);
    let node_rule = persistence_of_node(graph, host, now, cutoff);
    assert forall|id: NodeId| one_key_each(#[trigger] node_rule(id)) by {
        match graph.node(id) {
            Some(Node { label, kind: NodeKind::Process { .. } }) => {
                let edge_rule = persistence_of_edge(graph, host, now, cutoff, id, label@);
                assert forall|e: Edge| one_key_each(#[trigger] edge_rule(e)) by {
                    match graph.node(e.to) {
                        Some(Node { kind: NodeKind::File { path, .. }, .. }) => {
                            let alternatives = persistence_alternatives(
                                host,
                                now,
                                id,
                                label@,
                                path@,
                            );
                            assert forall|i: int, j: int|
                                0 <= i < alternatives.len() && 0 <= j
                                    < alternatives.len() implies (#[trigger] alternatives[i]).key
                                == (#[trigger] alternatives[j]).key by {
                                let rule = alert_for_location(host, now, id, label@, path@);
                                let all = persistence_locations();
                                let a = flat_map_origin(all, rule, i);
                                let b = flat_map_origin(all, rule, j);
                                assert(has_part(path@, all[a].part));
                                assert(has_part(path@, all[b].part));
                                assert(graph.node(e.to) is Some);
                                assert(all[a].detector == all[b].detector);
                            }
                        },
                        _ => {},
                    }
                }
                flat_one_key(graph.outgoing(id), edge_rule);
            },
            _ => {},
        }
    }
    flat_one_key(graph.active_ids(cutoff), node_rule);
    persistence_keys_move_on(graph, host, now, later);
    repetition_is_silent(fired, first, second, now, later, PERSISTENCE_COOLDOWN as int);
}

/// A kind of persistence that [`detect_persistence`] reported of a process is not reported of it
/// again within 600 seconds, whatever happens on the host in between.
pub proof fn persistence_reports_are_not_repeated(
    graph: KnowledgeGraph,
    grown: KnowledgeGraph,
    host: Seq<char>,
    now: Instant,
    later: Instant,
    fired: Fired,
)
    requires
        in_window(now, later, PERSISTENCE_COOLDOWN as int),
    ensures
        ({
            let first = persistence_proposals(graph, host, now);
            let second = persistence_proposals(grown, host, later);
            let (after, alerts) = admitted(fired, first, now, PERSISTENCE_COOLDOWN as int);
            no_key_again(alerts, admitted(after, second, later, PERSISTENCE_COOLDOWN as int).1)
        }),
{
    no_key_fires_again_within_its_cooldown(
        fired,
        persistence_proposals(graph, host, now),
        persistence_proposals(grown, host, later),
        now,
        later,
        PERSISTENCE_COOLDOWN as int,
    );
}

/// A command that stops a security service is reported, unless a report of that service is less
/// than 300 seconds old.
pub proof fn stopped_services_are_reported(
    graph: KnowledgeGraph,
    host: Seq<char>,
    now: Instant,
    fired: Fired,
    id: NodeId,
    comm: Seq<char>,
    service: Seq<char>,
)
    requires
        graph.node(id) matches Some(Node { kind: NodeKind::Process { comm: c }, .. }) && c@ == comm,
        stopped_service(comm, command_args(graph.outgoing(id))) == Some(service),
        !cooling(fired, "graph_svc_stop:"@ + service, now, SERVICE_STOP_COOLDOWN as int),
    ensures
        keys_of(
            admitted(
                fired,
                service_stop_proposals(graph, host, now),
                now,
                SERVICE_STOP_COOLDOWN as int,
            ).1,
        ).contains("graph_svc_stop:"@ + service),
{
    let rule = service_stop_of_node(graph, host, now);
    let alert = service_stop_alert(host, now, comm, command_args(graph.outgoing(id)), service);
    nodes_are_listed(graph, NodeType::Process, id);
    assert(rule(id)[0] == seq![alert]);
    proposed_alerts_fire(
        fired,
        graph.ids_of(NodeType::Process),
        rule,
        id,
        alert,
        now,
        SERVICE_STOP_COOLDOWN as int,
    );
}

/// A program other than a log writer that changes a file below `/var/log/` is reported, unless a
/// report of that program at that file is less than 600 seconds old.
pub proof fn log_tampering_is_reported(
    graph: KnowledgeGraph,
    host: Seq<char>,
    now: Instant,
    fired: Fired,
    e: int,
    comm: Seq<char>,
    path: Seq<char>,
)
    requires
        0 <= e < graph.edges@.len(),
        changes_file(graph.edges@[e].relation),
        graph.node(graph.edges@[e].from) matches Some(
            Node { kind: NodeKind::Process { comm: c }, .. },
        ) && c@ == comm,
        graph.node(graph.edges@[e].to) matches Some(
            Node { kind: NodeKind::File { path: p, .. }, .. },
        ) && p@ == path,
        !log_writers().contains(comm),
        part_at(path, "/var/log/"@, 0),
        !cooling(
            fired,
            "graph_logtamp:"@ + comm + ":"@ + path,
            now,
            LOG_TAMPERING_COOLDOWN as int,
        ),
    ensures
        keys_of(
            admitted(
                fired,
                log_tampering_proposals(graph, host, now),
                now,
                LOG_TAMPERING_COOLDOWN as int,
            ).1,
        ).contains("graph_logtamp:"@ + comm + ":"@ + path),
{
    let edge = graph.edges@[e];
    let id = edge.from;
    let rule = log_tampering_of_node(graph, host, now);
    let edge_rule = log_tampering_of_edge(graph, host, now, comm);
    let alert = log_tampering_alert(host, now, comm, path, edge.relation);
    nodes_are_listed(graph, NodeType::Process, id);
    edges_leave_their_source(graph, e);
    assert(edge_rule(edge)[0] == seq![alert]);
    flat_map_holds(graph.outgoing(id), edge_rule, edge, seq![alert]);
    proposed_alerts_fire(
        fired,
        graph.ids_of(NodeType::Process),
        rule,
        id,
        alert,
        now,
        LOG_TAMPERING_COOLDOWN as int,
    );
}

/// A user other than `root` with ten or more uses of `sudo` in the last minute is reported, unless
/// a report of that user is less than 1800 seconds old.
pub proof fn sudo_bursts_are_reported(
    graph: KnowledgeGraph,
    host: Seq<char>,
    now: Instant,
    fired: Fired,
    id: NodeId,
    name: Seq<char>,
)
    requires
        graph.node(id) matches Some(Node { kind: NodeKind::User { name: n }, .. }) && n@ == name,
        name != "root"@,
        recent_sudo(graph, now, id).len() >= SUDO_THRESHOLD,
        !cooling(fired, "graph_sudoabuse:"@ + name, now, SUDO_COOLDOWN as int),
    ensures
        keys_of(
            admitted(fired, sudo_abuse_proposals(graph, host, now), now, SUDO_COOLDOWN as int).1,
        ).contains("graph_sudoabuse:"@ + name),
{
    let rule = sudo_abuse_of_node(graph, host, now);
    let alert = sudo_abuse_alert(host, now, name, recent_sudo(graph, now, id).len());
    nodes_are_listed(graph, NodeType::User, id);
    assert(rule(id)[0] == seq![alert]);
    proposed_alerts_fire(
        fired,
        graph.ids_of(NodeType::User),
        rule,
        id,
        alert,
        now,
        SUDO_COOLDOWN as int,
    );
}

/// A process that wrote to a persistence location in the last 300 seconds is reported for a
/// location that the file lies in, unless for each of these a report of its kind by that process is
/// less than 600 seconds old.
pub proof fn persistence_writes_are_reported(
    graph: KnowledgeGraph,
    host: Seq<char>,
    now: Instant,
    fired: Fired,
    e: int,
    path: Seq<char>,
    i: int,
)
    requires
        0 <= e < graph.edges@.len(),
        graph.edges@[e].relation == Relation::Wrote,
        !graph.edges@[e].ts@.before(now.moved(-PERSISTENCE_WINDOW as int)),
        graph.node(graph.edges@[e].from) matches Some(
            Node { kind: NodeKind::Process { .. }, .. },
        ),
        graph.node(graph.edges@[e].to) matches Some(
            Node { kind: NodeKind::File { path: p, .. }, .. },
        ) && p@ == path,
        0 <= i < persistence_locations().len(),
        has_part(path, persistence_locations()[i].part),
        !cooling(
            fired,
            persistence_key(persistence_locations()[i], graph.edges@[e].from),
            now,
            PERSISTENCE_COOLDOWN as int,
        ),
    ensures
        ({
            let keys = keys_of(
                admitted(
                    fired,
                    persistence_proposals(graph, host, now),
                    now,
                    PERSISTENCE_COOLDOWN as int,
                ).1,
            );
            exists|j: int|
                {
                    &&& 0 <= j < persistence_locations().len()
                    &&& has_part(path, (#[trigger] persistence_locations()[j]).part)
                    &&& keys.contains(
                        persistence_key(persistence_locations()[j], graph.edges@[e].from),
                    )
                }
        }),
{
    let id = graph.edges@[e].from;
    let proposals = persistence_proposals(graph, host, now);
    let all = persistence_locations();
    no_persistence_write_is_missed(graph, host, now, e);
    match graph.node(id) {
        Some(Node { label, .. }) => {
            let rule = alert_for_location(host, now, id, label@, path);
            let alternatives = persistence_alternatives(host, now, id, label@, path);
            let alert = persistence_alert(host, now, id, label@, path, all[i]);
            let p = choose|p: int| 0 <= p < proposals.len() && proposals[p] == alternatives;
            assert(rule(all[i])[0] == alert);
            flat_map_holds(all, rule, all[i], alert);
            let k = choose|k: int| 0 <= k < alternatives.len() && alternatives[k] == alert;
            assert(proposals[p][k] == alert);
            no_detection_is_lost(fired, proposals, now, PERSISTENCE_COOLDOWN as int, p, k);
            let alerts = admitted(fired, proposals, now, PERSISTENCE_COOLDOWN as int).1;
            let m = choose|m: int|
                0 <= m < proposals[p].len() && keys_of(alerts).contains(
                    (#[trigger] proposals[p][m]).key,
                );
            let j = flat_map_origin(all, rule, m);
            assert(has_part(path, all[j].part));
            assert(alternatives[m].key == persistence_key(all[j], id));
        },
        None => {},
    }
}

} // verus!
