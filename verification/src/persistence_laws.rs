//! What the detectors of [`persistence`](crate::persistence) report, in terms of what happened on
//! the host: each report has a cause among the edges of the graph and says what it was, and no
//! cause goes without a report.

use crate::alert::{
    an_alert_has_an_item, cooling, flat_map_is_in_order, flat_map_origin, flat_map_place, keys_of,
    Fired,
};
use crate::graph::{
    an_outgoing_edge_is_there, first_text, leaves, reaches, two_filters_are_one, windowed, Edge,
    KnowledgeGraph, Node, NodeId, NodeKind, NodeType, Relation,
};
use crate::incident::{EntityKind, EntityView, Severity};
use crate::persistence::{
    alert_for_location, command_args, log_tampering_is_reported, log_tampering_of_edge,
    log_tampering_of_node, log_tampering_run, persistence_alert, persistence_alternatives,
    persistence_key, persistence_locations, persistence_of_edge, persistence_of_node,
    persistence_run, persistence_writes_are_reported, recent_sudo, security_services,
    service_stop_of_node, service_stop_run, stopped_services_are_reported, sudo_abuse_of_node,
    sudo_abuse_run, sudo_bursts_are_reported, LocationView,
};
use crate::record::{FieldView, ValueView};
use crate::text::{decimal, has_part, lowercase, signed_decimal};
use crate::text_laws::{
    a_beginning_can_be_taken_away, a_chosen_part_is_the_first, a_first_colon_divides_a_text,
    a_prefix_is_what_a_text_starts_with, decimals_differ, the_first_part_is_chosen,
};
use crate::time::Instant;
use vstd::prelude::*;

verus! {

broadcast use vstd::seq_lib::group_seq_properties;

/// A text of the evidence.
pub open spec fn shown(name: Seq<char>, text: Seq<char>) -> FieldView {
    FieldView { name, value: ValueView::Text(text) }
}

/// A count of the evidence.
pub open spec fn counted(name: Seq<char>, count: nat) -> FieldView {
    FieldView { name, value: ValueView::Count(count) }
}

/// `key` fired less than `seconds` before `now`.
pub open spec fn fired_within(fired: Fired, key: Seq<char>, now: Instant, seconds: int) -> bool {
    fired.contains_key(key) && now.since(fired[key]) < seconds * 1_000_000_000
}

// ---------------------------------------------------------------------------
// Writes to persistence locations
// ---------------------------------------------------------------------------

/// The alerts on a write stand in the order of the locations.
proof fn alternatives_follow_the_locations(
    host: Seq<char>,
    now: Instant,
    id: NodeId,
    label: Seq<char>,
    path: Seq<char>,
    m: int,
) -> (k: int)
    requires
        0 <= m < persistence_alternatives(host, now, id, label, path).len(),
    ensures
        0 <= k < persistence_locations().len(),
        has_part(path, persistence_locations()[k].part),
        persistence_alternatives(host, now, id, label, path)[m] == persistence_alert(
            host,
            now,
            id,
            label,
            path,
            persistence_locations()[k],
        ),
        forall|j: int|
            0 <= j < k && has_part(path, (#[trigger] persistence_locations()[j]).part)
                ==> exists|q: int|
                0 <= q < m && (#[trigger] persistence_alternatives(
                    host,
                    now,
                    id,
                    label,
                    path,
                )[q]) == persistence_alert(
                    host,
                    now,
                    id,
                    label,
                    path,
                    persistence_locations()[j],
                ),
{
    let all = persistence_locations();
    let rule = alert_for_location(host, now, id, label, path);
    let alternatives = persistence_alternatives(host, now, id, label, path);
    let k = flat_map_place(all, rule, m);
    assert forall|j: int| 0 <= j < k && has_part(path, (#[trigger] all[j]).part) implies exists|
        q: int,
    |
        0 <= q < m && (#[trigger] alternatives[q]) == persistence_alert(
            host,
            now,
            id,
            label,
            path,
            all[j],
        ) by {
        flat_map_is_in_order(all, rule, j, 0);
        let q = all.take(j).flat_map(rule).len() as int;
        assert(all.take(k).flat_map(rule).len() >= q + 1);
        assert(alternatives[q] == rule(all[j])[0]);
    }
    k
}

/// The names of the kinds of persistence hold no colon.
proof fn kinds_have_no_colon(l: LocationView)
    requires
        persistence_locations().contains(l),
    ensures
        !l.detector.contains(':'),
{
    reveal_strlit("crontab_persistence");
    reveal_strlit("systemd_persistence");
    reveal_strlit("ssh_key_injection");
    assert(!"crontab_persistence"@.contains(':'));
    assert(!"systemd_persistence"@.contains(':'));
    assert(!"ssh_key_injection"@.contains(':'));
}

/// Reports of two processes never hold each other back, and neither do reports of two kinds of
/// persistence: their keys are different.
pub proof fn persistence_keys_tell_processes_apart(
    l: LocationView,
    m: LocationView,
    a: NodeId,
    b: NodeId,
)
    requires
        persistence_locations().contains(l),
        persistence_locations().contains(m),
        persistence_key(l, a) == persistence_key(m, b),
    ensures
        a == b,
        l.detector == m.detector,
{
    kinds_have_no_colon(l);
    kinds_have_no_colon(m);
    reveal_strlit(":");
    assert(":"@ =~= seq![':']);
    let x = l.detector + seq![':'] + decimal(a as nat);
    let y = m.detector + seq![':'] + decimal(b as nat);
    assert(persistence_key(l, a) =~= "graph_persist:"@ + x);
    assert(persistence_key(m, b) =~= "graph_persist:"@ + y);
    a_beginning_can_be_taken_away("graph_persist:"@, x, y);
    a_first_colon_divides_a_text(
        l.detector,
        m.detector,
        decimal(a as nat),
        decimal(b as nat),
    );
    decimals_differ(a as nat, b as nat);
}

/// Every report of [`detect_persistence`](crate::persistence::detect_persistence) has a cause: a
/// process wrote a file in the last 300 seconds whose path holds one of the five watched parts. The
/// report names the process, the file, the kind of persistence and its technique, and its key holds
/// the process, so that other processes are not held back by it. It was not held back itself, and a
/// kind that comes earlier in the list was, if the path holds a part of it.
pub proof fn persistence_reports_have_a_cause(
    graph: KnowledgeGraph,
    host: Seq<char>,
    now: Instant,
    fired: Fired,
    i: int,
) -> (cause: (int, int))
    requires
        0 <= i < persistence_run(fired, graph, host, now).1.len(),
    ensures
        0 <= cause.0 < graph.edges@.len(),
        0 <= cause.1 < 5,
        ({
            let parts = seq![
                "/etc/cron"@, "/var/spool/cron"@, "/etc/systemd/"@, "/usr/lib/systemd/"@,
                "authorized_keys"@,
            ];
            let kinds = seq![
                "crontab_persistence"@, "crontab_persistence"@, "systemd_persistence"@,
                "systemd_persistence"@, "ssh_key_injection"@,
            ];
            let techniques = seq![
                "T1053.003"@, "T1053.003"@, "T1543.002"@, "T1543.002"@, "T1098.004"@,
            ];
            let (after, alerts) = persistence_run(fired, graph, host, now);
            let report = alerts[i].incident;
            let write = graph.edges@[cause.0];
            let process = graph.nodes@[write.from as int];
            let file = graph.nodes@[write.to as int];
            let label = process.label@;
            let path = file.kind->path@;
            let kind = kinds[cause.1];
            let number = decimal(write.from as nat);
            &&& write.relation == Relation::Wrote
            &&& !write.ts@.before(now.moved(-300))
            &&& write.from < graph.nodes@.len() && process.kind is Process
            &&& write.to < graph.nodes@.len() && file.kind is File
            &&& has_part(path, parts[cause.1])
            &&& alerts[i].key == "graph_persist:"@ + kind + ":"@ + number
            &&& !fired_within(fired, alerts[i].key, now, 600)
            &&& forall|j: int|
                0 <= j < cause.1 && has_part(path, #[trigger] parts[j]) ==> fired_within(
                    after,
                    "graph_persist:"@ + kinds[j] + ":"@ + number,
                    now,
                    600,
                )
            &&& report.ts == now
            &&& report.host == host
            &&& report.incident_id == "graph_"@ + kind + ":"@ + number + ":"@ + signed_decimal(
                now.secs,
            )
            &&& report.severity == Severity::High
            &&& report.title == "Persistence: "@ + label + " wrote to "@ + path
            &&& report.summary == "Process "@ + label + " wrote to persistence location "@ + path
            &&& report.evidence == seq![
                shown("source"@, "knowledge_graph"@), shown("detector"@, "graph_"@ + kind),
                shown("process"@, label), shown("path"@, path),
            ]
            &&& report.recommended_checks == seq![
                "Inspect "@ + path, "Check process tree of "@ + label,
            ]
            &&& report.tags == seq![techniques[cause.1]]
            &&& report.entities == seq![(EntityView { kind: EntityKind::Path, value: path })]
        }),
{
    let cutoff = now.moved(-300);
    let items = graph.active_ids(cutoff);
    let rule = persistence_of_node(graph, host, now, cutoff);
    let all = persistence_locations();
    let after = persistence_run(fired, graph, host, now).0;
    let at = an_alert_has_an_item(fired, items, rule, now, 600, i);
    let id = items[at.0];
    match graph.node(id) {
        Some(Node { label, kind: NodeKind::Process { .. } }) => {
            let edge_rule = persistence_of_edge(graph, host, now, cutoff, id, label@);
            let n = flat_map_origin(graph.outgoing(id), edge_rule, at.1);
            let e = an_outgoing_edge_is_there(graph, id, n);
            match graph.node(graph.edges@[e].to) {
                Some(Node { kind: NodeKind::File { path, .. }, .. }) => {
                    let alternatives = persistence_alternatives(host, now, id, label@, path@);
                    assert(rule(id)[at.1] == alternatives);
                    let k = alternatives_follow_the_locations(
                        host,
                        now,
                        id,
                        label@,
                        path@,
                        at.2,
                    );
                    assert forall|j: int|
                        0 <= j < k && has_part(path@, (#[trigger] all[j]).part) implies cooling(
                        after,
                        persistence_key(all[j], id),
                        now,
                        600,
                    ) by {
                        let q = choose|q: int|
                            0 <= q < at.2 && (#[trigger] alternatives[q]) == persistence_alert(
                                host,
                                now,
                                id,
                                label@,
                                path@,
                                all[j],
                            );
                        assert(cooling(after, rule(items[at.0])[at.1][q].key, now, 600));
                    }
                    let parts = seq![
                        "/etc/cron"@, "/var/spool/cron"@, "/etc/systemd/"@, "/usr/lib/systemd/"@,
                        "authorized_keys"@,
                    ];
                    assert forall|j: int| 0 <= j < 5 implies #[trigger] parts[j] == all[j].part by {}
                    (e, k)
                },
                _ => (0, 0),
            }
        },
        _ => (0, 0),
    }
}

/// Every process that wrote to a watched location in the last 300 seconds is reported, by a report
/// that names it, unless its own reports hold it back: no process goes unreported because of
/// another.
pub proof fn persistence_writes_lead_to_reports(
    graph: KnowledgeGraph,
    host: Seq<char>,
    now: Instant,
    fired: Fired,
    e: int,
    k: int,
) -> (report: int)
    requires
        0 <= e < graph.edges@.len(),
        graph.edges@[e].relation == Relation::Wrote,
        !graph.edges@[e].ts@.before(now.moved(-300)),
        graph.edges@[e].from < graph.nodes@.len(),
        graph.nodes@[graph.edges@[e].from as int].kind is Process,
        graph.edges@[e].to < graph.nodes@.len(),
        graph.nodes@[graph.edges@[e].to as int].kind is File,
        0 <= k < 5,
        ({
            let path = graph.nodes@[graph.edges@[e].to as int].kind->path@;
            let parts = seq![
                "/etc/cron"@, "/var/spool/cron"@, "/etc/systemd/"@, "/usr/lib/systemd/"@,
                "authorized_keys"@,
            ];
            let kinds = seq![
                "crontab_persistence"@, "crontab_persistence"@, "systemd_persistence"@,
                "systemd_persistence"@, "ssh_key_injection"@,
            ];
            &&& has_part(path, parts[k])
            &&& !fired_within(
                fired,
                "graph_persist:"@ + kinds[k] + ":"@ + decimal(graph.edges@[e].from as nat),
                now,
                600,
            )
        }),
    ensures
        ({
            let alerts = persistence_run(fired, graph, host, now).1;
            let label = graph.nodes@[graph.edges@[e].from as int].label@;
            &&& 0 <= report < alerts.len()
            &&& alerts[report].incident.evidence[2] == shown("process"@, label)
            &&& alerts[report].incident.severity == Severity::High
        }),
{
    let id = graph.edges@[e].from;
    let path = graph.nodes@[graph.edges@[e].to as int].kind->path@;
    let all = persistence_locations();
    let alerts = persistence_run(fired, graph, host, now).1;
    assert(graph.node(id) == Some(graph.nodes@[id as int]));
    let parts = seq![
        "/etc/cron"@, "/var/spool/cron"@, "/etc/systemd/"@, "/usr/lib/systemd/"@,
        "authorized_keys"@,
    ];
    assert(parts[k] == all[k].part);
    persistence_writes_are_reported(graph, host, now, fired, e, path, k);
    let j = choose|j: int|
        {
            &&& 0 <= j < all.len()
            &&& has_part(path, (#[trigger] all[j]).part)
            &&& keys_of(alerts).contains(persistence_key(all[j], id))
        };
    let report = choose|report: int|
        0 <= report < keys_of(alerts).len() && keys_of(alerts)[report] == persistence_key(
            all[j],
            id,
        );
    let cause = persistence_reports_have_a_cause(graph, host, now, fired, report);
    assert(alerts[report].key == persistence_key(all[cause.1], graph.edges@[cause.0].from));
    persistence_keys_tell_processes_apart(
        all[cause.1],
        all[j],
        graph.edges@[cause.0].from,
        id,
    );
    report
}

// ---------------------------------------------------------------------------
// Stopped security services
// ---------------------------------------------------------------------------

/// The edge has a text under `name`.
pub open spec fn has_text(e: Edge, name: Seq<char>) -> bool {
    e.properties@.contains_key(name) && e.properties@[name] is Text
}

/// `text` is the summary of the first edge that leaves `id` and has one; it is empty where none
/// has.
pub open spec fn first_summary(graph: KnowledgeGraph, id: NodeId, text: Seq<char>) -> bool {
    ||| exists|e: int|
        {
            &&& 0 <= e < graph.edges@.len()
            &&& (#[trigger] graph.edges@[e]).from == id
            &&& has_text(graph.edges@[e], "summary"@)
            &&& graph.edges@[e].properties@["summary"@]->Text_0@ == text
            &&& forall|d: int|
                0 <= d < e && (#[trigger] graph.edges@[d]).from == id ==> !has_text(
                    graph.edges@[d],
                    "summary"@,
                )
        }
    ||| text == ""@ && forall|d: int|
        0 <= d < graph.edges@.len() && (#[trigger] graph.edges@[d]).from == id ==> !has_text(
            graph.edges@[d],
            "summary"@,
        )
}

/// The first text among the edges that leave a node is that of the first such edge that has one.
proof fn first_text_is_of_the_first_edge(edges: Seq<Edge>, id: NodeId, name: Seq<char>)
    ensures
        match first_text(edges.filter(leaves(id)), name) {
            Some(text) => exists|e: int|
                {
                    &&& 0 <= e < edges.len()
                    &&& (#[trigger] edges[e]).from == id
                    &&& has_text(edges[e], name)
                    &&& edges[e].properties@[name]->Text_0@ == text
                    &&& forall|d: int|
                        0 <= d < e && (#[trigger] edges[d]).from == id ==> !has_text(edges[d], name)
                },
            None => forall|d: int|
                0 <= d < edges.len() && (#[trigger] edges[d]).from == id ==> !has_text(
                    edges[d],
                    name,
                ),
        },
    decreases edges.len(),
{
    reveal(Seq::filter);
    if edges.len() > 0 {
        let front = edges.drop_last();
        let last = edges.last();
        first_text_is_of_the_first_edge(front, id, name);
        assert(edges[edges.len() - 1] == last);
        let kept = front.filter(leaves(id));
        assert(kept.push(last).drop_last() =~= kept);
        match first_text(kept, name) {
            Some(text) => {
                let e = choose|e: int|
                    {
                        &&& 0 <= e < front.len()
                        &&& (#[trigger] front[e]).from == id
                        &&& has_text(front[e], name)
                        &&& front[e].properties@[name]->Text_0@ == text
                        &&& forall|d: int|
                            0 <= d < e && (#[trigger] front[d]).from == id ==> !has_text(
                                front[d],
                                name,
                            )
                    };
                assert(edges[e] == front[e]);
                assert forall|d: int| 0 <= d < e && (#[trigger] edges[d]).from == id implies !has_text(
                    edges[d],
                    name,
                ) by {
                    assert(front[d] == edges[d]);
                }
            },
            None => {
                assert forall|d: int|
                    0 <= d < front.len() && (#[trigger] edges[d]).from == id implies !has_text(
                    edges[d],
                    name,
                ) by {
                    assert(front[d] == edges[d]);
                }
            },
        }
    }
}

/// The arguments of a command are the lower case of the summary of its first edge that has one.
proof fn arguments_are_the_first_summary(graph: KnowledgeGraph, id: NodeId) -> (text: Seq<char>)
    ensures
        first_summary(graph, id, text),
        command_args(graph.outgoing(id)) == lowercase(text),
        forall|other: Seq<char>| #[trigger] first_summary(graph, id, other) ==> other == text,
{
    first_text_is_of_the_first_edge(graph.edges@, id, "summary"@);
    let text = match first_text(graph.outgoing(id), "summary"@) {
        Some(text) => text,
        None => ""@,
    };
    assert forall|other: Seq<char>| #[trigger] first_summary(graph, id, other) implies other
        == text by {
        if first_text(graph.outgoing(id), "summary"@) is Some {
            let e = choose|e: int|
                {
                    &&& 0 <= e < graph.edges@.len()
                    &&& (#[trigger] graph.edges@[e]).from == id
                    &&& has_text(graph.edges@[e], "summary"@)
                    &&& graph.edges@[e].properties@["summary"@]->Text_0@ == text
                    &&& forall|d: int|
                        0 <= d < e && (#[trigger] graph.edges@[d]).from == id ==> !has_text(
                            graph.edges@[d],
                            "summary"@,
                        )
                };
            assert(has_text(graph.edges@[e], "summary"@));
            let f = choose|f: int|
                {
                    &&& 0 <= f < graph.edges@.len()
                    &&& (#[trigger] graph.edges@[f]).from == id
                    &&& has_text(graph.edges@[f], "summary"@)
                    &&& graph.edges@[f].properties@["summary"@]->Text_0@ == other
                    &&& forall|d: int|
                        0 <= d < f && (#[trigger] graph.edges@[d]).from == id ==> !has_text(
                            graph.edges@[d],
                            "summary"@,
                        )
                };
            assert(graph.edges@[f].from == id);
            assert(e == f);
        }
    }
    text
}

/// Every report of [`detect_service_stop`](crate::persistence::detect_service_stop) has a cause: a
/// process `systemctl` or `service` whose first summary, in lower case, holds `stop` or `disable`
/// and the name of the service. The service is the first of the eleven that the summary names. The
/// report is critical, names the service and the command, and was not held back.
pub proof fn service_stop_reports_have_a_cause(
    graph: KnowledgeGraph,
    host: Seq<char>,
    now: Instant,
    fired: Fired,
    i: int,
) -> (cause: (NodeId, Seq<char>, int))
    requires
        0 <= i < service_stop_run(fired, graph, host, now).1.len(),
    ensures
        0 <= cause.0 < graph.nodes@.len(),
        first_summary(graph, cause.0, cause.1),
        0 <= cause.2 < 11,
        ({
            let names = seq![
                "innerwarden"@, "fail2ban"@, "auditd"@, "rsyslog"@, "syslog"@, "iptables"@,
                "nftables"@, "ufw"@, "firewalld"@, "apparmor"@, "selinux"@,
            ];
            let alert = service_stop_run(fired, graph, host, now).1[i];
            let report = alert.incident;
            let process = graph.nodes@[cause.0 as int];
            let comm = process.kind->comm@;
            let args = lowercase(cause.1);
            let service = names[cause.2];
            &&& process.kind is Process
            &&& comm == "systemctl"@ || comm == "service"@
            &&& has_part(args, "stop"@) || has_part(args, "disable"@)
            &&& has_part(args, service)
            &&& forall|j: int| 0 <= j < cause.2 ==> !has_part(args, #[trigger] names[j])
            &&& alert.key == "graph_svc_stop:"@ + service
            &&& !fired_within(fired, alert.key, now, 300)
            &&& report.ts == now
            &&& report.host == host
            &&& report.incident_id == "graph_service_stop:"@ + service + ":"@ + signed_decimal(
                now.secs,
            )
            &&& report.severity == Severity::Critical
            &&& report.title == "Security service stopped: "@ + service
            &&& report.summary == "Process '"@ + comm + "' stopped security service '"@ + service
                + "'. This may indicate defense evasion."@
            &&& report.evidence == seq![
                shown("source"@, "knowledge_graph"@), shown("detector"@, "graph_service_stop"@),
                shown("process"@, comm), shown("service"@, service), shown("args"@, args),
            ]
            &&& report.recommended_checks == seq![
                "Check if "@ + service + " is still running: systemctl status "@ + service,
                "Review who initiated the stop"@,
            ]
            &&& report.tags == seq!["T1562.001"@]
            &&& report.entities == Seq::<EntityView>::empty()
        }),
{
    let items = graph.ids_of(NodeType::Process);
    let rule = service_stop_of_node(graph, host, now);
    let at = an_alert_has_an_item(fired, items, rule, now, 300, i);
    let id = items[at.0];
    let text = arguments_are_the_first_summary(graph, id);
    let args = lowercase(text);
    let k = a_chosen_part_is_the_first(args, security_services());
    let names = seq![
        "innerwarden"@, "fail2ban"@, "auditd"@, "rsyslog"@, "syslog"@, "iptables"@, "nftables"@,
        "ufw"@, "firewalld"@, "apparmor"@, "selinux"@,
    ];
    assert(names =~= security_services());
    (id, text, k)
}

/// The names of the eleven security services.
pub open spec fn is_security_service(name: Seq<char>) -> bool {
    name == "innerwarden"@ || name == "fail2ban"@ || name == "auditd"@ || name == "rsyslog"@ || name
        == "syslog"@ || name == "iptables"@ || name == "nftables"@ || name == "ufw"@ || name
        == "firewalld"@ || name == "apparmor"@ || name == "selinux"@
}

/// Every command that stops or disables one of the eleven security services is reported: where none
/// of the services that its arguments name was reported in the last 300 seconds, one of them is
/// now.
pub proof fn stopped_services_lead_to_reports(
    graph: KnowledgeGraph,
    host: Seq<char>,
    now: Instant,
    fired: Fired,
    id: NodeId,
    summary: Seq<char>,
    service: Seq<char>,
) -> (report: int)
    requires
        id < graph.nodes@.len(),
        graph.nodes@[id as int].kind is Process,
        graph.nodes@[id as int].kind->comm@ == "systemctl"@
            || graph.nodes@[id as int].kind->comm@ == "service"@,
        first_summary(graph, id, summary),
        has_part(lowercase(summary), "stop"@) || has_part(lowercase(summary), "disable"@),
        is_security_service(service),
        has_part(lowercase(summary), service),
        forall|name: Seq<char>| #[trigger]
            has_part(lowercase(summary), name) && is_security_service(name) ==> !fired_within(
                fired,
                "graph_svc_stop:"@ + name,
                now,
                300,
            ),
    ensures
        ({
            let alerts = service_stop_run(fired, graph, host, now).1;
            &&& 0 <= report < alerts.len()
            &&& alerts[report].incident.severity == Severity::Critical
            &&& exists|name: Seq<char>| #[trigger]
                has_part(lowercase(summary), name) && is_security_service(name)
                    && alerts[report].key == "graph_svc_stop:"@ + name
        }),
{
    let args = lowercase(summary);
    let names = seq![
        "innerwarden"@, "fail2ban"@, "auditd"@, "rsyslog"@, "syslog"@, "iptables"@, "nftables"@,
        "ufw"@, "firewalld"@, "apparmor"@, "selinux"@,
    ];
    assert(names =~= security_services());
    assert(names[0] == "innerwarden"@ && names[1] == "fail2ban"@ && names[2] == "auditd"@
        && names[3] == "rsyslog"@ && names[4] == "syslog"@ && names[5] == "iptables"@ && names[6]
        == "nftables"@ && names[7] == "ufw"@ && names[8] == "firewalld"@ && names[9]
        == "apparmor"@ && names[10] == "selinux"@);
    let text = arguments_are_the_first_summary(graph, id);
    assert(names.contains(service));
    let k = choose|k: int| 0 <= k < names.len() && names[k] == service;
    the_first_part_is_chosen(args, names, k);
    let chosen = a_chosen_part_is_the_first(args, names);
    let comm = graph.nodes@[id as int].kind->comm@;
    assert(graph.node(id) == Some(graph.nodes@[id as int]));
    assert(!fired_within(fired, "graph_svc_stop:"@ + names[chosen], now, 300));
    stopped_services_are_reported(graph, host, now, fired, id, comm, names[chosen]);
    let alerts = service_stop_run(fired, graph, host, now).1;
    let report = choose|report: int|
        0 <= report < keys_of(alerts).len() && keys_of(alerts)[report] == "graph_svc_stop:"@
            + names[chosen];
    let _ = service_stop_reports_have_a_cause(graph, host, now, fired, report);
    report
}

// ---------------------------------------------------------------------------
// Tampering with logs
// ---------------------------------------------------------------------------

/// Every report of [`detect_log_tampering`](crate::persistence::detect_log_tampering) has a cause:
/// a process that is none of the nine log writers wrote, deleted or truncated a file whose path
/// starts with `/var/log/`. The report names the process, the file and what was done to it, and was
/// not held back.
pub proof fn log_tampering_reports_have_a_cause(
    graph: KnowledgeGraph,
    host: Seq<char>,
    now: Instant,
    fired: Fired,
    i: int,
) -> (cause: (int, Seq<char>))
    requires
        0 <= i < log_tampering_run(fired, graph, host, now).1.len(),
    ensures
        0 <= cause.0 < graph.edges@.len(),
        ({
            let alert = log_tampering_run(fired, graph, host, now).1[i];
            let report = alert.incident;
            let change = graph.edges@[cause.0];
            let process = graph.nodes@[change.from as int];
            let file = graph.nodes@[change.to as int];
            let comm = process.kind->comm@;
            let path = file.kind->path@;
            &&& change.from < graph.nodes@.len() && process.kind is Process
            &&& change.to < graph.nodes@.len() && file.kind is File
            &&& comm != "rsyslog"@ && comm != "syslog-ng"@ && comm != "journald"@ && comm
                != "systemd-journal"@ && comm != "logrotate"@ && comm != "systemd"@ && comm
                != "auditd"@ && comm != "innerwarden-sensor"@ && comm != "innerwarden-agent"@
            &&& path == "/var/log/"@ + cause.1
            &&& match change.relation {
                Relation::Wrote => report.evidence[4] == shown("action"@, "Wrote"@),
                Relation::Deleted => report.evidence[4] == shown("action"@, "Deleted"@),
                Relation::Truncated => report.evidence[4] == shown("action"@, "Truncated"@),
                _ => false,
            }
            &&& alert.key == "graph_logtamp:"@ + comm + ":"@ + path
            &&& !fired_within(fired, alert.key, now, 600)
            &&& report.ts == now
            &&& report.host == host
            &&& report.incident_id == "graph_log_tampering:"@ + comm + ":"@ + signed_decimal(
                now.secs,
            )
            &&& report.severity == Severity::High
            &&& report.title == "Log tampering: "@ + comm + " modified "@ + path
            &&& report.summary == "Non-standard process '"@ + comm + "' modified log file '"@ + path
                + "'. This may indicate log tampering to cover tracks."@
            &&& report.evidence.len() == 5
            &&& report.evidence.take(4) == seq![
                shown("source"@, "knowledge_graph"@), shown("detector"@, "graph_log_tampering"@),
                shown("process"@, comm), shown("file"@, path),
            ]
            &&& report.recommended_checks == seq![
                "Check integrity of "@ + path, "Investigate process "@ + comm,
            ]
            &&& report.tags == seq!["T1070.002"@]
            &&& report.entities == Seq::<EntityView>::empty()
        }),
{
    let items = graph.ids_of(NodeType::Process);
    let rule = log_tampering_of_node(graph, host, now);
    let at = an_alert_has_an_item(fired, items, rule, now, 600, i);
    let id = items[at.0];
    match graph.node(id) {
        Some(Node { kind: NodeKind::Process { comm }, .. }) => {
            let edge_rule = log_tampering_of_edge(graph, host, now, comm@);
            let n = flat_map_origin(graph.outgoing(id), edge_rule, at.1);
            let e = an_outgoing_edge_is_there(graph, id, n);
            let writers = crate::persistence::log_writers();
            assert(writers[0] == "rsyslog"@ && writers[1] == "syslog-ng"@ && writers[2]
                == "journald"@ && writers[3] == "systemd-journal"@ && writers[4] == "logrotate"@
                && writers[5] == "systemd"@ && writers[6] == "auditd"@ && writers[7]
                == "innerwarden-sensor"@ && writers[8] == "innerwarden-agent"@);
            let path = graph.nodes@[graph.edges@[e].to as int].kind->path@;
            a_prefix_is_what_a_text_starts_with("/var/log/"@, ""@, path);
            let alert = log_tampering_run(fired, graph, host, now).1[i];
            assert(alert.incident.evidence.take(4) =~= seq![
                shown("source"@, "knowledge_graph"@), shown("detector"@, "graph_log_tampering"@),
                shown("process"@, comm@), shown("file"@, path),
            ]);
            (e, path.skip("/var/log/"@.len() as int))
        },
        _ => (0, Seq::empty()),
    }
}

/// Every write, deletion and truncation of a file below `/var/log/` by a process that is none of
/// the nine log writers is reported under the name of the process and the path, unless such a
/// report is less than 600 seconds old.
pub proof fn log_changes_lead_to_reports(
    graph: KnowledgeGraph,
    host: Seq<char>,
    now: Instant,
    fired: Fired,
    e: int,
    rest: Seq<char>,
) -> (report: int)
    requires
        0 <= e < graph.edges@.len(),
        graph.edges@[e].relation == Relation::Wrote || graph.edges@[e].relation
            == Relation::Deleted || graph.edges@[e].relation == Relation::Truncated,
        graph.edges@[e].from < graph.nodes@.len(),
        graph.nodes@[graph.edges@[e].from as int].kind is Process,
        graph.edges@[e].to < graph.nodes@.len(),
        graph.nodes@[graph.edges@[e].to as int].kind is File,
        ({
            let comm = graph.nodes@[graph.edges@[e].from as int].kind->comm@;
            let path = graph.nodes@[graph.edges@[e].to as int].kind->path@;
            &&& comm != "rsyslog"@ && comm != "syslog-ng"@ && comm != "journald"@ && comm
                != "systemd-journal"@ && comm != "logrotate"@ && comm != "systemd"@ && comm
                != "auditd"@ && comm != "innerwarden-sensor"@ && comm != "innerwarden-agent"@
            &&& path == "/var/log/"@ + rest
            &&& !fired_within(fired, "graph_logtamp:"@ + comm + ":"@ + path, now, 600)
        }),
    ensures
        ({
            let alerts = log_tampering_run(fired, graph, host, now).1;
            let comm = graph.nodes@[graph.edges@[e].from as int].kind->comm@;
            let path = graph.nodes@[graph.edges@[e].to as int].kind->path@;
            &&& 0 <= report < alerts.len()
            &&& alerts[report].key == "graph_logtamp:"@ + comm + ":"@ + path
            &&& alerts[report].incident.severity == Severity::High
        }),
{
    let comm = graph.nodes@[graph.edges@[e].from as int].kind->comm@;
    let path = graph.nodes@[graph.edges@[e].to as int].kind->path@;
    assert(graph.node(graph.edges@[e].from) == Some(
        graph.nodes@[graph.edges@[e].from as int],
    ));
    a_prefix_is_what_a_text_starts_with("/var/log/"@, rest, path);
    log_tampering_is_reported(graph, host, now, fired, e, comm, path);
    let alerts = log_tampering_run(fired, graph, host, now).1;
    let report = choose|report: int|
        0 <= report < keys_of(alerts).len() && keys_of(alerts)[report] == "graph_logtamp:"@ + comm
            + ":"@ + path;
    let _ = log_tampering_reports_have_a_cause(graph, host, now, fired, report);
    report
}

// ---------------------------------------------------------------------------
// Bursts of sudo
// ---------------------------------------------------------------------------

/// The use of `sudo` by the user at `id` less than a minute ago.
pub open spec fn sudo_of(id: NodeId, now: Instant) -> spec_fn(Edge) -> bool {
    |e: Edge|
        e.to == id && e.relation == Relation::SudoAs && now.since(e.ts@) < 60_000_000_000
}

/// Counting the recent uses of `sudo`.
proof fn recent_sudo_is_counted(graph: KnowledgeGraph, now: Instant, id: NodeId)
    ensures
        recent_sudo(graph, now, id) == graph.edges@.filter(sudo_of(id, now)),
{
    let window = windowed(Relation::SudoAs, now, 60);
    let both = sudo_of(id, now);
    assert forall|e: Edge| #[trigger] both(e) == (reaches(id)(e) && window(e)) by {}
    two_filters_are_one(graph.edges@, reaches(id), window, both);
}

/// Every report of [`detect_sudo_abuse`](crate::persistence::detect_sudo_abuse) has a cause: a user
/// other than `root` used `sudo` ten times or more in the last minute. The report names the user
/// and says how often, and was not held back.
pub proof fn sudo_reports_have_a_cause(
    graph: KnowledgeGraph,
    host: Seq<char>,
    now: Instant,
    fired: Fired,
    i: int,
) -> (cause: NodeId)
    requires
        0 <= i < sudo_abuse_run(fired, graph, host, now).1.len(),
    ensures
        cause < graph.nodes@.len(),
        ({
            let alert = sudo_abuse_run(fired, graph, host, now).1[i];
            let report = alert.incident;
            let user = graph.nodes@[cause as int];
            let name = user.kind->name@;
            let uses = graph.edges@.filter(sudo_of(cause, now)).len();
            &&& user.kind is User
            &&& name != "root"@
            &&& uses >= 10
            &&& alert.key == "graph_sudoabuse:"@ + name
            &&& !fired_within(fired, alert.key, now, 1800)
            &&& report.ts == now
            &&& report.host == host
            &&& report.incident_id == "graph_sudo_abuse:"@ + name + ":"@ + signed_decimal(now.secs)
            &&& report.severity == Severity::High
            &&& report.title == "Sudo abuse: "@ + name + " ran "@ + decimal(uses)
                + " sudo commands in 1m"@
            &&& report.summary == "User '"@ + name + "' executed "@ + decimal(uses)
                + " sudo commands in 1 minute. May indicate privilege abuse or automated exploitation."@
            &&& report.evidence == seq![
                shown("source"@, "knowledge_graph"@), shown("detector"@, "graph_sudo_abuse"@),
                shown("user"@, name), counted("sudo_count"@, uses),
            ]
            &&& report.recommended_checks == seq![
                "Check sudo log: journalctl _COMM=sudo | grep "@ + name,
                "Suspend user: innerwarden suspend-user "@ + name,
            ]
            &&& report.tags == seq!["T1548.003"@]
            &&& report.entities == seq![(EntityView { kind: EntityKind::User, value: name })]
        }),
{
    let items = graph.ids_of(NodeType::User);
    let rule = sudo_abuse_of_node(graph, host, now);
    let at = an_alert_has_an_item(fired, items, rule, now, 1800, i);
    recent_sudo_is_counted(graph, now, items[at.0]);
    items[at.0]
}

/// Every user other than `root` that used `sudo` ten times or more in the last minute is reported,
/// unless a report of that user is less than 1800 seconds old.
pub proof fn sudo_bursts_lead_to_reports(
    graph: KnowledgeGraph,
    host: Seq<char>,
    now: Instant,
    fired: Fired,
    id: NodeId,
) -> (report: int)
    requires
        id < graph.nodes@.len(),
        graph.nodes@[id as int].kind is User,
        graph.nodes@[id as int].kind->name@ != "root"@,
        graph.edges@.filter(sudo_of(id, now)).len() >= 10,
        !fired_within(
            fired,
            "graph_sudoabuse:"@ + graph.nodes@[id as int].kind->name@,
            now,
            1800,
        ),
    ensures
        ({
            let alerts = sudo_abuse_run(fired, graph, host, now).1;
            let name = graph.nodes@[id as int].kind->name@;
            &&& 0 <= report < alerts.len()
            &&& alerts[report].incident.severity == Severity::High
            &&& alerts[report].incident.entities == seq![
                (EntityView { kind: EntityKind::User, value: name }),
            ]
        }),
{
    let name = graph.nodes@[id as int].kind->name@;
    assert(graph.node(id) == Some(graph.nodes@[id as int]));
    recent_sudo_is_counted(graph, now, id);
    sudo_bursts_are_reported(graph, host, now, fired, id, name);
    let alerts = sudo_abuse_run(fired, graph, host, now).1;
    let report = choose|report: int|
        0 <= report < keys_of(alerts).len() && keys_of(alerts)[report] == "graph_sudoabuse:"@ + name;
    let cause = sudo_reports_have_a_cause(graph, host, now, fired, report);
    a_beginning_can_be_taken_away(
        "graph_sudoabuse:"@,
        name,
        graph.nodes@[cause as int].kind->name@,
    );
    report
}

} // verus!
