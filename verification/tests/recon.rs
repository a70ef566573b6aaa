use warden_graph::alert::GraphDetectorState;
use warden_graph::calibration::{CalibrationContext, UserClass};
use warden_graph::graph::{Edge, KnowledgeGraph, Node, NodeId, NodeKind, Relation};
use warden_graph::incident::{EntityKind, Incident, Severity};
use warden_graph::recon::{
    detect_credential_stuffing, detect_discovery_burst_calibrated, detect_port_scan,
    detect_proto_anomaly_aggregated, detect_scanner_ua, detect_threat_intel, find_scanner,
};
use warden_graph::record::{field, Value};
use warden_graph::time::Timestamp;

fn ts(secs: i64) -> Timestamp {
    Timestamp::from_timestamp(1_700_000_000 + secs, 0).expect("test timestamp must be valid")
}

fn ensure_process(graph: &mut KnowledgeGraph, pid: u32, comm: &str) -> NodeId {
    graph.add_node(Node {
        label: format!("{comm}({pid})"),
        kind: NodeKind::Process { comm: comm.to_string() },
    })
}

fn ensure_file(graph: &mut KnowledgeGraph, path: &str, is_sensitive: bool) -> NodeId {
    graph.add_node(Node {
        label: path.to_string(),
        kind: NodeKind::File { path: path.to_string(), is_sensitive },
    })
}

fn ensure_user(graph: &mut KnowledgeGraph, name: &str) -> NodeId {
    graph.add_node(Node {
        label: name.to_string(),
        kind: NodeKind::User { name: name.to_string() },
    })
}

fn add_ip(
    graph: &mut KnowledgeGraph,
    addr: &str,
    is_internal: bool,
    datasets: Vec<String>,
) -> NodeId {
    graph.add_node(Node {
        label: addr.to_string(),
        kind: NodeKind::Ip { addr: addr.to_string(), is_internal, datasets },
    })
}

fn ensure_ip(graph: &mut KnowledgeGraph, addr: &str) -> NodeId {
    add_ip(graph, addr, false, Vec::new())
}

fn ensure_port(graph: &mut KnowledgeGraph, number: u16, protocol: &str) -> NodeId {
    graph.add_node(Node {
        label: format!("{number}/{protocol}"),
        kind: NodeKind::Port { number, protocol: protocol.to_string() },
    })
}

fn add_runas_actions(graph: &mut KnowledgeGraph, user_name: &str, count: u32, now: Timestamp) {
    let user = ensure_user(graph, user_name);
    for i in 0..count {
        let process = ensure_process(graph, 10_000 + i, "recon");
        graph.add_edge(Edge::new(process, user, Relation::RunAs, now));
    }
}

fn add_proto_connections(
    graph: &mut KnowledgeGraph,
    source_ip: NodeId,
    target_ip: NodeId,
    count: u32,
    summary: &str,
    now: Timestamp,
) {
    for i in 0..count {
        let at = now.checked_add_seconds(-(i as i64)).expect("test timestamp must be valid");
        graph.add_edge(
            Edge::new(source_ip, target_ip, Relation::ConnectedTo, at)
                .with_prop("summary", summary),
        );
    }
}

fn text(incident: &Incident, name: &str) -> String {
    match field(&incident.evidence, name) {
        Some(Value::Text(text)) => text.clone(),
        other => panic!("no text under {name}: {other:?}"),
    }
}

fn count(incident: &Incident, name: &str) -> u64 {
    match field(&incident.evidence, name) {
        Some(Value::Count(count)) => *count,
        other => panic!("no count under {name}: {other:?}"),
    }
}

fn list(incident: &Incident, name: &str) -> Vec<String> {
    match field(&incident.evidence, name) {
        Some(Value::List(list)) => list.clone(),
        other => panic!("no list under {name}: {other:?}"),
    }
}

#[test]
fn detect_threat_intel_fires_for_ip_dataset_hit() {
    let mut graph = KnowledgeGraph::new();
    let now = ts(60);
    let process = ensure_process(&mut graph, 1234, "curl");
    let ip = add_ip(&mut graph, "203.0.113.10", false, vec!["sslbl".into()]);
    graph.add_edge(Edge::new(process, ip, Relation::ConnectedTo, now));

    let mut state = GraphDetectorState::new();
    let incidents = detect_threat_intel(&graph, &mut state, "host", &now);

    assert_eq!(incidents.len(), 1);
    assert_eq!(incidents[0].severity, Severity::High);
    assert_eq!(text(&incidents[0], "dataset"), "sslbl");
    assert!(incidents[0].tags.iter().any(|tag| tag == "T1071"));
}

#[test]
fn detect_threat_intel_ignores_ip_without_dataset() {
    let mut graph = KnowledgeGraph::new();
    let now = ts(60);
    let process = ensure_process(&mut graph, 1234, "curl");
    let ip = ensure_ip(&mut graph, "203.0.113.11");
    graph.add_edge(Edge::new(process, ip, Relation::ConnectedTo, now));

    let mut state = GraphDetectorState::new();
    let incidents = detect_threat_intel(&graph, &mut state, "host", &now);

    assert!(incidents.is_empty());
}

#[test]
fn detect_discovery_burst_unknown_user_threshold_fires_medium() {
    let mut graph = KnowledgeGraph::new();
    let now = ts(100);
    add_runas_actions(&mut graph, "unknown-user", 5, now);

    let mut state = GraphDetectorState::new();
    let incidents = detect_discovery_burst_calibrated(
        &graph,
        &mut state,
        "host",
        &now,
        &CalibrationContext::default(),
    );

    assert_eq!(incidents.len(), 1);
    assert_eq!(incidents[0].severity, Severity::Medium);
    assert_eq!(text(&incidents[0], "user_class"), "unknown");
    assert_eq!(count(&incidents[0], "exec_count"), 5);
}

#[test]
fn detect_discovery_burst_unknown_user_double_threshold_fires_high() {
    let mut graph = KnowledgeGraph::new();
    let now = ts(100);
    add_runas_actions(&mut graph, "unknown-user", 10, now);

    let mut state = GraphDetectorState::new();
    let incidents = detect_discovery_burst_calibrated(
        &graph,
        &mut state,
        "host",
        &now,
        &CalibrationContext::default(),
    );

    assert_eq!(incidents.len(), 1);
    assert_eq!(incidents[0].severity, Severity::High);
    assert_eq!(count(&incidents[0], "exec_count"), 10);
}

#[test]
fn detect_discovery_burst_human_user_under_adjusted_threshold_is_suppressed() {
    let mut graph = KnowledgeGraph::new();
    let now = ts(100);
    add_runas_actions(&mut graph, "alice", 6, now);
    let ctx = CalibrationContext {
        human_user_names: vec!["alice".into()],
        ..Default::default()
    };

    let mut state = GraphDetectorState::new();
    let incidents = detect_discovery_burst_calibrated(&graph, &mut state, "host", &now, &ctx);

    assert!(incidents.is_empty());
    assert_eq!(state.suppressed_count("discovery_burst", UserClass::Human), 1);
}

#[test]
fn detect_proto_anomaly_fires_medium_at_anomaly_threshold() {
    let mut graph = KnowledgeGraph::new();
    let now = ts(200);
    let source = ensure_ip(&mut graph, "203.0.113.20");
    let target = ensure_ip(&mut graph, "203.0.113.21");
    add_proto_connections(&mut graph, source, target, 5, "malformed packet header", now);

    let mut state = GraphDetectorState::new();
    let incidents = detect_proto_anomaly_aggregated(&graph, &mut state, "host", &now);

    assert_eq!(incidents.len(), 1);
    assert_eq!(incidents[0].severity, Severity::Medium);
    assert_eq!(count(&incidents[0], "anomaly_count"), 5);
}

#[test]
fn detect_proto_anomaly_fires_high_at_high_threshold() {
    let mut graph = KnowledgeGraph::new();
    let now = ts(200);
    let source = ensure_ip(&mut graph, "203.0.113.30");
    let target = ensure_ip(&mut graph, "203.0.113.31");
    add_proto_connections(&mut graph, source, target, 10, "invalid protocol preface", now);

    let mut state = GraphDetectorState::new();
    let incidents = detect_proto_anomaly_aggregated(&graph, &mut state, "host", &now);

    assert_eq!(incidents.len(), 1);
    assert_eq!(incidents[0].severity, Severity::High);
    assert_eq!(count(&incidents[0], "anomaly_count"), 10);
}

#[test]
fn detect_proto_anomaly_ignores_below_threshold_noise() {
    let mut graph = KnowledgeGraph::new();
    let now = ts(200);
    let source = ensure_ip(&mut graph, "203.0.113.40");
    let target = ensure_ip(&mut graph, "203.0.113.41");
    add_proto_connections(&mut graph, source, target, 4, "malformed packet header", now);

    let mut state = GraphDetectorState::new();
    let incidents = detect_proto_anomaly_aggregated(&graph, &mut state, "host", &now);

    assert!(incidents.is_empty());
}

#[test]
fn detect_port_scan_fires_for_ten_distinct_ports() {
    let mut graph = KnowledgeGraph::new();
    let now = ts(300);
    let source = ensure_ip(&mut graph, "203.0.113.50");
    for port in 1..=10 {
        let target = ensure_port(&mut graph, port, "tcp");
        graph.add_edge(Edge::new(source, target, Relation::ScannedPort, now));
    }

    let mut state = GraphDetectorState::new();
    let incidents = detect_port_scan(&graph, &mut state, "host", &now);

    assert_eq!(incidents.len(), 1);
    assert_eq!(incidents[0].severity, Severity::Medium);
    assert_eq!(count(&incidents[0], "distinct_ports"), 10);
    assert!(incidents[0].tags.iter().any(|tag| tag == "T1046"));
}

#[test]
fn detect_port_scan_ignores_below_threshold() {
    let mut graph = KnowledgeGraph::new();
    let now = ts(300);
    let source = ensure_ip(&mut graph, "203.0.113.60");
    for port in 1..=9 {
        let target = ensure_port(&mut graph, port, "tcp");
        graph.add_edge(Edge::new(source, target, Relation::ScannedPort, now));
    }

    let mut state = GraphDetectorState::new();
    let incidents = detect_port_scan(&graph, &mut state, "host", &now);

    assert!(incidents.is_empty());
}

#[test]
fn threat_intel_report_holds_every_detail() {
    let mut graph = KnowledgeGraph::new();
    let now = ts(0);
    let process = ensure_process(&mut graph, 5, "curl");
    let ip = add_ip(&mut graph, "203.0.113.10", false, vec!["sslbl".into()]);
    graph.add_edge(Edge::new(process, ip, Relation::ConnectedTo, now));

    let mut state = GraphDetectorState::new();
    let incidents = detect_threat_intel(&graph, &mut state, "db-2", &now);

    assert_eq!(incidents.len(), 1);
    let incident = &incidents[0];
    assert_eq!(incident.host, "db-2");
    assert_eq!(incident.incident_id, "graph_threat_intel:203.0.113.10:1700000000");
    assert_eq!(
        incident.title,
        "Threat intel match: curl(5) → 203.0.113.10 (sslbl)"
    );
    assert_eq!(
        incident.summary,
        "Process curl(5) connected to IP 203.0.113.10 which is in threat dataset 'sslbl'."
    );
    assert_eq!(text(incident, "source"), "knowledge_graph");
    assert_eq!(text(incident, "detector"), "graph_threat_intel");
    assert_eq!(text(incident, "process"), "curl(5)");
    assert_eq!(text(incident, "ip"), "203.0.113.10");
    assert_eq!(
        incident.recommended_checks,
        vec!["Check process curl(5)", "Investigate IP 203.0.113.10 in threat feeds"]
    );
    assert_eq!(incident.entities[0].kind, EntityKind::Ip);
    assert_eq!(incident.entities[0].value, "203.0.113.10");
}

#[test]
fn threat_intel_reports_each_dataset_of_an_address_once() {
    let mut graph = KnowledgeGraph::new();
    let now = ts(0);
    let first = ensure_process(&mut graph, 5, "curl");
    let second = ensure_process(&mut graph, 6, "wget");
    let ip = add_ip(
        &mut graph,
        "203.0.113.10",
        false,
        vec!["sslbl".into(), "feodo".into()],
    );
    graph.add_edge(Edge::new(first, ip, Relation::ConnectedTo, now));
    graph.add_edge(Edge::new(second, ip, Relation::ConnectedTo, now));

    let mut state = GraphDetectorState::new();
    let incidents = detect_threat_intel(&graph, &mut state, "host", &now);
    assert_eq!(incidents.len(), 2);
    assert_eq!(text(&incidents[0], "dataset"), "sslbl");
    assert_eq!(text(&incidents[1], "dataset"), "feodo");
    assert_eq!(text(&incidents[1], "process"), "curl(5)");
    assert!(detect_threat_intel(&graph, &mut state, "host", &ts(299)).is_empty());
    assert_eq!(detect_threat_intel(&graph, &mut state, "host", &ts(300)).len(), 2);
}

#[test]
fn discovery_counts_runs_and_sensitive_reads() {
    let mut graph = KnowledgeGraph::new();
    let now = ts(100);
    let user = ensure_user(&mut graph, "eve");
    let process = ensure_process(&mut graph, 1, "sh");
    let shadow = ensure_file(&mut graph, "/etc/shadow", true);
    let notes = ensure_file(&mut graph, "/tmp/notes", false);
    graph.add_edge(Edge::new(process, user, Relation::RunAs, ts(40)));
    graph.add_edge(Edge::new(process, user, Relation::RunAs, now));
    graph.add_edge(Edge::new(process, user, Relation::RunAs, ts(39)));
    graph.add_edge(Edge::new(process, shadow, Relation::Read, ts(40)));
    graph.add_edge(Edge::new(process, shadow, Relation::Read, ts(39)));
    graph.add_edge(Edge::new(process, shadow, Relation::Wrote, now));
    graph.add_edge(Edge::new(process, notes, Relation::Read, now));

    let ctx = CalibrationContext::default();
    let mut state = GraphDetectorState::new();
    // Two runs, and one read for each of them.
    assert!(detect_discovery_burst_calibrated(&graph, &mut state, "host", &now, &ctx).is_empty());

    graph.add_edge(Edge::new(process, shadow, Relation::Read, now));
    let incidents = detect_discovery_burst_calibrated(&graph, &mut state, "host", &now, &ctx);
    assert_eq!(incidents.len(), 1);
    let incident = &incidents[0];
    assert_eq!(incident.incident_id, "graph_discovery_burst:eve:1700000100");
    assert_eq!(incident.title, "Discovery burst: user eve (6 actions in 60s)");
    assert_eq!(
        incident.summary,
        "User eve performed 2 process executions and 4 sensitive file reads in 60 seconds"
    );
    assert_eq!(count(incident, "exec_count"), 2);
    assert_eq!(count(incident, "sensitive_reads"), 4);
    assert_eq!(incident.recommended_checks, vec!["Check for reconnaissance activity"]);
    assert_eq!(incident.tags, vec!["T1087"]);
    assert_eq!(incident.entities[0].kind, EntityKind::User);
    assert_eq!(incident.entities[0].value, "eve");
}

#[test]
fn discovery_limits_depend_on_the_class_of_the_user() {
    let ctx = CalibrationContext {
        human_user_names: vec!["alice".into()],
        service_user_names: vec!["snap_daemon".into()],
    };
    let cases = [
        ("root", 14, None),
        ("root", 15, Some(Severity::Medium)),
        ("root", 30, Some(Severity::High)),
        ("alice", 14, None),
        ("alice", 15, Some(Severity::Medium)),
        ("alice", 29, Some(Severity::Medium)),
        ("alice", 30, Some(Severity::High)),
        ("snap_daemon", 24, None),
        ("snap_daemon", 25, Some(Severity::Medium)),
        ("snap_daemon", 92, Some(Severity::Medium)),
        ("eve", 4, None),
        ("eve", 9, Some(Severity::Medium)),
    ];
    for (name, actions, expected) in cases {
        let mut graph = KnowledgeGraph::new();
        let now = ts(100);
        add_runas_actions(&mut graph, name, actions, now);
        let mut state = GraphDetectorState::new();
        let incidents =
            detect_discovery_burst_calibrated(&graph, &mut state, "host", &now, &ctx);
        assert_eq!(
            incidents.first().map(|incident| incident.severity),
            expected,
            "{name} with {actions}"
        );
    }
}

#[test]
fn discovery_suppressions_are_counted_by_class_on_every_run() {
    let ctx = CalibrationContext {
        human_user_names: vec!["alice".into(), "bob".into()],
        service_user_names: vec!["snap_daemon".into()],
    };
    let mut graph = KnowledgeGraph::new();
    let now = ts(100);
    add_runas_actions(&mut graph, "alice", 5, now);
    add_runas_actions(&mut graph, "bob", 14, now);
    add_runas_actions(&mut graph, "snap_daemon", 24, now);
    add_runas_actions(&mut graph, "root", 4, now);
    add_runas_actions(&mut graph, "eve", 4, now);

    let mut state = GraphDetectorState::new();
    assert!(detect_discovery_burst_calibrated(&graph, &mut state, "host", &now, &ctx).is_empty());
    assert!(detect_discovery_burst_calibrated(&graph, &mut state, "host", &now, &ctx).is_empty());
    assert_eq!(state.suppressed_count("discovery_burst", UserClass::Human), 4);
    assert_eq!(state.suppressed_count("discovery_burst", UserClass::Service), 2);
    assert_eq!(state.suppressed_count("discovery_burst", UserClass::Root), 0);
    assert_eq!(state.suppressed_count("discovery_burst", UserClass::Unknown), 0);
    assert_eq!(state.suppressed_count("port_scan", UserClass::Human), 0);
}

#[test]
fn discovery_burst_is_silent_until_its_cooldown_is_over() {
    let mut graph = KnowledgeGraph::new();
    add_runas_actions(&mut graph, "eve", 5, ts(2000));
    let ctx = CalibrationContext::default();
    let mut state = GraphDetectorState::new();
    assert_eq!(
        detect_discovery_burst_calibrated(&graph, &mut state, "host", &ts(100), &ctx).len(),
        1
    );
    assert!(
        detect_discovery_burst_calibrated(&graph, &mut state, "host", &ts(1899), &ctx).is_empty()
    );
    assert_eq!(
        detect_discovery_burst_calibrated(&graph, &mut state, "host", &ts(1900), &ctx).len(),
        1
    );
}

#[test]
fn proto_anomaly_report_holds_every_detail() {
    let mut graph = KnowledgeGraph::new();
    let now = ts(200);
    let source = ensure_ip(&mut graph, "203.0.113.20");
    let target = ensure_ip(&mut graph, "203.0.113.21");
    add_proto_connections(&mut graph, source, target, 6, "anomalous flags", now);
    add_proto_connections(&mut graph, source, target, 2, "plain", now);
    graph.add_edge(Edge::new(source, target, Relation::ConnectedTo, now));

    let mut state = GraphDetectorState::new();
    let incidents = detect_proto_anomaly_aggregated(&graph, &mut state, "host", &now);

    assert_eq!(incidents.len(), 1);
    let incident = &incidents[0];
    assert_eq!(incident.incident_id, "graph_proto_anomaly:203.0.113.20:1700000200");
    assert_eq!(
        incident.title,
        "Protocol anomaly: 6 from 203.0.113.20 (9 connections in 5m)"
    );
    assert_eq!(
        incident.summary,
        "IP 203.0.113.20 sent 6 anomalous connections (9 total) in 5 minutes. \
         May indicate scanning or exploitation attempts."
    );
    assert_eq!(count(incident, "anomaly_count"), 6);
    assert_eq!(count(incident, "total_connections"), 9);
    assert_eq!(
        incident.recommended_checks,
        vec!["Check connections: ss -tn | grep 203.0.113.20"]
    );
    assert_eq!(incident.tags, vec!["T1190"]);
    assert_eq!(incident.entities[0].value, "203.0.113.20");
}

#[test]
fn many_plain_connections_are_reported_too() {
    for (connections, reports) in [(19, 0), (20, 1)] {
        let mut graph = KnowledgeGraph::new();
        let now = ts(200);
        let source = ensure_ip(&mut graph, "203.0.113.20");
        let target = ensure_ip(&mut graph, "203.0.113.21");
        add_proto_connections(&mut graph, source, target, connections, "plain", now);
        let mut state = GraphDetectorState::new();
        let incidents = detect_proto_anomaly_aggregated(&graph, &mut state, "host", &now);
        assert_eq!(incidents.len(), reports);
    }
}

#[test]
fn internal_addresses_are_not_reported() {
    let mut graph = KnowledgeGraph::new();
    let now = ts(200);
    let source = add_ip(&mut graph, "10.0.0.1", true, Vec::new());
    let target = ensure_ip(&mut graph, "203.0.113.21");
    add_proto_connections(&mut graph, source, target, 30, "malformed", now);
    for port in 1..=30 {
        let port = ensure_port(&mut graph, port, "tcp");
        graph.add_edge(Edge::new(source, port, Relation::ScannedPort, now));
    }
    for i in 0..10 {
        let user = ensure_user(&mut graph, &format!("user{i}"));
        graph.add_edge(Edge::new(user, source, Relation::LoggedInFrom, now));
    }
    graph.add_edge(
        Edge::new(source, target, Relation::HttpRequestTo, now).with_prop("user_agent", "nmap"),
    );

    let mut state = GraphDetectorState::new();
    assert!(detect_proto_anomaly_aggregated(&graph, &mut state, "host", &now).is_empty());
    assert!(detect_port_scan(&graph, &mut state, "host", &now).is_empty());
    assert!(detect_credential_stuffing(&graph, &mut state, "host", &now).is_empty());
    assert!(detect_scanner_ua(&graph, &mut state, "host", &now).is_empty());
}

#[test]
fn port_scan_counts_different_ports_in_the_last_minute() {
    let mut graph = KnowledgeGraph::new();
    let now = ts(300);
    let source = ensure_ip(&mut graph, "203.0.113.50");
    let mut ports = Vec::new();
    for port in 1..=10 {
        ports.push(ensure_port(&mut graph, port, "tcp"));
    }
    for port in &ports[..9] {
        graph.add_edge(Edge::new(source, *port, Relation::ScannedPort, now));
        graph.add_edge(Edge::new(source, *port, Relation::ScannedPort, ts(299)));
    }
    graph.add_edge(Edge::new(source, ports[9], Relation::ScannedPort, ts(240)));

    let mut state = GraphDetectorState::new();
    assert!(detect_port_scan(&graph, &mut state, "host", &now).is_empty());

    graph.add_edge(Edge::new(source, ports[9], Relation::ScannedPort, ts(241)));
    let incidents = detect_port_scan(&graph, &mut state, "host", &now);
    assert_eq!(incidents.len(), 1);
    let incident = &incidents[0];
    assert_eq!(incident.incident_id, "graph_port_scan:203.0.113.50:1700000300");
    assert_eq!(incident.title, "Port scan: 203.0.113.50 probed 10 ports in 1m");
    assert_eq!(
        incident.summary,
        "IP 203.0.113.50 probed 10 distinct ports in 1 minute. Indicates network reconnaissance."
    );
    assert_eq!(
        incident.recommended_checks,
        vec!["Block scanner: innerwarden block-ip 203.0.113.50"]
    );
    assert_eq!(incident.entities[0].value, "203.0.113.50");
    assert!(detect_port_scan(&graph, &mut state, "host", &now).is_empty());
}

#[test]
fn credential_stuffing_names_the_users() {
    let mut graph = KnowledgeGraph::new();
    let now = ts(400);
    let ip = ensure_ip(&mut graph, "203.0.113.70");
    for name in ["ann", "bob", "cid", "dan"] {
        let user = ensure_user(&mut graph, name);
        graph.add_edge(Edge::new(user, ip, Relation::LoggedInFrom, now));
        graph.add_edge(Edge::new(user, ip, Relation::LoggedInFrom, ts(399)));
    }
    let late = ensure_user(&mut graph, "eve");
    graph.add_edge(Edge::new(late, ip, Relation::LoggedInFrom, ts(100)));

    let mut state = GraphDetectorState::new();
    assert!(detect_credential_stuffing(&graph, &mut state, "host", &now).is_empty());

    graph.add_edge(Edge::new(late, ip, Relation::LoggedInFrom, ts(101)));
    let incidents = detect_credential_stuffing(&graph, &mut state, "host", &now);
    assert_eq!(incidents.len(), 1);
    let incident = &incidents[0];
    assert_eq!(incident.severity, Severity::High);
    assert_eq!(incident.incident_id, "graph_credential_stuffing:203.0.113.70:1700000400");
    assert_eq!(incident.title, "Credential stuffing: 203.0.113.70 tried 5 users in 5m");
    assert_eq!(
        incident.summary,
        "IP 203.0.113.70 attempted login as 5 distinct users in 5 minutes: \
         ann, bob, cid, dan, eve. Indicates credential stuffing attack."
    );
    assert_eq!(count(incident, "distinct_users"), 5);
    assert_eq!(list(incident, "usernames"), vec!["ann", "bob", "cid", "dan", "eve"]);
    assert_eq!(
        incident.recommended_checks,
        vec!["Block attacker: innerwarden block-ip 203.0.113.70"]
    );
    assert_eq!(incident.tags, vec!["T1110.004"]);
    assert_eq!(incident.entities[0].value, "203.0.113.70");
    assert!(detect_credential_stuffing(&graph, &mut state, "host", &now).is_empty());
}

#[test]
fn credential_stuffing_names_at_most_ten_users() {
    let mut graph = KnowledgeGraph::new();
    let now = ts(400);
    let ip = ensure_ip(&mut graph, "203.0.113.70");
    for i in 0..12 {
        let user = ensure_user(&mut graph, &format!("u{i}"));
        graph.add_edge(Edge::new(user, ip, Relation::LoggedInFrom, now));
    }

    let mut state = GraphDetectorState::new();
    let incidents = detect_credential_stuffing(&graph, &mut state, "host", &now);
    assert_eq!(incidents.len(), 1);
    assert_eq!(count(&incidents[0], "distinct_users"), 12);
    let names = list(&incidents[0], "usernames");
    assert_eq!(names.len(), 10);
    assert_eq!(names[9], "u9");
}

#[test]
fn scanner_user_agents_are_found_in_any_case() {
    let mut graph = KnowledgeGraph::new();
    let now = ts(500);
    let source = ensure_ip(&mut graph, "203.0.113.80");
    let target = ensure_ip(&mut graph, "203.0.113.81");
    graph.add_edge(
        Edge::new(source, target, Relation::HttpRequestTo, now)
            .with_prop("user_agent", "Mozilla/5.0 SQLMap/1.7"),
    );
    graph.add_edge(
        Edge::new(source, target, Relation::HttpRequestTo, now)
            .with_prop("user_agent", "curl/8.0"),
    );
    graph.add_edge(
        Edge::new(source, target, Relation::ConnectedTo, now).with_prop("user_agent", "nikto"),
    );
    graph.add_edge(Edge::new(source, target, Relation::HttpRequestTo, now));

    let mut state = GraphDetectorState::new();
    let incidents = detect_scanner_ua(&graph, &mut state, "host", &now);

    assert_eq!(incidents.len(), 1);
    let incident = &incidents[0];
    assert_eq!(incident.severity, Severity::Medium);
    assert_eq!(incident.incident_id, "graph_scanner_ua:203.0.113.80:1700000500");
    assert_eq!(incident.title, "Security scanner detected: sqlmap from 203.0.113.80");
    assert_eq!(
        incident.summary,
        "IP 203.0.113.80 sent HTTP requests with security scanner User-Agent matching 'sqlmap'. \
         Indicates active reconnaissance."
    );
    assert_eq!(text(incident, "scanner"), "sqlmap");
    assert_eq!(text(incident, "user_agent"), "Mozilla/5.0 SQLMap/1.7");
    assert_eq!(
        incident.recommended_checks,
        vec!["Check access logs for IP 203.0.113.80"]
    );
    assert_eq!(incident.tags, vec!["T1595.002"]);
    assert_eq!(incident.entities[0].value, "203.0.113.80");
    assert!(detect_scanner_ua(&graph, &mut state, "host", &now).is_empty());
}

#[test]
fn two_scanners_at_one_address_are_two_reports() {
    let mut graph = KnowledgeGraph::new();
    let now = ts(500);
    let source = ensure_ip(&mut graph, "203.0.113.80");
    for agent in ["nikto/2.1", "Nikto", "ffuf", "nmap nikto"] {
        graph.add_edge(
            Edge::new(source, source, Relation::HttpRequestTo, now)
                .with_prop("user_agent", agent),
        );
    }

    let mut state = GraphDetectorState::new();
    let incidents = detect_scanner_ua(&graph, &mut state, "host", &now);
    let found: Vec<String> = incidents.iter().map(|i| text(i, "scanner")).collect();
    assert_eq!(found, vec!["nikto", "ffuf", "nmap"]);
}

#[test]
fn scanner_is_the_first_of_the_list() {
    assert_eq!(find_scanner("masscan nmap"), Some("nmap"));
    assert_eq!(find_scanner("acunetix"), Some("acunetix"));
    assert_eq!(find_scanner("mozilla"), None);
    assert_eq!(find_scanner(""), None);
    assert_eq!(find_scanner("NMAP"), None);
}

#[test]
fn reported_addresses_are_not_reported_again_within_the_cooldown() {
    let mut graph = KnowledgeGraph::new();
    let now = ts(0);
    let source = ensure_ip(&mut graph, "203.0.113.90");
    let target = ensure_ip(&mut graph, "203.0.113.91");
    add_proto_connections(&mut graph, source, target, 20, "plain", now);
    for port in 1..=10 {
        let port = ensure_port(&mut graph, port, "tcp");
        graph.add_edge(Edge::new(source, port, Relation::ScannedPort, now));
        graph.add_edge(Edge::new(source, port, Relation::ScannedPort, ts(590)));
    }
    for i in 0..5 {
        let user = ensure_user(&mut graph, &format!("user{i}"));
        graph.add_edge(Edge::new(user, source, Relation::LoggedInFrom, now));
    }
    let mut state = GraphDetectorState::new();
    assert_eq!(detect_proto_anomaly_aggregated(&graph, &mut state, "host", &now).len(), 1);
    assert_eq!(detect_port_scan(&graph, &mut state, "host", &now).len(), 1);
    assert_eq!(detect_credential_stuffing(&graph, &mut state, "host", &now).len(), 1);
    for later in [1, 59, 299, 599] {
        let later = ts(later);
        assert!(detect_proto_anomaly_aggregated(&graph, &mut state, "host", &later).is_empty());
        assert!(detect_port_scan(&graph, &mut state, "host", &later).is_empty());
        assert!(detect_credential_stuffing(&graph, &mut state, "host", &later).is_empty());
    }
    assert_eq!(detect_port_scan(&graph, &mut state, "host", &ts(600)).len(), 1);
}

#[test]
fn a_request_without_a_user_agent_reports_nothing() {
    let mut graph = KnowledgeGraph::new();
    let now = ts(500);
    let source = ensure_ip(&mut graph, "203.0.113.80");
    graph.add_edge(Edge::new(source, source, Relation::HttpRequestTo, now));
    let mut state = GraphDetectorState::new();
    assert!(detect_scanner_ua(&graph, &mut state, "host", &now).is_empty());
}
