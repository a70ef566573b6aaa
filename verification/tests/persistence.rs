use warden_graph::alert::GraphDetectorState;
use warden_graph::graph::{Edge, KnowledgeGraph, Node, NodeId, NodeKind, Relation};
use warden_graph::incident::{EntityKind, Incident, Severity};
use warden_graph::persistence::{
    detect_log_tampering, detect_persistence, detect_service_stop, detect_sudo_abuse,
    find_stopped_service,
};
use warden_graph::record::{field, Value};
use warden_graph::time::Timestamp;

fn ts(secs: i64) -> Timestamp {
    Timestamp::from_timestamp(secs, 0).expect("test timestamp must be valid")
}

fn ensure_process(graph: &mut KnowledgeGraph, pid: u32, comm: &str) -> NodeId {
    graph.add_node(Node {
        label: format!("{comm}({pid})"),
        kind: NodeKind::Process { comm: comm.to_string() },
    })
}

fn ensure_file(graph: &mut KnowledgeGraph, path: &str) -> NodeId {
    graph.add_node(Node {
        label: path.to_string(),
        kind: NodeKind::File { path: path.to_string(), is_sensitive: false },
    })
}

fn ensure_user(graph: &mut KnowledgeGraph, name: &str) -> NodeId {
    graph.add_node(Node {
        label: name.to_string(),
        kind: NodeKind::User { name: name.to_string() },
    })
}

fn text(incident: &Incident, name: &str) -> String {
    match field(&incident.evidence, name) {
        Some(Value::Text(text)) => text.clone(),
        other => panic!("no text under {name}: {other:?}"),
    }
}

fn count(incident: &Incident, name: &str) -> u64 {
    match field(&incident.evidence, name) {
        Some(Value::Count(count)) => *count,
        other => panic!("no count under {name}: {other:?}"),
    }
}

#[test]
fn detect_persistence_fires_for_systemd_write() {
    let mut graph = KnowledgeGraph::new();
    let now = ts(600);
    let process = ensure_process(&mut graph, 1234, "payload");
    let file = ensure_file(&mut graph, "/etc/systemd/system/backdoor.service");
    graph.add_edge(Edge::new(process, file, Relation::Wrote, now));

    let mut state = GraphDetectorState::new();
    let incidents = detect_persistence(&graph, &mut state, "host", &now);

    assert_eq!(incidents.len(), 1);
    assert_eq!(incidents[0].severity, Severity::High);
    assert!(incidents[0].title.contains("Persistence"));
    assert!(incidents[0].tags.iter().any(|tag| tag == "T1543.002"));
}

#[test]
fn detect_persistence_ignores_non_persistence_write() {
    let mut graph = KnowledgeGraph::new();
    let now = ts(600);
    let process = ensure_process(&mut graph, 1234, "payload");
    let file = ensure_file(&mut graph, "/tmp/harmless.txt");
    graph.add_edge(Edge::new(process, file, Relation::Wrote, now));

    let mut state = GraphDetectorState::new();
    let incidents = detect_persistence(&graph, &mut state, "host", &now);

    assert!(incidents.is_empty());
}

#[test]
fn detect_service_stop_fires_for_security_service_disable() {
    let mut graph = KnowledgeGraph::new();
    let now = ts(600);
    let systemctl = ensure_process(&mut graph, 42, "systemctl");
    graph.add_edge(
        Edge::new(systemctl, systemctl, Relation::Executed, now)
            .with_prop("summary", "systemctl disable auditd"),
    );

    let mut state = GraphDetectorState::new();
    let incidents = detect_service_stop(&graph, &mut state, "host", &now);

    assert_eq!(incidents.len(), 1);
    assert_eq!(incidents[0].severity, Severity::Critical);
    assert_eq!(text(&incidents[0], "service"), "auditd");
    assert!(incidents[0].tags.iter().any(|tag| tag == "T1562.001"));
}

#[test]
fn detect_service_stop_ignores_non_stop_actions() {
    let mut graph = KnowledgeGraph::new();
    let now = ts(600);
    let systemctl = ensure_process(&mut graph, 42, "systemctl");
    graph.add_edge(
        Edge::new(systemctl, systemctl, Relation::Executed, now)
            .with_prop("summary", "systemctl status auditd"),
    );

    let mut state = GraphDetectorState::new();
    let incidents = detect_service_stop(&graph, &mut state, "host", &now);

    assert!(incidents.is_empty());
}

#[test]
fn detect_log_tampering_fires_for_nonstandard_log_delete() {
    let mut graph = KnowledgeGraph::new();
    let now = ts(600);
    let process = ensure_process(&mut graph, 77, "cleanup");
    let file = ensure_file(&mut graph, "/var/log/auth.log");
    graph.add_edge(Edge::new(process, file, Relation::Deleted, now));

    let mut state = GraphDetectorState::new();
    let incidents = detect_log_tampering(&graph, &mut state, "host", &now);

    assert_eq!(incidents.len(), 1);
    assert_eq!(incidents[0].severity, Severity::High);
    assert_eq!(text(&incidents[0], "action"), "Deleted");
    assert!(incidents[0].tags.iter().any(|tag| tag == "T1070.002"));
}

#[test]
fn detect_log_tampering_ignores_trusted_log_writer() {
    let mut graph = KnowledgeGraph::new();
    let now = ts(600);
    let rsyslog = ensure_process(&mut graph, 77, "rsyslog");
    let file = ensure_file(&mut graph, "/var/log/syslog");
    graph.add_edge(Edge::new(rsyslog, file, Relation::Wrote, now));

    let mut state = GraphDetectorState::new();
    let incidents = detect_log_tampering(&graph, &mut state, "host", &now);

    assert!(incidents.is_empty());
}

#[test]
fn detect_sudo_abuse_fires_for_ten_sudo_edges_in_window() {
    let mut graph = KnowledgeGraph::new();
    let user = ensure_user(&mut graph, "attacker");
    for i in 0..10 {
        let at = ts(i * 5);
        let process = ensure_process(&mut graph, 1000 + i as u32, "sudo");
        graph.add_edge(Edge::new(process, user, Relation::SudoAs, at));
    }

    let mut state = GraphDetectorState::new();
    let incidents = detect_sudo_abuse(&graph, &mut state, "host", &ts(55));

    assert_eq!(incidents.len(), 1);
    assert_eq!(incidents[0].severity, Severity::High);
    assert_eq!(count(&incidents[0], "sudo_count"), 10);
    assert!(incidents[0].tags.iter().any(|tag| tag == "T1548.003"));
}

#[test]
fn detect_sudo_abuse_ignores_bursts_below_threshold() {
    let mut graph = KnowledgeGraph::new();
    let user = ensure_user(&mut graph, "operator");
    for i in 0..9 {
        let at = ts(i * 5);
        let process = ensure_process(&mut graph, 1000 + i as u32, "sudo");
        graph.add_edge(Edge::new(process, user, Relation::SudoAs, at));
    }

    let mut state = GraphDetectorState::new();
    let incidents = detect_sudo_abuse(&graph, &mut state, "host", &ts(55));

    assert!(incidents.is_empty());
}

#[test]
fn persistence_report_holds_every_detail() {
    let mut graph = KnowledgeGraph::new();
    let now = ts(600);
    let process = ensure_process(&mut graph, 7, "sh");
    let file = ensure_file(&mut graph, "/home/eve/.ssh/authorized_keys");
    graph.add_edge(Edge::new(process, file, Relation::Wrote, now));

    let mut state = GraphDetectorState::new();
    let incidents = detect_persistence(&graph, &mut state, "web-1", &now);

    assert_eq!(incidents.len(), 1);
    let incident = &incidents[0];
    assert_eq!(incident.ts.timestamp(), 600);
    assert_eq!(incident.host, "web-1");
    assert_eq!(incident.incident_id, "graph_ssh_key_injection:0:600");
    assert_eq!(
        incident.title,
        "Persistence: sh(7) wrote to /home/eve/.ssh/authorized_keys"
    );
    assert_eq!(
        incident.summary,
        "Process sh(7) wrote to persistence location /home/eve/.ssh/authorized_keys"
    );
    assert_eq!(text(incident, "source"), "knowledge_graph");
    assert_eq!(text(incident, "detector"), "graph_ssh_key_injection");
    assert_eq!(text(incident, "process"), "sh(7)");
    assert_eq!(text(incident, "path"), "/home/eve/.ssh/authorized_keys");
    assert_eq!(
        incident.recommended_checks,
        vec!["Inspect /home/eve/.ssh/authorized_keys", "Check process tree of sh(7)"]
    );
    assert_eq!(incident.tags, vec!["T1098.004"]);
    assert_eq!(incident.entities.len(), 1);
    assert_eq!(incident.entities[0].kind, EntityKind::Path);
    assert_eq!(incident.entities[0].value, "/home/eve/.ssh/authorized_keys");
}

#[test]
fn persistence_knows_every_location() {
    let cases = [
        ("/etc/cron.d/job", "T1053.003"),
        ("/var/spool/cron/root", "T1053.003"),
        ("/etc/systemd/system/a.service", "T1543.002"),
        ("/usr/lib/systemd/system/a.service", "T1543.002"),
        ("/root/.ssh/authorized_keys", "T1098.004"),
    ];
    for (path, technique) in cases {
        let mut graph = KnowledgeGraph::new();
        let now = ts(600);
        let process = ensure_process(&mut graph, 1, "sh");
        let file = ensure_file(&mut graph, path);
        graph.add_edge(Edge::new(process, file, Relation::Wrote, now));
        let mut state = GraphDetectorState::new();
        let incidents = detect_persistence(&graph, &mut state, "host", &now);
        assert_eq!(incidents.len(), 1, "{path}");
        assert_eq!(incidents[0].tags, vec![technique]);
    }
}

#[test]
fn persistence_window_includes_its_first_second() {
    let mut graph = KnowledgeGraph::new();
    let early = ensure_process(&mut graph, 1, "early");
    let late = ensure_process(&mut graph, 2, "late");
    let file = ensure_file(&mut graph, "/etc/crontab");
    graph.add_edge(Edge::new(early, file, Relation::Wrote, ts(299)));
    graph.add_edge(Edge::new(late, file, Relation::Wrote, ts(300)));

    let mut state = GraphDetectorState::new();
    let incidents = detect_persistence(&graph, &mut state, "host", &ts(600));

    assert_eq!(incidents.len(), 1);
    assert_eq!(text(&incidents[0], "process"), "late(2)");
}

#[test]
fn persistence_reads_and_other_sources_are_ignored() {
    let mut graph = KnowledgeGraph::new();
    let now = ts(600);
    let process = ensure_process(&mut graph, 1, "cat");
    let user = ensure_user(&mut graph, "eve");
    let file = ensure_file(&mut graph, "/etc/crontab");
    graph.add_edge(Edge::new(process, file, Relation::Read, now));
    graph.add_edge(Edge::new(user, file, Relation::Wrote, now));
    graph.add_edge(Edge::new(process, user, Relation::Wrote, now));

    let mut state = GraphDetectorState::new();
    assert!(detect_persistence(&graph, &mut state, "host", &now).is_empty());
}

#[test]
fn persistence_of_one_kind_by_one_process_is_reported_once() {
    let mut graph = KnowledgeGraph::new();
    let now = ts(600);
    let process = ensure_process(&mut graph, 1, "sh");
    let first = ensure_file(&mut graph, "/etc/cron.d/a");
    let second = ensure_file(&mut graph, "/var/spool/cron/b");
    graph.add_edge(Edge::new(process, first, Relation::Wrote, now));
    graph.add_edge(Edge::new(process, second, Relation::Wrote, now));

    let mut state = GraphDetectorState::new();
    let incidents = detect_persistence(&graph, &mut state, "host", &now);
    assert_eq!(incidents.len(), 1);
    assert_eq!(text(&incidents[0], "path"), "/etc/cron.d/a");
    assert!(detect_persistence(&graph, &mut state, "host", &now).is_empty());
}

#[test]
fn persistence_in_locations_of_two_kinds_is_reported_for_one_at_a_time() {
    let mut graph = KnowledgeGraph::new();
    let now = ts(600);
    let process = ensure_process(&mut graph, 1, "sh");
    let file = ensure_file(&mut graph, "/etc/cron.d/authorized_keys");
    graph.add_edge(Edge::new(process, file, Relation::Wrote, now));

    let mut state = GraphDetectorState::new();
    let first = detect_persistence(&graph, &mut state, "host", &now);
    assert_eq!(first.len(), 1);
    assert_eq!(first[0].tags, vec!["T1053.003"]);
    let second = detect_persistence(&graph, &mut state, "host", &now);
    assert_eq!(second.len(), 1);
    assert_eq!(second[0].tags, vec!["T1098.004"]);
    assert!(detect_persistence(&graph, &mut state, "host", &now).is_empty());
}

#[test]
fn service_stop_report_holds_every_detail_in_lower_case() {
    let mut graph = KnowledgeGraph::new();
    let now = ts(600);
    let service = ensure_process(&mut graph, 42, "service");
    graph.add_edge(
        Edge::new(service, service, Relation::Executed, now)
            .with_prop("summary", "Service Fail2Ban STOP"),
    );

    let mut state = GraphDetectorState::new();
    let incidents = detect_service_stop(&graph, &mut state, "host", &now);

    assert_eq!(incidents.len(), 1);
    let incident = &incidents[0];
    assert_eq!(incident.incident_id, "graph_service_stop:fail2ban:600");
    assert_eq!(incident.title, "Security service stopped: fail2ban");
    assert_eq!(
        incident.summary,
        "Process 'service' stopped security service 'fail2ban'. This may indicate defense evasion."
    );
    assert_eq!(text(incident, "source"), "knowledge_graph");
    assert_eq!(text(incident, "detector"), "graph_service_stop");
    assert_eq!(text(incident, "process"), "service");
    assert_eq!(text(incident, "service"), "fail2ban");
    assert_eq!(text(incident, "args"), "service fail2ban stop");
    assert_eq!(
        incident.recommended_checks,
        vec![
            "Check if fail2ban is still running: systemctl status fail2ban",
            "Review who initiated the stop",
        ]
    );
    assert!(incident.entities.is_empty());
}

#[test]
fn service_stop_reads_the_first_summary_only() {
    let mut graph = KnowledgeGraph::new();
    let now = ts(600);
    let systemctl = ensure_process(&mut graph, 42, "systemctl");
    graph.add_edge(Edge::new(systemctl, systemctl, Relation::Executed, now));
    graph.add_edge(
        Edge::new(systemctl, systemctl, Relation::Executed, now)
            .with_prop("summary", "systemctl status ufw"),
    );
    graph.add_edge(
        Edge::new(systemctl, systemctl, Relation::Executed, now)
            .with_prop("summary", "systemctl stop ufw"),
    );

    let mut state = GraphDetectorState::new();
    assert!(detect_service_stop(&graph, &mut state, "host", &now).is_empty());
}

#[test]
fn stopped_service_is_the_first_of_the_list() {
    assert_eq!(find_stopped_service("systemctl", "stop rsyslog"), Some("rsyslog"));
    assert_eq!(find_stopped_service("systemctl", "stop syslog"), Some("syslog"));
    assert_eq!(find_stopped_service("systemctl", "stop ufw auditd"), Some("auditd"));
    assert_eq!(find_stopped_service("service", "disable selinux"), Some("selinux"));
    assert_eq!(find_stopped_service("systemctl", "stop nginx"), None);
    assert_eq!(find_stopped_service("systemctl", "restart auditd"), None);
    assert_eq!(find_stopped_service("bash", "stop auditd"), None);
}

#[test]
fn log_tampering_report_holds_every_detail() {
    let mut graph = KnowledgeGraph::new();
    let now = ts(600);
    let process = ensure_process(&mut graph, 9, "vi");
    let file = ensure_file(&mut graph, "/var/log/wtmp");
    graph.add_edge(Edge::new(process, file, Relation::Truncated, ts(1)));

    let mut state = GraphDetectorState::new();
    let incidents = detect_log_tampering(&graph, &mut state, "host", &now);

    assert_eq!(incidents.len(), 1);
    let incident = &incidents[0];
    assert_eq!(incident.incident_id, "graph_log_tampering:vi:600");
    assert_eq!(incident.title, "Log tampering: vi modified /var/log/wtmp");
    assert_eq!(
        incident.summary,
        "Non-standard process 'vi' modified log file '/var/log/wtmp'. \
         This may indicate log tampering to cover tracks."
    );
    assert_eq!(text(incident, "detector"), "graph_log_tampering");
    assert_eq!(text(incident, "process"), "vi");
    assert_eq!(text(incident, "file"), "/var/log/wtmp");
    assert_eq!(text(incident, "action"), "Truncated");
    assert_eq!(
        incident.recommended_checks,
        vec!["Check integrity of /var/log/wtmp", "Investigate process vi"]
    );
    assert!(incident.entities.is_empty());
}

#[test]
fn log_tampering_is_only_below_the_log_directory() {
    let mut graph = KnowledgeGraph::new();
    let now = ts(600);
    let process = ensure_process(&mut graph, 9, "vi");
    let elsewhere = ensure_file(&mut graph, "/srv/var/log/app.log");
    let log = ensure_file(&mut graph, "/var/log/app.log");
    graph.add_edge(Edge::new(process, elsewhere, Relation::Wrote, now));
    graph.add_edge(Edge::new(process, log, Relation::Read, now));

    let mut state = GraphDetectorState::new();
    assert!(detect_log_tampering(&graph, &mut state, "host", &now).is_empty());
}

#[test]
fn log_tampering_at_two_files_is_two_reports() {
    let mut graph = KnowledgeGraph::new();
    let now = ts(600);
    let process = ensure_process(&mut graph, 9, "vi");
    let first = ensure_file(&mut graph, "/var/log/a");
    let second = ensure_file(&mut graph, "/var/log/b");
    graph.add_edge(Edge::new(process, first, Relation::Wrote, now));
    graph.add_edge(Edge::new(process, second, Relation::Wrote, now));
    graph.add_edge(Edge::new(process, second, Relation::Deleted, now));

    let mut state = GraphDetectorState::new();
    let incidents = detect_log_tampering(&graph, &mut state, "host", &now);
    assert_eq!(incidents.len(), 2);
    assert_eq!(text(&incidents[1], "action"), "Wrote");
    assert!(detect_log_tampering(&graph, &mut state, "host", &ts(1199)).is_empty());
    assert_eq!(detect_log_tampering(&graph, &mut state, "host", &ts(1200)).len(), 2);
}

#[test]
fn sudo_abuse_report_holds_every_detail() {
    let mut graph = KnowledgeGraph::new();
    let user = ensure_user(&mut graph, "eve");
    for i in 0..12 {
        let process = ensure_process(&mut graph, i, "sudo");
        graph.add_edge(Edge::new(process, user, Relation::SudoAs, ts(100)));
    }

    let mut state = GraphDetectorState::new();
    let incidents = detect_sudo_abuse(&graph, &mut state, "host", &ts(100));

    assert_eq!(incidents.len(), 1);
    let incident = &incidents[0];
    assert_eq!(incident.incident_id, "graph_sudo_abuse:eve:100");
    assert_eq!(incident.title, "Sudo abuse: eve ran 12 sudo commands in 1m");
    assert_eq!(
        incident.summary,
        "User 'eve' executed 12 sudo commands in 1 minute. \
         May indicate privilege abuse or automated exploitation."
    );
    assert_eq!(text(incident, "user"), "eve");
    assert_eq!(count(incident, "sudo_count"), 12);
    assert_eq!(
        incident.recommended_checks,
        vec![
            "Check sudo log: journalctl _COMM=sudo | grep eve",
            "Suspend user: innerwarden suspend-user eve",
        ]
    );
    assert_eq!(incident.entities[0].kind, EntityKind::User);
    assert_eq!(incident.entities[0].value, "eve");
}

#[test]
fn sudo_window_excludes_its_first_second() {
    let mut graph = KnowledgeGraph::new();
    let user = ensure_user(&mut graph, "eve");
    for i in 0..10 {
        let process = ensure_process(&mut graph, i, "sudo");
        graph.add_edge(Edge::new(process, user, Relation::SudoAs, ts(100)));
    }

    let mut state = GraphDetectorState::new();
    assert!(detect_sudo_abuse(&graph, &mut state, "host", &ts(160)).is_empty());
    assert_eq!(detect_sudo_abuse(&graph, &mut state, "host", &ts(159)).len(), 1);
}

#[test]
fn root_may_use_sudo_as_often_as_it_likes() {
    let mut graph = KnowledgeGraph::new();
    let user = ensure_user(&mut graph, "root");
    for i in 0..50 {
        let process = ensure_process(&mut graph, i, "sudo");
        graph.add_edge(Edge::new(process, user, Relation::SudoAs, ts(100)));
    }

    let mut state = GraphDetectorState::new();
    assert!(detect_sudo_abuse(&graph, &mut state, "host", &ts(100)).is_empty());
}

#[test]
fn sudo_abuse_is_reported_again_after_its_cooldown() {
    let mut graph = KnowledgeGraph::new();
    let user = ensure_user(&mut graph, "eve");
    for i in 0..10 {
        let process = ensure_process(&mut graph, i, "sudo");
        graph.add_edge(Edge::new(process, user, Relation::SudoAs, ts(1900)));
    }

    let mut state = GraphDetectorState::new();
    assert_eq!(detect_sudo_abuse(&graph, &mut state, "host", &ts(100)).len(), 1);
    assert!(detect_sudo_abuse(&graph, &mut state, "host", &ts(1899)).is_empty());
    assert_eq!(detect_sudo_abuse(&graph, &mut state, "host", &ts(1900)).len(), 1);
}

#[test]
fn service_stop_is_silent_for_the_whole_cooldown() {
    let mut graph = KnowledgeGraph::new();
    let systemctl = ensure_process(&mut graph, 42, "systemctl");
    graph.add_edge(
        Edge::new(systemctl, systemctl, Relation::Executed, ts(1))
            .with_prop("summary", "systemctl STOP Rsyslog"),
    );

    let mut state = GraphDetectorState::new();
    assert_eq!(detect_service_stop(&graph, &mut state, "host", &ts(600)).len(), 1);
    for later in [600, 601, 750, 899] {
        assert!(detect_service_stop(&graph, &mut state, "host", &ts(later)).is_empty());
    }
    assert_eq!(detect_service_stop(&graph, &mut state, "host", &ts(900)).len(), 1);
}

#[test]
fn a_cooldown_that_ends_between_two_runs_lets_its_key_fire() {
    let mut graph = KnowledgeGraph::new();
    let process = ensure_process(&mut graph, 9, "vi");
    let first = ensure_file(&mut graph, "/var/log/a");
    graph.add_edge(Edge::new(process, first, Relation::Wrote, ts(1)));
    let mut state = GraphDetectorState::new();
    assert_eq!(detect_log_tampering(&graph, &mut state, "host", &ts(100)).len(), 1);

    let second = ensure_file(&mut graph, "/var/log/b");
    graph.add_edge(Edge::new(process, second, Relation::Wrote, ts(1)));
    let incidents = detect_log_tampering(&graph, &mut state, "host", &ts(500));
    assert_eq!(incidents.len(), 1);
    assert_eq!(text(&incidents[0], "file"), "/var/log/b");
    let incidents = detect_log_tampering(&graph, &mut state, "host", &ts(700));
    assert_eq!(incidents.len(), 1);
    assert_eq!(text(&incidents[0], "file"), "/var/log/a");
}

#[test]
fn persistence_is_silent_while_its_window_moves_on() {
    let mut graph = KnowledgeGraph::new();
    let process = ensure_process(&mut graph, 1, "sh");
    let file = ensure_file(&mut graph, "/etc/cron.d/a");
    graph.add_edge(Edge::new(process, file, Relation::Wrote, ts(600)));

    let mut state = GraphDetectorState::new();
    assert_eq!(detect_persistence(&graph, &mut state, "host", &ts(600)).len(), 1);
    for later in [601, 900, 901, 1199] {
        assert!(detect_persistence(&graph, &mut state, "host", &ts(later)).is_empty());
    }
    // Another write of the same kind by the same process.
    graph.add_edge(Edge::new(process, file, Relation::Wrote, ts(1100)));
    assert!(detect_persistence(&graph, &mut state, "host", &ts(1199)).is_empty());
    assert_eq!(detect_persistence(&graph, &mut state, "host", &ts(1200)).len(), 1);
}
