use warden_graph::alert::{Alert, GraphDetectorState};
use warden_graph::calibration::{user_class_label, CalibrationContext, UserClass};
use warden_graph::graph::{
    distinct_nodes, find_text, Edge, KnowledgeGraph, Node, NodeKind, NodeType, PropertyValue,
    Relation,
};
use warden_graph::incident::{Incident, Severity};
use warden_graph::record::{field, Field, Value};
use warden_graph::text::{
    cat2, cat7, characters, contains, find_part, join, listed, lower_text, number, one_of, same_text,
    signed_number, starts_with,
};
use warden_graph::time::{Timestamp, MAX_SECS, MIN_SECS};

fn at(secs: i64) -> Timestamp {
    Timestamp::from_timestamp(secs, 0).expect("test timestamp must be valid")
}

fn exact(secs: i64, nanos: u32) -> Timestamp {
    Timestamp::from_timestamp(secs, nanos).expect("test timestamp must be valid")
}

#[test]
fn the_time_line_has_two_ends() {
    assert!(Timestamp::from_timestamp(MIN_SECS, 0).is_some());
    assert!(Timestamp::from_timestamp(MIN_SECS - 1, 0).is_none());
    assert!(Timestamp::from_timestamp(MAX_SECS, 999_999_999).is_some());
    assert!(Timestamp::from_timestamp(MAX_SECS + 1, 0).is_none());
    assert!(Timestamp::from_timestamp(i64::MAX, 0).is_none());
    assert!(Timestamp::from_timestamp(i64::MIN, 0).is_none());
}

#[test]
fn leap_seconds_stand_at_the_end_of_a_minute() {
    assert!(Timestamp::from_timestamp(59, 1_999_999_999).is_some());
    assert!(Timestamp::from_timestamp(58, 1_000_000_000).is_none());
    assert!(Timestamp::from_timestamp(59, 2_000_000_000).is_none());
    assert!(Timestamp::from_timestamp(-1, 1_000_000_000).is_some());
    assert!(Timestamp::from_timestamp(-60, 1_000_000_000).is_none());
    assert!(Timestamp::from_timestamp(MAX_SECS, 1_999_999_999).is_some());
}

#[test]
fn timestamps_keep_what_they_are_made_of() {
    let t = exact(-5, 17);
    assert_eq!(t.timestamp(), -5);
    assert_eq!(t.subsec_nanos(), 17);
}

#[test]
fn earlier_is_strict() {
    assert!(at(1).is_before(&at(2)));
    assert!(!at(2).is_before(&at(2)));
    assert!(exact(2, 0).is_before(&exact(2, 1)));
    assert!(!exact(2, 1).is_before(&exact(2, 0)));
}

#[test]
fn seconds_are_added_on_the_time_line() {
    let t = exact(100, 5);
    let later = t.checked_add_seconds(60).expect("on the time line");
    assert_eq!((later.timestamp(), later.subsec_nanos()), (160, 5));
    let earlier = t.checked_add_seconds(-300).expect("on the time line");
    assert_eq!((earlier.timestamp(), earlier.subsec_nanos()), (-200, 5));
    assert_eq!(t.add_seconds(1).timestamp(), 101);
    assert!(at(MAX_SECS).checked_add_seconds(0).is_some());
    assert!(at(MAX_SECS).checked_add_seconds(1).is_none());
    assert!(at(MIN_SECS).checked_add_seconds(-1).is_none());
    assert!(t.checked_add_seconds(i64::MAX).is_none());
    assert!(t.checked_add_seconds(i64::MIN).is_none());
}

#[test]
fn leap_seconds_are_left_on_either_side() {
    let leap = exact(59, 1_500_000_000);
    let forwards = leap.checked_add_seconds(1).expect("on the time line");
    assert_eq!((forwards.timestamp(), forwards.subsec_nanos()), (60, 500_000_000));
    let backwards = leap.checked_add_seconds(-1).expect("on the time line");
    assert_eq!((backwards.timestamp(), backwards.subsec_nanos()), (59, 500_000_000));
    let still = leap.checked_add_seconds(0).expect("on the time line");
    assert_eq!((still.timestamp(), still.subsec_nanos()), (59, 1_500_000_000));
    let last = exact(MAX_SECS, 1_500_000_000);
    assert!(last.checked_add_seconds(1).is_none());
    assert_eq!(last.checked_add_seconds(-1).map(|t| t.timestamp()), Some(MAX_SECS));
    assert_eq!(last.checked_add_seconds(-2).map(|t| t.timestamp()), Some(MAX_SECS - 1));
}

#[test]
fn spans_are_measured_to_the_nanosecond() {
    assert!(exact(159, 999_999_999).is_within(&exact(100, 0), 60));
    assert!(!exact(160, 0).is_within(&exact(100, 0), 60));
    assert!(exact(160, 0).is_within(&exact(100, 1), 60));
    assert!(at(100).is_within(&at(200), 0));
    assert!(!at(100).is_within(&at(100), 0));
    assert!(at(MIN_SECS).is_within(&at(MAX_SECS), i64::MIN / 1_000_000));
    assert!(!at(MAX_SECS).is_within(&at(MIN_SECS), 1_000_000_000_000));
}

#[test]
fn leap_seconds_count_where_a_span_touches_them() {
    let leap = exact(59, 1_500_000_000);
    assert!(!at(61).is_within(&leap, 1));
    assert!(exact(61, 499_999_999).is_within(&leap, 2));
    assert!(!exact(61, 500_000_000).is_within(&leap, 2));
    assert!(leap.is_within(&at(58), 3));
    assert!(!leap.is_within(&at(58), 2));
}

#[test]
fn numbers_are_written_in_decimal() {
    assert_eq!(number(0), "0");
    assert_eq!(number(7), "7");
    assert_eq!(number(10), "10");
    assert_eq!(number(u64::MAX), "18446744073709551615");
    assert_eq!(signed_number(-1), "-1");
    assert_eq!(signed_number(42), "42");
    assert_eq!(signed_number(i64::MIN), "-9223372036854775808");
}

#[test]
fn texts_are_compared_and_searched() {
    assert!(same_text("äb", "äb"));
    assert!(!same_text("ab", "abc"));
    assert!(!same_text("ab", "ac"));
    assert!(contains("systemctl stop", "stop"));
    assert!(contains("stop", "stop"));
    assert!(contains("x", ""));
    assert!(contains("", ""));
    assert!(!contains("sto", "stop"));
    assert!(contains("größe", "öß"));
    assert!(starts_with("/var/log/a", "/var/log/"));
    assert!(!starts_with("x/var/log/a", "/var/log/"));
    assert!(!starts_with("/var", "/var/log/"));
    assert_eq!(characters("aß"), vec!['a', 'ß']);
    let names = vec!["a".to_string(), "b".to_string()];
    assert!(listed(&names, "b"));
    assert!(!listed(&names, "c"));
    assert!(one_of("b", &vec!["a", "b"]));
    assert!(!one_of("c", &vec!["a", "b"]));
    assert_eq!(find_part("xbya", &vec!["a", "b"]), Some("a"));
    assert_eq!(find_part("xyz", &vec!["a", "b"]), None);
}

#[test]
fn texts_are_put_in_lower_case() {
    assert_eq!(lower_text("systemctl STOP Rsyslog"), "systemctl stop rsyslog");
    assert_eq!(lower_text("@[`{09 az AZ"), "@[`{09 az az");
    assert_eq!(lower_text("ÄÖ"), "äö");
    assert_eq!(lower_text(""), "");
}

#[test]
fn texts_are_put_together() {
    assert_eq!(cat2("a", "b"), "ab");
    assert_eq!(cat7("a", "b", "c", "d", "e", "f", "g"), "abcdefg");
    assert_eq!(join(&Vec::new(), ", "), "");
    assert_eq!(join(&vec!["a".to_string()], ", "), "a");
    assert_eq!(join(&vec!["a".to_string(), "b".to_string(), "c".to_string()], ", "), "a, b, c");
}

#[test]
fn the_first_value_of_a_name_counts() {
    let fields = vec![
        Field::text("a", "1"),
        Field::count("b", 2),
        Field::text("a", "3"),
        Field::list("c", vec!["x".to_string()]),
    ];
    assert!(matches!(field(&fields, "a"), Some(Value::Text(text)) if text == "1"));
    assert!(matches!(field(&fields, "b"), Some(Value::Count(2))));
    assert!(matches!(field(&fields, "c"), Some(Value::List(list)) if list == &vec!["x"]));
    assert!(field(&fields, "d").is_none());
}

#[test]
fn users_are_classified_by_what_is_known_of_them() {
    let ctx = CalibrationContext {
        human_user_names: vec!["alice".to_string(), "root".to_string()],
        service_user_names: vec!["snap".to_string(), "alice".to_string()],
    };
    assert_eq!(ctx.classify_user("root"), UserClass::Root);
    assert_eq!(ctx.classify_user("alice"), UserClass::Human);
    assert_eq!(ctx.classify_user("snap"), UserClass::Service);
    assert_eq!(ctx.classify_user("eve"), UserClass::Unknown);
    assert_eq!(user_class_label(UserClass::Root), "root");
    assert_eq!(user_class_label(UserClass::Human), "human");
    assert_eq!(user_class_label(UserClass::Service), "service");
    assert_eq!(user_class_label(UserClass::Unknown), "unknown");
}

fn process(graph: &mut KnowledgeGraph, comm: &str) -> u64 {
    graph.add_node(Node {
        label: comm.to_string(),
        kind: NodeKind::Process { comm: comm.to_string() },
    })
}

#[test]
fn the_graph_answers_what_was_put_in() {
    let mut graph = KnowledgeGraph::new();
    let a = process(&mut graph, "a");
    let port = graph.add_node(Node {
        label: "80/tcp".to_string(),
        kind: NodeKind::Port { number: 80, protocol: "tcp".to_string() },
    });
    let b = process(&mut graph, "b");
    graph.add_edge(Edge::new(a, port, Relation::ScannedPort, at(10)));
    graph.add_edge(Edge::new(a, port, Relation::ScannedPort, at(20)));
    graph.add_edge(Edge::new(a, b, Relation::Executed, at(20)));
    graph.add_edge(Edge::new(b, a, Relation::Executed, at(5)));

    assert_eq!(graph.nodes_of_type(NodeType::Process), vec![a, b]);
    assert_eq!(graph.nodes_of_type(NodeType::Port), vec![port]);
    assert!(graph.nodes_of_type(NodeType::File).is_empty());
    assert_eq!(graph.get_node(b).unwrap().label, "b");
    assert!(graph.get_node(3).is_none());
    assert_eq!(graph.active_nodes_since(&at(20)), vec![a, port, b]);
    assert!(graph.active_nodes_since(&at(21)).is_empty());
    assert_eq!(graph.outgoing_edges(a).len(), 3);
    assert_eq!(graph.incoming_edges(a).len(), 1);
    assert_eq!(graph.edges_in_window(a, Relation::ScannedPort, &at(20), 10).len(), 1);
    assert_eq!(graph.count_edges_in_window(a, Relation::ScannedPort, &at(20), 11), 2);
    assert_eq!(graph.count_distinct_targets_in_window(a, Relation::ScannedPort, &at(20), 11), 1);
    assert_eq!(distinct_nodes(&vec![3, 1, 3, 2, 1]), vec![3, 1, 2]);
}

#[test]
fn edge_properties_are_read_as_texts() {
    let mut edge = Edge::new(0, 0, Relation::Executed, at(0))
        .with_prop("summary", "one")
        .with_prop("user_agent", "ua")
        .with_prop("summary", "two");
    edge.properties.insert("pid".to_string(), PropertyValue::Other);
    assert_eq!(edge.text_property("summary"), Some("two"));
    assert_eq!(edge.text_property("user_agent"), Some("ua"));
    assert_eq!(edge.text_property("pid"), None);
    assert_eq!(edge.text_property("other"), None);
    let plain = Edge::new(0, 0, Relation::Executed, at(0));
    assert_eq!(find_text(&vec![&plain, &edge], "summary"), Some("two"));
    assert_eq!(find_text(&vec![&plain], "summary"), None);
}

fn alert(key: &str, id: &str) -> Alert {
    Alert {
        key: key.to_string(),
        incident: Incident {
            ts: at(0),
            host: "host".to_string(),
            incident_id: id.to_string(),
            severity: Severity::Medium,
            title: String::new(),
            summary: String::new(),
            evidence: Vec::new(),
            recommended_checks: Vec::new(),
            tags: Vec::new(),
            entities: Vec::new(),
        },
    }
}

#[test]
fn keys_cool_down() {
    let mut state = GraphDetectorState::new();
    assert!(state.check_and_set("a", &at(100), 60));
    assert!(!state.check_and_set("a", &at(159), 60));
    assert!(state.check_and_set("b", &at(159), 60));
    assert!(state.check_and_set("a", &at(160), 60));
    assert!(!state.check_and_set("a", &at(219), 60));
}

#[test]
fn the_first_open_alternative_fires() {
    let mut state = GraphDetectorState::new();
    let proposals = || {
        vec![
            vec![alert("a", "1"), alert("b", "2")],
            Vec::new(),
            vec![alert("a", "3"), alert("b", "4"), alert("c", "5")],
            vec![alert("a", "6")],
        ]
    };
    let fired = state.raise(proposals(), &at(100), 60);
    let ids: Vec<&str> = fired.iter().map(|incident| incident.incident_id.as_str()).collect();
    assert_eq!(ids, vec!["1", "4"]);
    let fired = state.raise(proposals(), &at(100), 60);
    let ids: Vec<&str> = fired.iter().map(|incident| incident.incident_id.as_str()).collect();
    assert_eq!(ids, vec!["5"]);
    assert!(state.raise(proposals(), &at(159), 60).is_empty());
    assert_eq!(state.raise(proposals(), &at(160), 60).len(), 2);
}

#[test]
fn held_back_alerts_are_counted() {
    let mut state = GraphDetectorState::new();
    state.count_suppressed("d", UserClass::Service);
    state.count_suppressed("d", UserClass::Service);
    state.count_suppressed("d", UserClass::Root);
    assert_eq!(state.suppressed_count("d", UserClass::Service), 2);
    assert_eq!(state.suppressed_count("d", UserClass::Root), 1);
    assert_eq!(state.suppressed_count("d", UserClass::Human), 0);
    assert_eq!(state.suppressed_count("e", UserClass::Service), 0);
}
