//! Laws of the data model: what the queries of a graph give, how time and users are seen, and that
//! views hold what they are views of.

use crate::alert::{
    alert_views, incidents_of, keys_of, proposal_views, Alert, AlertView, ClassCounts,
};
use crate::calibration::{class_label, CalibrationContext, UserClass};
use crate::graph::{
    equal_filters_keep_the_same, in_window, leaves, reaches, relation_name, sources, targets, Edge,
    KnowledgeGraph, NodeId, NodeType, PropertyValue, Relation,
};
use crate::incident::{entity_views, incident_views, EntityRef, Incident};
use crate::record::{count_field, field_views, list_field, text_field, Field, Value, ValueView};
use crate::text::texts;
use crate::time::Instant;
use vstd::prelude::*;

verus! {

broadcast use vstd::seq_lib::group_seq_properties;

// ---------------------------------------------------------------------------
// Time
// ---------------------------------------------------------------------------

/// Points in time are in a line: of two different ones exactly one is before the other, and what is
/// before an earlier one is before a later one.
pub proof fn points_in_time_are_in_a_line(a: Instant, b: Instant, c: Instant)
    ensures
        !a.before(a),
        a != b ==> (a.before(b) <==> !b.before(a)),
        a.before(b) && b.before(c) ==> a.before(c),
        a.secs < b.secs ==> a.before(b),
        a.secs == b.secs ==> (a.before(b) <==> a.nanos < b.nanos),
{
}

/// Outside leap seconds, moving a point adds seconds to it, and the time from one point to another
/// is the difference of the two.
pub proof fn time_is_counted_in_seconds(a: Instant, b: Instant, seconds: int)
    requires
        !a.in_leap_second(),
        !b.in_leap_second(),
    ensures
        a.moved(seconds).secs == a.secs + seconds,
        a.moved(seconds).nanos == a.nanos,
        b.since(a) == (b.secs - a.secs) * 1_000_000_000 + (b.nanos - a.nanos),
        in_window(a, b, seconds) <==> (b.secs - a.secs) * 1_000_000_000 + (b.nanos - a.nanos)
            < seconds * 1_000_000_000,
{
}

// ---------------------------------------------------------------------------
// Users
// ---------------------------------------------------------------------------

/// `root` is always root, whatever the lists say. Of the others, those on the list of people are
/// people, also where they are on the list of services; those on the list of services alone are
/// services; all others are unknown.
pub proof fn users_are_classified_by_the_lists(ctx: CalibrationContext, name: Seq<char>)
    ensures
        ctx.class_of(name) == UserClass::Root <==> name == "root"@,
        ctx.class_of(name) == UserClass::Human <==> name != "root"@ && exists|i: int|
            0 <= i < ctx.human_user_names@.len() && (#[trigger] ctx.human_user_names@[i])@ == name,
        ctx.class_of(name) == UserClass::Service <==> {
            &&& name != "root"@
            &&& forall|i: int|
                0 <= i < ctx.human_user_names@.len() ==> (#[trigger] ctx.human_user_names@[i])@
                    != name
            &&& exists|i: int|
                0 <= i < ctx.service_user_names@.len() && (#[trigger] ctx.service_user_names@[i])@
                    == name
        },
        class_label(UserClass::Root) == "root"@,
        class_label(UserClass::Human) == "human"@,
        class_label(UserClass::Service) == "service"@,
        class_label(UserClass::Unknown) == "unknown"@,
{
    let people = texts(ctx.human_user_names@);
    let services = texts(ctx.service_user_names@);
    assert forall|i: int| 0 <= i < people.len() implies people[i] == (
    #[trigger] ctx.human_user_names@[i])@ by {}
    assert forall|i: int| 0 <= i < services.len() implies services[i] == (
    #[trigger] ctx.service_user_names@[i])@ by {}
    if people.contains(name) {
        let i = choose|i: int| 0 <= i < people.len() && people[i] == name;
        assert(ctx.human_user_names@[i]@ == name);
    }
    if services.contains(name) {
        let i = choose|i: int| 0 <= i < services.len() && services[i] == name;
        assert(ctx.service_user_names@[i]@ == name);
    }
    if exists|i: int|
        0 <= i < ctx.human_user_names@.len() && (#[trigger] ctx.human_user_names@[i])@ == name {
        let i = choose|i: int|
            0 <= i < ctx.human_user_names@.len() && (#[trigger] ctx.human_user_names@[i])@ == name;
        assert(people[i] == name);
    }
    if exists|i: int|
        0 <= i < ctx.service_user_names@.len() && (#[trigger] ctx.service_user_names@[i])@ == name {
        let i = choose|i: int|
            0 <= i < ctx.service_user_names@.len() && (#[trigger] ctx.service_user_names@[i])@
                == name;
        assert(services[i] == name);
    }
}

// ---------------------------------------------------------------------------
// Queries of a graph
// ---------------------------------------------------------------------------

/// The list of the nodes of a kind holds exactly the nodes of that kind.
pub proof fn nodes_are_listed_by_kind(graph: KnowledgeGraph, t: NodeType, id: NodeId)
    ensures
        graph.ids_of(t).contains(id) <==> id < graph.nodes@.len() && match t {
            NodeType::Process => graph.nodes@[id as int].kind is Process,
            NodeType::File => graph.nodes@[id as int].kind is File,
            NodeType::User => graph.nodes@[id as int].kind is User,
            NodeType::Ip => graph.nodes@[id as int].kind is Ip,
            NodeType::Port => graph.nodes@[id as int].kind is Port,
        },
{
    let wanted = graph.is_of_type(t);
    if graph.ids_of(t).contains(id) {
        let n = choose|n: int| 0 <= n < graph.ids_of(t).len() && graph.ids_of(t)[n] == id;
        graph.ids().lemma_filter_pred(wanted, n);
    }
    if wanted(id) {
        crate::graph::nodes_are_listed(graph, t, id);
    }
}

/// The list of active nodes holds exactly the nodes with an edge of `cutoff` or later, in either
/// direction.
pub proof fn active_nodes_have_a_recent_edge(graph: KnowledgeGraph, cutoff: Instant, id: NodeId)
    ensures
        graph.active_ids(cutoff).contains(id) <==> id < graph.nodes@.len() && exists|e: int|
            {
                &&& 0 <= e < graph.edges@.len()
                &&& (#[trigger] graph.edges@[e]).from == id || graph.edges@[e].to == id
                &&& !graph.edges@[e].ts@.before(cutoff)
            },
{
    let wanted = graph.active(cutoff);
    if graph.active_ids(cutoff).contains(id) {
        let n = choose|n: int|
            0 <= n < graph.active_ids(cutoff).len() && graph.active_ids(cutoff)[n] == id;
        graph.ids().lemma_filter_pred(wanted, n);
        graph.ids().lemma_filter_contains_rev(wanted, id);
    }
    if id < graph.nodes@.len() && wanted(id) {
        assert(graph.ids()[id as int] == id);
        graph.ids().lemma_filter_contains(wanted, id as int);
    }
}

/// The edge starts at `id`.
pub open spec fn starts_at(id: NodeId) -> spec_fn(Edge) -> bool {
    |e: Edge| e.from == id
}

/// The edge ends at `id`.
pub open spec fn ends_at(id: NodeId) -> spec_fn(Edge) -> bool {
    |e: Edge| e.to == id
}

/// The edges that leave a node are those that start at it, and the edges that reach it are those
/// that end at it. Those in a window are of the relation and less old than the window is long.
pub proof fn edges_are_found_at_their_ends(
    graph: KnowledgeGraph,
    id: NodeId,
    relation: Relation,
    now: Instant,
    seconds: int,
    n: int,
)
    ensures
        graph.outgoing(id) == graph.edges@.filter(starts_at(id)),
        graph.incoming(id) == graph.edges@.filter(ends_at(id)),
        0 <= n < graph.outgoing_in_window(id, relation, now, seconds).len() ==> {
            let e = graph.outgoing_in_window(id, relation, now, seconds)[n];
            &&& graph.edges@.contains(e)
            &&& e.from == id
            &&& e.relation == relation
            &&& now.since(e.ts@) < seconds * 1_000_000_000
        },
{
    let out = starts_at(id);
    let back = ends_at(id);
    assert forall|e: Edge| #[trigger] out(e) == leaves(id)(e) by {}
    assert forall|e: Edge| #[trigger] back(e) == reaches(id)(e) by {}
    equal_filters_keep_the_same(graph.edges@, out, leaves(id));
    equal_filters_keep_the_same(graph.edges@, back, reaches(id));
    let window = crate::graph::windowed(relation, now, seconds);
    let kept = graph.outgoing_in_window(id, relation, now, seconds);
    if 0 <= n < kept.len() {
        let e = kept[n];
        graph.outgoing(id).lemma_filter_pred(window, n);
        assert(kept.contains(e));
        graph.outgoing(id).lemma_filter_contains_rev(window, e);
        let k = choose|k: int| 0 <= k < graph.outgoing(id).len() && graph.outgoing(id)[k] == e;
        let _ = crate::graph::an_outgoing_edge_is_there(graph, id, k);
    }
}

/// The ends of a list of edges are the ends of its edges, in their order, and a property is read as
/// the text that it is.
pub proof fn edges_are_read_as_they_are(edges: Seq<Edge>, i: int, name: Seq<char>)
    requires
        0 <= i < edges.len(),
    ensures
        sources(edges).len() == edges.len(),
        sources(edges)[i] == edges[i].from,
        targets(edges).len() == edges.len(),
        targets(edges)[i] == edges[i].to,
        match edges[i].text_of(name) {
            Some(text) => {
                &&& edges[i].properties@.contains_key(name)
                &&& edges[i].properties@[name] matches PropertyValue::Text(t) && t@ == text
            },
            None => edges[i].properties@.contains_key(name) ==> edges[i].properties@[name] is Other,
        },
{
}

/// The names of the relations.
pub proof fn relations_have_their_names()
    ensures
        relation_name(Relation::Executed) == "Executed"@,
        relation_name(Relation::RunAs) == "RunAs"@,
        relation_name(Relation::SudoAs) == "SudoAs"@,
        relation_name(Relation::Read) == "Read"@,
        relation_name(Relation::Wrote) == "Wrote"@,
        relation_name(Relation::Deleted) == "Deleted"@,
        relation_name(Relation::Truncated) == "Truncated"@,
        relation_name(Relation::ConnectedTo) == "ConnectedTo"@,
        relation_name(Relation::ScannedPort) == "ScannedPort"@,
        relation_name(Relation::LoggedInFrom) == "LoggedInFrom"@,
        relation_name(Relation::HttpRequestTo) == "HttpRequestTo"@,
{
}

// ---------------------------------------------------------------------------
// What views hold
// ---------------------------------------------------------------------------

/// The views of incidents hold their fields, in the order of the incidents.
pub proof fn incidents_are_seen_as_they_are(incidents: Seq<Incident>, i: int)
    requires
        0 <= i < incidents.len(),
    ensures
        incident_views(incidents).len() == incidents.len(),
        incident_views(incidents)[i].ts == incidents[i].ts@,
        incident_views(incidents)[i].host == incidents[i].host@,
        incident_views(incidents)[i].incident_id == incidents[i].incident_id@,
        incident_views(incidents)[i].severity == incidents[i].severity,
        incident_views(incidents)[i].title == incidents[i].title@,
        incident_views(incidents)[i].summary == incidents[i].summary@,
        incident_views(incidents)[i].evidence == field_views(incidents[i].evidence@),
        incident_views(incidents)[i].recommended_checks == texts(incidents[i].recommended_checks@),
        incident_views(incidents)[i].tags == texts(incidents[i].tags@),
        incident_views(incidents)[i].entities == entity_views(incidents[i].entities@),
{
}

/// The views of entities hold their fields, in the order of the entities.
pub proof fn entities_are_seen_as_they_are(entities: Seq<EntityRef>, i: int)
    requires
        0 <= i < entities.len(),
    ensures
        entity_views(entities).len() == entities.len(),
        entity_views(entities)[i].kind == entities[i].kind,
        entity_views(entities)[i].value == entities[i].value@,
{
}

/// The views of fields hold their names and values, in the order of the fields.
pub proof fn fields_are_seen_as_they_are(fields: Seq<Field>, i: int)
    requires
        0 <= i < fields.len(),
    ensures
        field_views(fields).len() == fields.len(),
        field_views(fields)[i].name == fields[i].name@,
        match fields[i].value {
            Value::Text(text) => field_views(fields)[i].value == ValueView::Text(text@),
            Value::Count(count) => field_views(fields)[i].value == ValueView::Count(count as nat),
            Value::List(list) => field_views(fields)[i].value == ValueView::List(texts(list@)),
        },
{
}

/// Fields are made of a name and what stands under it.
pub proof fn fields_have_names(name: &str, text: Seq<char>, count: nat, list: Seq<Seq<char>>)
    ensures
        text_field(name, text).name == name@,
        text_field(name, text).value == ValueView::Text(text),
        count_field(name, count).name == name@,
        count_field(name, count).value == ValueView::Count(count),
        list_field(name, list).name == name@,
        list_field(name, list).value == ValueView::List(list),
{
}

/// The views of alerts hold their keys and incidents, in the order of the alerts.
pub proof fn alerts_are_seen_as_they_are(
    alerts: Seq<Alert>,
    views: Seq<AlertView>,
    proposals: Seq<Vec<Alert>>,
    i: int,
)
    ensures
        alert_views(alerts).len() == alerts.len(),
        0 <= i < alerts.len() ==> alert_views(alerts)[i].key == alerts[i].key@
            && alert_views(alerts)[i].incident == alerts[i].incident@,
        incidents_of(views).len() == views.len(),
        keys_of(views).len() == views.len(),
        0 <= i < views.len() ==> incidents_of(views)[i] == views[i].incident && keys_of(views)[i]
            == views[i].key,
        proposal_views(proposals).len() == proposals.len(),
        0 <= i < proposals.len() ==> proposal_views(proposals)[i] == alert_views(proposals[i]@),
{
}

/// Each class of users has a counter of its own.
pub proof fn classes_have_their_counters(counts: ClassCounts)
    ensures
        counts.of(UserClass::Root) == counts.root,
        counts.of(UserClass::Human) == counts.human,
        counts.of(UserClass::Service) == counts.service,
        counts.of(UserClass::Unknown) == counts.unknown,
{
}

} // verus!
