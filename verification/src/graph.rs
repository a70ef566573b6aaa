//! The knowledge graph: what happened on a host, as nodes and timed edges between them.

use crate::text::texts;
use crate::time::{Instant, Timestamp};
use vstd::hash_map::StringHashMap;
use vstd::prelude::*;

verus! {

broadcast use vstd::seq_lib::group_seq_properties;

/// The number of a node: nodes are numbered from zero in the order in which they were added.
pub type NodeId = u64;

/// What a node stands for.
#[derive(Debug)]
pub enum NodeKind {
    Process { comm: String },
    File { path: String, is_sensitive: bool },
    User { name: String },
    Ip { addr: String, is_internal: bool, datasets: Vec<String> },
    Port { number: u16, protocol: String },
}

/// A node: what it stands for, and the label under which operators see it.
#[derive(Debug)]
pub struct Node {
    pub label: String,
    pub kind: NodeKind,
}

/// The kinds of nodes.
#[derive(Clone, Copy, Debug, PartialEq, Eq, Structural)]
pub enum NodeType {
    Process,
    File,
    User,
    Ip,
    Port,
}

impl Node {
    /// The kind of a node.
    pub open spec fn spec_node_type(&self) -> NodeType {
        match self.kind {
            NodeKind::Process { .. } => NodeType::Process,
            NodeKind::File { .. } => NodeType::File,
            NodeKind::User { .. } => NodeType::User,
            NodeKind::Ip { .. } => NodeType::Ip,
            NodeKind::Port { .. } => NodeType::Port,
        }
    }

    /// The kind of this node.
    #[verifier::when_used_as_spec(spec_node_type)]
    pub fn node_type(&self) -> (t: NodeType)
        ensures
            t == self.spec_node_type(),
    {
        match self.kind {
            NodeKind::Process { .. } => NodeType::Process,
            NodeKind::File { .. } => NodeType::File,
            NodeKind::User { .. } => NodeType::User,
            NodeKind::Ip { .. } => NodeType::Ip,
            NodeKind::Port { .. } => NodeType::Port,
        }
    }
}

/// What an edge says of its two nodes.
#[derive(Clone, Copy, Debug, PartialEq, Eq, Structural)]
pub enum Relation {
    Executed,
    RunAs,
    SudoAs,
    Read,
    Wrote,
    Deleted,
    Truncated,
    ConnectedTo,
    ScannedPort,
    LoggedInFrom,
    HttpRequestTo,
}

/// The name of a relation.
pub open spec fn relation_name(relation: Relation) -> Seq<char> {
    match relation {
        Relation::Executed => "Executed"@,
        Relation::RunAs => "RunAs"@,
        Relation::SudoAs => "SudoAs"@,
        Relation::Read => "Read"@,
        Relation::Wrote => "Wrote"@,
        Relation::Deleted => "Deleted"@,
        Relation::Truncated => "Truncated"@,
        Relation::ConnectedTo => "ConnectedTo"@,
        Relation::ScannedPort => "ScannedPort"@,
        Relation::LoggedInFrom => "LoggedInFrom"@,
        Relation::HttpRequestTo => "HttpRequestTo"@,
    }
}

impl Relation {
    /// The name of this relation.
    pub fn name(&self) -> (name: &'static str)
        ensures
            name@ == relation_name(*self),
    {
        match self {
            Relation::Executed => "Executed",
            Relation::RunAs => "RunAs",
            Relation::SudoAs => "SudoAs",
            Relation::Read => "Read",
            Relation::Wrote => "Wrote",
            Relation::Deleted => "Deleted",
            Relation::Truncated => "Truncated",
            Relation::ConnectedTo => "ConnectedTo",
            Relation::ScannedPort => "ScannedPort",
            Relation::LoggedInFrom => "LoggedInFrom",
            Relation::HttpRequestTo => "HttpRequestTo",
        }
    }
}

/// The value of an edge property. Detectors read texts only.
#[derive(Debug)]
pub enum PropertyValue {
    Text(String),
    Other,
}

/// A timed relation between two nodes.
pub struct Edge {
    pub from: NodeId,
    pub to: NodeId,
    pub relation: Relation,
    pub ts: Timestamp,
    pub properties: StringHashMap<PropertyValue>,
}

impl Edge {
    /// The text of the property `name`, if it has one that is a text.
    pub open spec fn text_of(self, name: Seq<char>) -> Option<Seq<char>> {
        if self.properties@.contains_key(name) {
            match self.properties@[name] {
                PropertyValue::Text(text) => Some(text@),
                PropertyValue::Other => None,
            }
        } else {
            None
        }
    }

    /// An edge without properties.
    pub fn new(from: NodeId, to: NodeId, relation: Relation, ts: Timestamp) -> (edge: Edge)
        ensures
            edge.from == from,
            edge.to == to,
            edge.relation == relation,
            edge.ts == ts,
            edge.properties@ == Map::<Seq<char>, PropertyValue>::empty(),
    {
        Edge { from, to, relation, ts, properties: StringHashMap::new() }
    }

    /// The same edge with the property `name` set to a text.
    pub fn with_prop(self, name: &str, text: &str) -> (edge: Edge)
        ensures
            edge.from == self.from,
            edge.to == self.to,
            edge.relation == self.relation,
            edge.ts == self.ts,
            edge.text_of(name@) == Some(text@),
            forall|other: Seq<char>|
                other != name@ ==> edge.text_of(other) == self.text_of(other),
    {
        let mut properties = self.properties;
        properties.insert(name.to_owned(), PropertyValue::Text(text.to_owned()));
        Edge { from: self.from, to: self.to, relation: self.relation, ts: self.ts, properties }
    }

    /// The text of the property `name`, if it has one that is a text.
    pub fn text_property<'a>(&'a self, name: &str) -> (text: Option<&'a str>)
        ensures
            match text {
                Some(t) => self.text_of(name@) == Some(t@),
                None => self.text_of(name@) is None,
            },
    {
        match self.properties.get(name) {
            Some(PropertyValue::Text(text)) => Some(text.as_str()),
            _ => None,
        }
    }
}

/// The edges that leave the node `id`.
pub open spec fn leaves(id: NodeId) -> spec_fn(Edge) -> bool {
    |e: Edge| e.from == id
}

/// The edges that reach the node `id`.
pub open spec fn reaches(id: NodeId) -> spec_fn(Edge) -> bool {
    |e: Edge| e.to == id
}

/// Less than `seconds` have passed from `ts` to `now`.
pub open spec fn in_window(ts: Instant, now: Instant, seconds: int) -> bool {
    now.since(ts) < seconds * 1_000_000_000
}

/// The edges of one relation that lie in a time window before `now`.
pub open spec fn windowed(relation: Relation, now: Instant, seconds: int) -> spec_fn(Edge) -> bool {
    |e: Edge| e.relation == relation && in_window(e.ts@, now, seconds)
}

/// A connection of a process to an address that a threat dataset lists.
#[derive(Debug)]
pub struct ThreatHit {
    pub process: NodeId,
    pub ip: NodeId,
    pub dataset: String,
}

/// What a [`ThreatHit`] holds.
#[verifier::ext_equal]
pub struct ThreatHitView {
    pub process: NodeId,
    pub ip: NodeId,
    pub dataset: Seq<char>,
}

impl View for ThreatHit {
    type V = ThreatHitView;

    open spec fn view(&self) -> ThreatHitView {
        ThreatHitView { process: self.process, ip: self.ip, dataset: self.dataset@ }
    }
}

/// What a list of hits holds.
pub open spec fn hit_views(hits: Seq<ThreatHit>) -> Seq<ThreatHitView> {
    hits.map_values(|h: ThreatHit| h@)
}

/// The targets of a list of edges.
pub open spec fn targets(edges: Seq<Edge>) -> Seq<NodeId> {
    edges.map_values(|e: Edge| e.to)
}

/// The sources of a list of edges.
pub open spec fn sources(edges: Seq<Edge>) -> Seq<NodeId> {
    edges.map_values(|e: Edge| e.from)
}

/// The nodes of a list, each once, in the order in which they first occur.
pub open spec fn distinct(ids: Seq<NodeId>) -> Seq<NodeId>
    decreases ids.len(),
{
    if ids.len() == 0 {
        Seq::empty()
    } else {
        let before = distinct(ids.drop_last());
        if before.contains(ids.last()) {
            before
        } else {
            before.push(ids.last())
        }
    }
}

/// [`distinct`] keeps exactly the nodes of the list, each once, so that it is as long as the list
/// has different nodes.
pub proof fn distinct_keeps_each_node_once(ids: Seq<NodeId>)
    ensures
        distinct(ids).no_duplicates(),
        distinct(ids).to_set() == ids.to_set(),
        distinct(ids).len() == ids.to_set().len(),
    decreases ids.len(),
{
    if ids.len() > 0 {
        let before = ids.drop_last();
        distinct_keeps_each_node_once(before);
        assert(ids == before.push(ids.last()));
        assert(ids.to_set() =~= before.to_set().insert(ids.last()));
        if distinct(before).contains(ids.last()) {
            assert(distinct(before).to_set().contains(ids.last()));
            assert(before.to_set().insert(ids.last()) =~= before.to_set());
        } else {
            assert(distinct(ids).to_set() =~= distinct(before).to_set().insert(ids.last()));
        }
    } else {
        assert(distinct(ids).to_set() =~= ids.to_set());
    }
    distinct(ids).unique_seq_to_set();
}

/// Each node of `ids` once, in the order in which they first occur.
pub fn distinct_nodes(ids: &Vec<NodeId>) -> (each_once: Vec<NodeId>)
    ensures
        each_once@ == distinct(ids@),
{
    let mut each_once: Vec<NodeId> = Vec::new();
    for i in 0..ids.len()
        invariant
            each_once@ == distinct(ids@.take(i as int)),
    {
        assert(ids@.take(i + 1).drop_last() =~= ids@.take(i as int));
        let id: NodeId = ids[i];
        if !holds(&each_once, id) {
            each_once.push(id);
        }
    }
    assert(ids@.take(ids@.len() as int) =~= ids@);
    each_once
}

/// Whether `ids` holds `id`.
fn holds(ids: &Vec<NodeId>, id: NodeId) -> (found: bool)
    ensures
        found == ids@.contains(id),
{
    for i in 0..ids.len()
        invariant
            forall|j: int| 0 <= j < i ==> ids@[j] != id,
    {
        if ids[i] == id {
            assert(ids@[i as int] == id);
            return true;
        }
    }
    false
}

/// What happened on a host.
pub struct KnowledgeGraph {
    pub nodes: Vec<Node>,
    pub edges: Vec<Edge>,
}

impl KnowledgeGraph {
    /// The node `id`, if there is one.
    pub open spec fn node(self, id: NodeId) -> Option<Node> {
        if id < self.nodes@.len() {
            Some(self.nodes@[id as int])
        } else {
            None
        }
    }

    /// The numbers of all nodes, ascending.
    pub open spec fn ids(self) -> Seq<NodeId> {
        Seq::new(self.nodes@.len(), |i: int| i as NodeId)
    }

    /// The node `id` is of the kind `t`.
    pub open spec fn is_of_type(self, t: NodeType) -> spec_fn(NodeId) -> bool {
        |id: NodeId| self.node(id) matches Some(n) && n.spec_node_type() == t
    }

    /// The numbers of the nodes of one kind, ascending.
    pub open spec fn ids_of(self, t: NodeType) -> Seq<NodeId> {
        self.ids().filter(self.is_of_type(t))
    }

    /// Some edge at the node `id` is of `cutoff` or later.
    pub open spec fn active(self, cutoff: Instant) -> spec_fn(NodeId) -> bool {
        |id: NodeId|
            exists|i: int|
                {
                    &&& 0 <= i < self.edges@.len()
                    &&& (#[trigger] self.edges@[i]).from == id || self.edges@[i].to == id
                    &&& !self.edges@[i].ts@.before(cutoff)
                }
    }

    /// The numbers of the nodes with an edge of `cutoff` or later, ascending.
    pub open spec fn active_ids(self, cutoff: Instant) -> Seq<NodeId> {
        self.ids().filter(self.active(cutoff))
    }

    /// The edges that leave the node `id`, in the order in which they were added.
    pub open spec fn outgoing(self, id: NodeId) -> Seq<Edge> {
        self.edges@.filter(leaves(id))
    }

    /// The edges that reach the node `id`, in the order in which they were added.
    pub open spec fn incoming(self, id: NodeId) -> Seq<Edge> {
        self.edges@.filter(reaches(id))
    }

    /// The edges of one relation that leave the node `id` and lie in a time window before `now`.
    pub open spec fn outgoing_in_window(
        self,
        id: NodeId,
        relation: Relation,
        now: Instant,
        seconds: int,
    ) -> Seq<Edge> {
        self.outgoing(id).filter(windowed(relation, now, seconds))
    }

    /// The hits that one edge gives: one for each dataset that lists the address, where the edge
    /// connects a process to an address.
    pub open spec fn hits_of_edge(self) -> spec_fn(Edge) -> Seq<ThreatHitView> {
        |e: Edge|
            match (self.node(e.from), self.node(e.to)) {
                (
                    Some(Node { kind: NodeKind::Process { .. }, .. }),
                    Some(Node { kind: NodeKind::Ip { datasets, .. }, .. }),
                ) if e.relation == Relation::ConnectedTo => dataset_hits(e, datasets@),
                _ => Seq::empty(),
            }
    }

    /// The connections of processes to addresses that a threat dataset lists.
    pub open spec fn hits(self) -> Seq<ThreatHitView> {
        self.edges@.flat_map(self.hits_of_edge())
    }
}

/// One hit for each dataset.
pub open spec fn dataset_hits(e: Edge, datasets: Seq<String>) -> Seq<ThreatHitView> {
    texts(datasets).map_values(
        |d: Seq<char>| ThreatHitView { process: e.from, ip: e.to, dataset: d },
    )
}

impl KnowledgeGraph {
    /// A graph without nodes and edges.
    pub fn new() -> (graph: KnowledgeGraph)
        ensures
            graph.nodes@ == Seq::<Node>::empty(),
            graph.edges@ == Seq::<Edge>::empty(),
    {
        KnowledgeGraph { nodes: Vec::new(), edges: Vec::new() }
    }

    /// Adds a node and returns its number.
    pub fn add_node(&mut self, node: Node) -> (id: NodeId)
        ensures
            id == old(self).nodes@.len(),
            final(self).nodes@ == old(self).nodes@.push(node),
            final(self).edges@ == old(self).edges@,
    {
        let id: NodeId = self.nodes.len() as u64;
        self.nodes.push(node);
        id
    }

    /// Adds an edge.
    pub fn add_edge(&mut self, edge: Edge)
        ensures
            final(self).nodes@ == old(self).nodes@,
            final(self).edges@ == old(self).edges@.push(edge),
    {
        self.edges.push(edge);
    }

    /// The node `id`, if there is one.
    pub fn get_node(&self, id: NodeId) -> (node: Option<&Node>)
        ensures
            match node {
                Some(n) => self.node(id) == Some(*n),
                None => self.node(id) is None,
            },
    {
        if id < self.nodes.len() as u64 {
            Some(&self.nodes[id as usize])
        } else {
            None
        }
    }

    /// The numbers of the nodes of one kind, ascending.
    pub fn nodes_of_type(&self, t: NodeType) -> (ids: Vec<NodeId>)
        ensures
            ids@ == self.ids_of(t),
    {
        let mut ids: Vec<NodeId> = Vec::new();
        let ghost all = self.ids();
        let ghost wanted = self.is_of_type(t);
        assert(all.take(0).filter(wanted) =~= Seq::empty()) by {
            reveal(Seq::filter);
        }
        for i in 0..self.nodes.len()
            invariant
                all == self.ids(),
                wanted == self.is_of_type(t),
                ids@ == all.take(i as int).filter(wanted),
        {
            proof {
                all.lemma_take_succ_push(i as int);
                all.take(i as int).lemma_filter_push(all[i as int], wanted);
            }
            if self.nodes[i].node_type() == t {
                ids.push(i as u64);
            }
        }
        assert(all.take(all.len() as int) =~= all);
        ids
    }

    /// Whether some edge at the node `id` is of `cutoff` or later.
    fn is_active(&self, id: NodeId, cutoff: &Timestamp) -> (active: bool)
        ensures
            active == (self.active(cutoff@))(id),
    {
        for i in 0..self.edges.len()
            invariant
                forall|j: int|
                    0 <= j < i ==> !({
                        &&& (#[trigger] self.edges@[j]).from == id || self.edges@[j].to == id
                        &&& !self.edges@[j].ts@.before(cutoff@)
                    }),
        {
            let edge = &self.edges[i];
            if (edge.from == id || edge.to == id) && !edge.ts.is_before(cutoff) {
                assert(self.edges@[i as int].from == id || self.edges@[i as int].to == id);
                return true;
            }
        }
        false
    }

    /// The numbers of the nodes with an edge of `cutoff` or later, ascending.
    pub fn active_nodes_since(&self, cutoff: &Timestamp) -> (ids: Vec<NodeId>)
        ensures
            ids@ == self.active_ids(cutoff@),
    {
        let mut ids: Vec<NodeId> = Vec::new();
        let ghost all = self.ids();
        let ghost wanted = self.active(cutoff@);
        assert(all.take(0).filter(wanted) =~= Seq::empty()) by {
            reveal(Seq::filter);
        }
        for i in 0..self.nodes.len()
            invariant
                all == self.ids(),
                wanted == self.active(cutoff@),
                ids@ == all.take(i as int).filter(wanted),
        {
            proof {
                all.lemma_take_succ_push(i as int);
                all.take(i as int).lemma_filter_push(all[i as int], wanted);
            }
            if self.is_active(i as u64, cutoff) {
                ids.push(i as u64);
            }
        }
        assert(all.take(all.len() as int) =~= all);
        ids
    }

    /// The edges that leave the node `id`, in the order in which they were added.
    pub fn outgoing_edges(&self, id: NodeId) -> (edges: Vec<&Edge>)
        ensures
            edges@.unref() == self.outgoing(id),
    {
        let mut edges: Vec<&Edge> = Vec::new();
        let ghost all = self.edges@;
        let ghost wanted = leaves(id);
        assert(edges@.unref() =~= all.take(0).filter(wanted)) by {
            reveal(Seq::filter);
        }
        for i in 0..self.edges.len()
            invariant
                all == self.edges@,
                wanted == leaves(id),
                edges@.unref() == all.take(i as int).filter(wanted),
        {
            proof {
                all.lemma_take_succ_push(i as int);
                all.take(i as int).lemma_filter_push(all[i as int], wanted);
            }
            let ghost before = edges@;
            if self.edges[i].from == id {
                edges.push(&self.edges[i]);
                assert(edges@.unref() =~= before.unref().push(all[i as int]));
            }
        }
        assert(all.take(all.len() as int) =~= all);
        edges
    }

    /// The edges that reach the node `id`, in the order in which they were added.
    pub fn incoming_edges(&self, id: NodeId) -> (edges: Vec<&Edge>)
        ensures
            edges@.unref() == self.incoming(id),
    {
        let mut edges: Vec<&Edge> = Vec::new();
        let ghost all = self.edges@;
        let ghost wanted = reaches(id);
        assert(edges@.unref() =~= all.take(0).filter(wanted)) by {
            reveal(Seq::filter);
        }
        for i in 0..self.edges.len()
            invariant
                all == self.edges@,
                wanted == reaches(id),
                edges@.unref() == all.take(i as int).filter(wanted),
        {
            proof {
                all.lemma_take_succ_push(i as int);
                all.take(i as int).lemma_filter_push(all[i as int], wanted);
            }
            let ghost before = edges@;
            if self.edges[i].to == id {
                edges.push(&self.edges[i]);
                assert(edges@.unref() =~= before.unref().push(all[i as int]));
            }
        }
        assert(all.take(all.len() as int) =~= all);
        edges
    }

    /// The edges of one relation that leave the node `id` and lie less than `seconds` before `now`.
    pub fn edges_in_window(
        &self,
        id: NodeId,
        relation: Relation,
        now: &Timestamp,
        seconds: i64,
    ) -> (edges: Vec<&Edge>)
        ensures
            edges@.unref() == self.outgoing_in_window(id, relation, now@, seconds as int),
    {
        let all = self.outgoing_edges(id);
        pick_windowed(&all, relation, now, seconds)
    }

    /// How many edges of one relation leave the node `id` and lie less than `seconds` before `now`.
    pub fn count_edges_in_window(
        &self,
        id: NodeId,
        relation: Relation,
        now: &Timestamp,
        seconds: i64,
    ) -> (count: usize)
        ensures
            count == self.outgoing_in_window(id, relation, now@, seconds as int).len(),
    {
        let edges = self.edges_in_window(id, relation, now, seconds);
        assert(edges@.unref().len() == edges@.len());
        edges.len()
    }

    /// How many different nodes the edges of one relation lead to that leave the node `id` and lie
    /// less than `seconds` before `now`.
    pub fn count_distinct_targets_in_window(
        &self,
        id: NodeId,
        relation: Relation,
        now: &Timestamp,
        seconds: i64,
    ) -> (count: usize)
        ensures
            count == targets(
                self.outgoing_in_window(id, relation, now@, seconds as int),
            ).to_set().len(),
    {
        let edges = self.edges_in_window(id, relation, now, seconds);
        let ghost all = edges@.unref();
        let mut ids: Vec<NodeId> = Vec::new();
        for i in 0..edges.len()
            invariant
                all == edges@.unref(),
                ids@ == targets(all.take(i as int)),
        {
            ids.push(edges[i].to);
            assert(targets(all.take(i + 1)) =~= targets(all.take(i as int)).push(all[i as int].to));
        }
        assert(all.take(all.len() as int) =~= all);
        let each_once = distinct_nodes(&ids);
        proof {
            distinct_keeps_each_node_once(ids@);
        }
        each_once.len()
    }

    /// The connections of processes to addresses that a threat dataset lists.
    pub fn threat_intel_hits(&self) -> (hits: Vec<ThreatHit>)
        ensures
            hit_views(hits@) == self.hits(),
    {
        let mut hits: Vec<ThreatHit> = Vec::new();
        let ghost all = self.edges@;
        let ghost rule = self.hits_of_edge();
        assert(hit_views(hits@) =~= all.take(0).flat_map(rule));
        for i in 0..self.edges.len()
            invariant
                all == self.edges@,
                rule == self.hits_of_edge(),
                hit_views(hits@) == all.take(i as int).flat_map(rule),
        {
            proof {
                all.lemma_flat_map_take_append(rule, i as int);
            }
            let ghost before = hit_views(hits@);
            let edge = &self.edges[i];
            let from = self.get_node(edge.from);
            let to = self.get_node(edge.to);
            match (from, to) {
                (
                    Some(Node { kind: NodeKind::Process { .. }, .. }),
                    Some(Node { kind: NodeKind::Ip { datasets, .. }, .. }),
                ) => {
                    if edge.relation == Relation::ConnectedTo {
                        let ghost new = dataset_hits(*edge, datasets@);
                        for d in 0..datasets.len()
                            invariant
                                new == dataset_hits(*edge, datasets@),
                                hit_views(hits@) == before + new.take(d as int),
                        {
                            let hit = ThreatHit {
                                process: edge.from,
                                ip: edge.to,
                                dataset: datasets[d].clone(),
                            };
                            let ghost so_far = hits@;
                            hits.push(hit);
                            assert(hit@ == new[d as int]);
                            assert(hit_views(hits@) =~= hit_views(so_far).push(hit@));
                            assert(new.take(d + 1) =~= new.take(d as int).push(new[d as int]));
                        }
                        assert(new.take(new.len() as int) =~= new);
                    }
                },
                _ => {},
            }
        }
        assert(all.take(all.len() as int) =~= all);
        hits
    }
}

/// The edges of one relation among `edges` that lie less than `seconds` before `now`.
pub fn pick_windowed<'a>(
    edges: &Vec<&'a Edge>,
    relation: Relation,
    now: &Timestamp,
    seconds: i64,
) -> (picked: Vec<&'a Edge>)
    ensures
        picked@.unref() == edges@.unref().filter(windowed(relation, now@, seconds as int)),
{
    let mut picked: Vec<&'a Edge> = Vec::new();
    let ghost all = edges@.unref();
    let ghost wanted = windowed(relation, now@, seconds as int);
    assert(picked@.unref() =~= all.take(0).filter(wanted)) by {
        reveal(Seq::filter);
    }
    for i in 0..edges.len()
        invariant
            all == edges@.unref(),
            wanted == windowed(relation, now@, seconds as int),
            picked@.unref() == all.take(i as int).filter(wanted),
    {
        proof {
            all.lemma_take_succ_push(i as int);
            all.take(i as int).lemma_filter_push(all[i as int], wanted);
        }
        let edge: &'a Edge = edges[i];
        let ghost before = picked@;
        if edge.relation == relation && now.is_within(&edge.ts, seconds) {
            picked.push(edge);
            assert(picked@.unref() =~= before.unref().push(all[i as int]));
        }
    }
    assert(all.take(all.len() as int) =~= all);
    picked
}

/// The first text of the property `name` among `edges`.
pub open spec fn first_text(edges: Seq<Edge>, name: Seq<char>) -> Option<Seq<char>>
    decreases edges.len(),
{
    if edges.len() == 0 {
        None
    } else {
        match first_text(edges.drop_last(), name) {
            Some(text) => Some(text),
            None => edges.last().text_of(name),
        }
    }
}

/// The first text of the property `name` among `edges`.
pub fn find_text<'a>(edges: &Vec<&'a Edge>, name: &str) -> (found: Option<&'a str>)
    ensures
        match found {
            Some(text) => first_text(edges@.unref(), name@) == Some(text@),
            None => first_text(edges@.unref(), name@) is None,
        },
{
    let mut found: Option<&'a str> = None;
    let ghost all = edges@.unref();
    for i in 0..edges.len()
        invariant
            all == edges@.unref(),
            match found {
                Some(text) => first_text(all.take(i as int), name@) == Some(text@),
                None => first_text(all.take(i as int), name@) is None,
            },
    {
        assert(all.take(i + 1).drop_last() =~= all.take(i as int));
        let edge: &'a Edge = edges[i];
        if found.is_none() {
            found = edge.text_property(name);
        }
    }
    assert(all.take(all.len() as int) =~= all);
    found
}

/// Every node stands in the list of the nodes of its kind.
pub proof fn nodes_are_listed(graph: KnowledgeGraph, t: NodeType, id: NodeId)
    requires
        graph.is_of_type(t)(id),
    ensures
        graph.ids_of(t).contains(id),
{
    assert(graph.ids()[id as int] == id);
    graph.ids().lemma_filter_contains(graph.is_of_type(t), id as int);
}

/// Every edge leaves the node that it starts at.
pub proof fn edges_leave_their_source(graph: KnowledgeGraph, e: int)
    requires
        0 <= e < graph.edges@.len(),
    ensures
        graph.outgoing(graph.edges@[e].from).contains(graph.edges@[e]),
{
    graph.edges@.lemma_filter_contains(leaves(graph.edges@[e].from), e);
}

/// No edge is younger at `later` than at `now`.
pub open spec fn edges_age(graph: KnowledgeGraph, now: Instant, later: Instant) -> bool {
    forall|e: Edge| #[trigger]
        graph.edges@.contains(e) ==> now.since(e.ts@) <= later.since(e.ts@)
}

/// Outside leap seconds edges age as time passes.
pub proof fn edges_age_as_time_passes(graph: KnowledgeGraph, now: Instant, later: Instant)
    requires
        now.valid(),
        later.valid(),
        !later.before(now),
        !now.in_leap_second(),
        !later.in_leap_second(),
        forall|e: Edge| #[trigger] graph.edges@.contains(e) ==> !e.ts@.in_leap_second(),
    ensures
        edges_age(graph, now, later),
{
}

/// Where edges age, an edge at a node that lies in a window before `later` lies in the same window
/// before `now`.
pub(crate) proof fn windows_move_on(
    graph: KnowledgeGraph,
    at_node: spec_fn(Edge) -> bool,
    relation: Relation,
    now: Instant,
    later: Instant,
    seconds: int,
)
    requires
        edges_age(graph, now, later),
    ensures
        narrower(
            graph.edges@.filter(at_node),
            windowed(relation, later, seconds),
            windowed(relation, now, seconds),
        ),
{
    let edges = graph.edges@.filter(at_node);
    assert forall|i: int|
        0 <= i < edges.len() && windowed(relation, later, seconds)(
            #[trigger] edges[i],
        ) implies windowed(relation, now, seconds)(edges[i]) by {
        assert(edges.contains(edges[i]));
        graph.edges@.lemma_filter_contains_rev(at_node, edges[i]);
        assert(graph.edges@.contains(edges[i]));
    }
}

/// Of the items of a list, those that `less` wants are among those that `more` wants.
pub(crate) open spec fn narrower<A>(
    items: Seq<A>,
    less: spec_fn(A) -> bool,
    more: spec_fn(A) -> bool,
) -> bool {
    forall|i: int| 0 <= i < items.len() && less(#[trigger] items[i]) ==> more(items[i])
}

/// A narrower filter keeps fewer items, also of those that a second filter wants.
pub(crate) proof fn narrower_filters_keep_fewer<A>(
    items: Seq<A>,
    less: spec_fn(A) -> bool,
    more: spec_fn(A) -> bool,
    also: spec_fn(A) -> bool,
)
    requires
        narrower(items, less, more),
    ensures
        items.filter(less).len() <= items.filter(more).len(),
        items.filter(less).filter(also).len() <= items.filter(more).filter(also).len(),
    decreases items.len(),
{
    reveal(Seq::filter);
    if items.len() > 0 {
        let front = items.drop_last();
        let last = items.last();
        assert forall|i: int| 0 <= i < front.len() && less(#[trigger] front[i]) implies more(
            front[i],
        ) by {
            assert(front[i] == items[i]);
        }
        narrower_filters_keep_fewer(front, less, more, also);
        assert(items[items.len() - 1] == last);
        front.filter(less).lemma_filter_push(last, also);
        front.filter(more).lemma_filter_push(last, also);
    }
}

/// What a narrower filter keeps is among what the wider one keeps.
pub(crate) proof fn narrower_filters_keep_some<A>(
    items: Seq<A>,
    less: spec_fn(A) -> bool,
    more: spec_fn(A) -> bool,
)
    requires
        narrower(items, less, more),
    ensures
        forall|k: int|
            0 <= k < items.filter(less).len() ==> items.filter(more).contains(
                #[trigger] items.filter(less)[k],
            ),
{
    assert forall|k: int| 0 <= k < items.filter(less).len() implies items.filter(more).contains(
        #[trigger] items.filter(less)[k],
    ) by {
        let x = items.filter(less)[k];
        items.lemma_filter_pred(less, k);
        assert(items.filter(less).contains(x));
        items.lemma_filter_contains_rev(less, x);
        let i = choose|i: int| 0 <= i < items.len() && items[i] == x;
        items.lemma_filter_contains(more, i);
    }
}

/// Where each edge of a list is among another's, it has no more different targets and sources.
pub(crate) proof fn fewer_edges_have_fewer_ends(less: Seq<Edge>, more: Seq<Edge>)
    requires
        forall|k: int| 0 <= k < less.len() ==> more.contains(#[trigger] less[k]),
    ensures
        targets(less).to_set().len() <= targets(more).to_set().len(),
        sources(less).to_set().len() <= sources(more).to_set().len(),
{
    assert forall|id: NodeId| #[trigger] targets(less).contains(id) implies targets(
        more,
    ).contains(id) by {
        let k = choose|k: int| 0 <= k < targets(less).len() && targets(less)[k] == id;
        assert(more.contains(less[k]));
        let m = choose|m: int| 0 <= m < more.len() && more[m] == less[k];
        assert(targets(more)[m] == id);
    }
    assert forall|id: NodeId| #[trigger] sources(less).contains(id) implies sources(
        more,
    ).contains(id) by {
        let k = choose|k: int| 0 <= k < sources(less).len() && sources(less)[k] == id;
        assert(more.contains(less[k]));
        let m = choose|m: int| 0 <= m < more.len() && more[m] == less[k];
        assert(sources(more)[m] == id);
    }
    vstd::seq_lib::seq_to_set_is_finite(targets(more));
    vstd::seq_lib::seq_to_set_is_finite(sources(more));
    vstd::set_lib::lemma_len_subset(targets(less).to_set(), targets(more).to_set());
    vstd::set_lib::lemma_len_subset(sources(less).to_set(), sources(more).to_set());
}

/// A filter of what another one keeps keeps what both want.
pub(crate) proof fn two_filters_are_one<A>(
    items: Seq<A>,
    first: spec_fn(A) -> bool,
    second: spec_fn(A) -> bool,
    both: spec_fn(A) -> bool,
)
    requires
        forall|x: A| #[trigger] both(x) == (first(x) && second(x)),
    ensures
        items.filter(first).filter(second) == items.filter(both),
    decreases items.len(),
{
    reveal(Seq::filter);
    if items.len() > 0 {
        let front = items.drop_last();
        let last = items.last();
        two_filters_are_one(front, first, second, both);
        front.filter(first).lemma_filter_push(last, second);
        assert(both(last) == (first(last) && second(last)));
    }
}

/// Two filters that want the same keep the same.
pub(crate) proof fn equal_filters_keep_the_same<A>(
    items: Seq<A>,
    one: spec_fn(A) -> bool,
    other: spec_fn(A) -> bool,
)
    requires
        forall|x: A| #[trigger] one(x) == other(x),
    ensures
        items.filter(one) == items.filter(other),
    decreases items.len(),
{
    reveal(Seq::filter);
    if items.len() > 0 {
        equal_filters_keep_the_same(items.drop_last(), one, other);
        assert(one(items.last()) == other(items.last()));
    }
}

/// Every edge that leaves a node is an edge of the graph.
pub(crate) proof fn an_outgoing_edge_is_there(graph: KnowledgeGraph, id: NodeId, n: int) -> (e: int)
    requires
        0 <= n < graph.outgoing(id).len(),
    ensures
        0 <= e < graph.edges@.len(),
        graph.edges@[e] == graph.outgoing(id)[n],
        graph.edges@[e].from == id,
{
    let edge = graph.outgoing(id)[n];
    graph.edges@.lemma_filter_pred(leaves(id), n);
    assert(graph.outgoing(id).contains(edge));
    graph.edges@.lemma_filter_contains_rev(leaves(id), edge);
    choose|e: int| 0 <= e < graph.edges@.len() && graph.edges@[e] == edge
}

} // verus!
