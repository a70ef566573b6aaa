//! Incidents: what a detector reports.

use crate::record::{field_views, Field, FieldView};
use crate::text::texts;
use crate::time::{Instant, Timestamp};
use vstd::prelude::*;

verus! {

/// How grave an incident is.
#[derive(Clone, Copy, Debug, PartialEq, Eq, Structural)]
pub enum Severity {
    Medium,
    High,
    Critical,
}

/// What kind of thing an [`EntityRef`] refers to.
#[derive(Clone, Copy, Debug, PartialEq, Eq, Structural)]
pub enum EntityKind {
    Ip,
    Path,
    User,
}

/// A thing that an incident is about.
#[derive(Debug)]
pub struct EntityRef {
    pub kind: EntityKind,
    pub value: String,
}

/// What an [`EntityRef`] holds.
#[verifier::ext_equal]
pub struct EntityView {
    pub kind: EntityKind,
    pub value: Seq<char>,
}

impl View for EntityRef {
    type V = EntityView;

    open spec fn view(&self) -> EntityView {
        EntityView { kind: self.kind, value: self.value@ }
    }
}

impl EntityRef {
    /// An IP address.
    pub fn ip(value: &str) -> (entity: EntityRef)
        ensures
            entity@ == (EntityView { kind: EntityKind::Ip, value: value@ }),
    {
        EntityRef { kind: EntityKind::Ip, value: value.to_owned() }
    }

    /// A file path.
    pub fn path(value: &str) -> (entity: EntityRef)
        ensures
            entity@ == (EntityView { kind: EntityKind::Path, value: value@ }),
    {
        EntityRef { kind: EntityKind::Path, value: value.to_owned() }
    }

    /// A user name.
    pub fn user(value: &str) -> (entity: EntityRef)
        ensures
            entity@ == (EntityView { kind: EntityKind::User, value: value@ }),
    {
        EntityRef { kind: EntityKind::User, value: value.to_owned() }
    }
}

/// What a list of entities holds.
pub open spec fn entity_views(entities: Seq<EntityRef>) -> Seq<EntityView> {
    entities.map_values(|e: EntityRef| e@)
}

/// One report of a detector.
#[derive(Debug)]
pub struct Incident {
    pub ts: Timestamp,
    pub host: String,
    pub incident_id: String,
    pub severity: Severity,
    pub title: String,
    pub summary: String,
    pub evidence: Vec<Field>,
    pub recommended_checks: Vec<String>,
    pub tags: Vec<String>,
    pub entities: Vec<EntityRef>,
}

/// What an [`Incident`] holds.
#[verifier::ext_equal]
pub struct IncidentView {
    pub ts: Instant,
    pub host: Seq<char>,
    pub incident_id: Seq<char>,
    pub severity: Severity,
    pub title: Seq<char>,
    pub summary: Seq<char>,
    pub evidence: Seq<FieldView>,
    pub recommended_checks: Seq<Seq<char>>,
    pub tags: Seq<Seq<char>>,
    pub entities: Seq<EntityView>,
}

impl View for Incident {
    type V = IncidentView;

    open spec fn view(&self) -> IncidentView {
        IncidentView {
            ts: self.ts@,
            host: self.host@,
            incident_id: self.incident_id@,
            severity: self.severity,
            title: self.title@,
            summary: self.summary@,
            evidence: field_views(self.evidence@),
            recommended_checks: texts(self.recommended_checks@),
            tags: texts(self.tags@),
            entities: entity_views(self.entities@),
        }
    }
}

/// What a list of incidents holds.
pub open spec fn incident_views(incidents: Seq<Incident>) -> Seq<IncidentView> {
    incidents.map_values(|i: Incident| i@)
}

} // verus!
