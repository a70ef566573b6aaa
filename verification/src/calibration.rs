//! What is known of the users of a host, by which detectors set their thresholds.

use crate::text::{listed, same_text, texts};
use vstd::prelude::*;

verus! {

/// The classes of users.
#[derive(Clone, Copy, Debug, PartialEq, Eq, Structural)]
pub enum UserClass {
    Root,
    Human,
    Service,
    Unknown,
}

/// The label of a class of users.
pub open spec fn class_label(class: UserClass) -> Seq<char> {
    match class {
        UserClass::Root => "root"@,
        UserClass::Human => "human"@,
        UserClass::Service => "service"@,
        UserClass::Unknown => "unknown"@,
    }
}

/// The label of a class of users.
pub fn user_class_label(class: UserClass) -> (label: &'static str)
    ensures
        label@ == class_label(class),
{
    match class {
        UserClass::Root => "root",
        UserClass::Human => "human",
        UserClass::Service => "service",
        UserClass::Unknown => "unknown",
    }
}

/// The accounts of a host that are known to belong to people and to services.
#[derive(Debug)]
pub struct CalibrationContext {
    pub human_user_names: Vec<String>,
    pub service_user_names: Vec<String>,
}

impl CalibrationContext {
    /// The class of a user: `root` by its name, then people, then services; any other user is
    /// unknown.
    pub open spec fn class_of(self, name: Seq<char>) -> UserClass {
        if name == "root"@ {
            UserClass::Root
        } else if texts(self.human_user_names@).contains(name) {
            UserClass::Human
        } else if texts(self.service_user_names@).contains(name) {
            UserClass::Service
        } else {
            UserClass::Unknown
        }
    }

    /// The class of a user.
    pub fn classify_user(&self, name: &str) -> (class: UserClass)
        ensures
            class == self.class_of(name@),
    {
        if same_text(name, "root") {
            UserClass::Root
        } else if listed(&self.human_user_names, name) {
            UserClass::Human
        } else if listed(&self.service_user_names, name) {
            UserClass::Service
        } else {
            UserClass::Unknown
        }
    }
}

impl Default for CalibrationContext {
    /// Nothing is known of any account.
    fn default() -> (context: CalibrationContext)
        ensures
            context.human_user_names@ == Seq::<String>::empty(),
            context.service_user_names@ == Seq::<String>::empty(),
    {
        CalibrationContext { human_user_names: Vec::new(), service_user_names: Vec::new() }
    }
}

} // verus!
