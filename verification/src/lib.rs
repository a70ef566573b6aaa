//! Host threat detection over a knowledge graph, and the confirmation workflow that lets an
//! operator approve or deny the guarded actions that detections lead to.
//!
//! The modules whose names end in `laws` state what the operations are for, in terms of what
//! happened on the host and what operators are told.
//!
//! Every rule is stated in `ensures` clauses and proved. The few calls into `chrono` and `std`
//! that Verus does not read are isolated in the modules [`time`] and [`text`].

pub mod alert;
pub mod calibration;
pub mod confirmation_laws;
pub mod decision_confirmation;
pub mod graph;
pub mod incident;
pub mod model_laws;
pub mod pending;
pub mod persistence;
pub mod persistence_laws;
pub mod recon;
pub mod recon_laws;
pub mod record;
pub mod text;
pub mod text_laws;
pub mod time;
pub mod two_fa;
