//! The signalling core of a selective forwarding unit: it decides who may join which room, who is
//! told of what, and where media and data go. What the gateway has to do comes out as a list of
//! actions.
pub mod auth;
pub mod config;
pub mod delivery;
pub mod invariants;
pub mod json;
pub mod laws;
pub mod lifecycle;
pub mod media;
pub mod meaning;
pub mod messages;
pub mod model;
pub mod negotiation;
pub mod outbound;
pub mod preservation;
pub mod promises;
pub mod requests;
pub mod seqs;
pub mod sessions;
pub mod signalling;
pub mod switchboard;
pub mod wording;
