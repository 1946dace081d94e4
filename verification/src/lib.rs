//! Core of a facial-authentication agent: a store of enrolled face
//! models, a matcher that decides whether a newly seen face is close
//! enough to a stored one, checks that can call an attempt off early, a
//! deadline-bound authentication session, an enrollment workflow, and the
//! byte layout of the saved model file.
//!
//! Camera capture, face detection and encoding, configuration-file parsing
//! and the login-stack integration are outside collaborators; this crate
//! holds the decisions and the data they feed.

pub mod codec;
pub mod config;
mod ext;
pub mod gate;
pub mod matcher;
pub mod session;
pub mod store;
