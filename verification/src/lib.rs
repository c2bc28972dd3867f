//! Core of a desktop recording application: the session orchestrator state
//! machine, the capture-backend and poller lifecycles, the event-log funnel,
//! and the privacy-redaction pipeline (interval merge, video filter-graph
//! synthesis, log filtering).

pub mod axtree;
pub mod backend;
pub mod engine;
pub mod export;
pub mod input;
pub mod logger;
pub mod numfmt;
pub mod ranges;
pub mod redact;
pub mod session;
pub mod settings;
pub mod textparse;
pub mod tools;
pub mod video;
