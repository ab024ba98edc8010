//! Webview orchestration engine for a desktop shell that embeds several
//! independent web front-ends ("sites") as child browser instances inside one
//! host window.
//!
//! The crate owns the tab/site identity model, the single/split layout state
//! machine and its geometry, the bookkeeping of created webview instances,
//! the concurrency guards that serialize creation against resize, and the
//! token-authenticated text-extraction protocol used by the summarization
//! flow.  Everything here is pure state and decision logic: the host toolkit
//! performs the actual window and network work and feeds results back in as
//! plain values.

pub mod broadcast;
pub mod errors;
pub mod extract;
pub mod hub;
pub mod ids;
pub mod laws;
pub mod layout;
pub mod projects;
pub mod sites;
pub mod strmap;
pub mod strutil;
pub mod summary;
pub mod tabstate;

pub use errors::HubError;
