//! Tab registry and client-side command logic of a terminal-multiplexing daemon.
//!
//! The daemon keeps the authoritative set of live tabs in a single-writer
//! registry ([`registry::TabManagerService`]); clients await a converged
//! snapshot and then act on it ([`close_tabs`], [`list_tabs`]); a carrier
//! bridges the terminal bus and the fuzzy-finder bus ([`fuzzy`]).

pub mod tab;
pub mod registry;
pub mod close_tabs;
pub mod list_tabs;
pub mod fuzzy;
