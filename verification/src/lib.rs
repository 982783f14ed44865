//! Core logic of a live-reload development server for static files.
//!
//! The crate holds the decisions of the server as plain functions and state
//! machines: where the reload script goes in an HTML page, how a URL path
//! maps to a file and a response, how bursts of file changes collapse into
//! one reload signal, how that signal fans out to the connected clients, and
//! in which order the server is set up and torn down. Sockets, timers and the
//! filesystem belong to the program that drives these state machines.

pub mod asset;
pub mod broadcast;
pub mod bytes;
pub mod content_type;
pub mod debounce;
pub mod endpoint;
pub mod inject;
pub mod lifecycle;
pub mod relay;
pub mod signal;
