//! Editor-style completion for interactive shells.
//!
//! Everything here computes: byte streams, control frames, session states and
//! scheduling decisions go in as plain values and come out as plain values.
//! Terminals, files, threads and clocks belong to the surrounding program.

pub mod ai_context;
pub mod completion;
pub mod coordinator;
pub mod input;
pub mod paths;
pub mod runtime_ai;
pub mod runtime_completion;
pub mod runtime_update;
pub mod selection;
pub mod session;
pub mod session_core;
pub mod session_key_laws;
pub mod session_laws;
pub mod session_model;
pub mod session_report_laws;
pub mod setup;
pub mod shell_control;
pub mod shell_events;
pub mod sorted;
pub mod state;
pub mod text;
pub mod timestamps;
pub mod update_policy;
pub mod updater;
pub mod version;
pub mod words;
