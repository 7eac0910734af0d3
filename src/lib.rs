//! Boundary layer between an actor runtime and native extension code.
//!
//! The core: a term codec onto per-call arenas (`term`), an atom table
//! (`atom_table`), a reference-counted resource registry with the monitors
//! that owning processes hold on resources (`registry`), and the counter
//! port state machine that drives them (`message_dispatch`,
//! `port_state_machine`, `integration`).
//!
//! Around it: the counter resource and checked arithmetic (`counter`), port
//! data (`port_drivers`), commands and their scheduling
//! (`command_executor`, `operation_scheduler`), diagnostics
//! (`event_system`, `conflict_detection`, `failure_detection`,
//! `performance`, `health_monitor`, `system_observer`), the host
//! (`host`, `example_module`), and evidence tooling (`kgc`,
//! `safety_ledger`, `proof_pack`, `error_reconciliation`,
//! `boundary_testing`).

pub mod text;
pub mod term;
pub mod atom_table;
pub mod registry;
pub mod message_dispatch;
pub mod port_drivers;
pub mod port_state_machine;
pub mod integration;
pub mod counter;
pub mod command_executor;
pub mod operation_scheduler;
pub mod event_system;
pub mod conflict_detection;
pub mod failure_detection;
pub mod performance;
pub mod health_monitor;
pub mod system_observer;
pub mod host;
pub mod example_module;
pub mod kgc;
pub mod safety_ledger;
pub mod proof_pack;
pub mod error_reconciliation;
pub mod boundary_testing;
pub mod term_morphism;
