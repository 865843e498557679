//! Declarative reconciliation of state machines and their schedules: the
//! resource model, the diff engine that derives ordered change operations, the
//! report that aggregates them, and the sequencing of the calls that apply them.

pub mod text;
pub mod resource_tag;
pub mod state_machine;
pub mod schedule;
pub mod diff_op;
pub mod ssconfig;
pub mod differ;
pub mod diff_result;
pub mod render;
pub mod identity;
pub mod apply;
pub mod cli;
pub mod import;
pub mod init;
pub mod plan;
pub mod laws;
