//! Core of a source-code minimizer: a driver that applies syntactic
//! simplification passes to the files of a project, re-running an external
//! verifier after every tentative change to decide whether to keep it.
//!
//! The three verified subsystems are the per-file delta-debugging state
//! machine ([`controller::PassController`]), the driver loop
//! ([`driver::Minimizer`]), and the transactional file-change discipline
//! ([`files::SourceFile`] / [`files::FileChange`]).

pub mod buildenv;
pub mod changes;
pub mod controller;
pub mod driver;
pub mod error;
pub mod files;
pub mod path;
pub mod processor;
pub mod syntree;
