use vstd::prelude::*;

use crate::controller::{PassController, PassControllerState};
use crate::error::MinimizeError;
use crate::files::SourceFile;

verus! {

/// What a pass reports about one trial over one file.
#[derive(Debug, Clone, Copy, PartialEq, Eq, Structural)]
pub enum ProcessState {
    /// No candidate site was modified.
    NoChange,
    /// At least one site was modified and the pass's own state is still
    /// consistent with the project as it will be after the edit.
    Changed,
    /// The edit depends on cached global information that must be recomputed
    /// before this file is processed again.
    FileInvalidated,
}

/// How a pass may evolve the controller it was handed: only through
/// `can_process` queries. During initial collection the candidate list grows
/// by the accepted sites — and grows exactly when the pass modified
/// something; while bisecting the controller is left untouched.
pub open spec fn pass_step_ok(
    pre: PassController,
    post: PassController,
    r: ProcessState,
) -> bool {
    match pre.state {
        PassControllerState::InitialCollection { candidates: cs0 } => match post.state {
            PassControllerState::InitialCollection { candidates: cs } => {
                &&& cs@.len() >= cs0@.len()
                &&& (r == ProcessState::NoChange ==> cs.deep_view() == cs0.deep_view())
                &&& (r != ProcessState::NoChange ==> cs@.len() > cs0@.len())
            },
            _ => false,
        },
        PassControllerState::Bisecting { .. } => post == pre,
        PassControllerState::Success => false,
    }
}

/// A transformation over parsed source trees. An implementation traverses
/// the tree and, at every candidate edit site, consults
/// `checker.can_process(path)`; where the answer is true it applies its
/// rewrite. The driver, not the pass, decides afterwards whether the edit
/// survives: it persists the tree, asks the verifier, and feeds the verdict
/// back into the controller. The driver does not trust the returned
/// `ProcessState` for bookkeeping; commits are tracked by `Changes`.
pub trait Processor {
    /// Rewrites some candidate sites of `krate`, consulting `checker`.
    fn process_file(
        &mut self,
        krate: &mut syn::File,
        file: &SourceFile,
        checker: &mut PassController,
    ) -> (r: ProcessState)
        requires
            !old(checker).finished(),
        ensures
            pass_step_ok(*old(checker), *final(checker), r),
    ;

    /// Recomputes derived global state after files were invalidated; a pass
    /// that holds no such state keeps this no-op.
    fn refresh_state(&mut self) -> (r: Result<(), MinimizeError>) {
        Ok(())
    }

    /// A stable identifier for logging.
    fn name(&self) -> (r: String);
}

} // verus!
