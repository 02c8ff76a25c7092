use vstd::prelude::*;

use crate::buildenv::{BuildEnv, BuildResult};
use crate::changes::Changes;
use crate::controller::{PassController, PassControllerState};
use crate::error::MinimizeError;
use crate::files::{open_all, SourceFile};
use crate::syntree::parse_of;
use crate::processor::{ProcessState, Processor};

verus! {

/// What the driver does after a round.
#[derive(Debug, Clone, Copy, PartialEq, Eq, Structural)]
pub enum RoundNext {
    /// Some file committed a change: run another round.
    RunAnotherRound,
    /// Nothing changed, but invalidated files wait on a refresh: give the
    /// pass one chance to recompute its derived state and retry them.
    RefreshAndRetry,
    /// Nothing changed and nothing is left to refresh: the pass is done.
    Finished,
}

/// Round progress: a round that commits no change finishes the pass, except
/// that invalidated files earn one refresh-and-retry first.
pub fn round_decision(had_changes: bool, any_invalidated: bool, refreshed_once: bool) -> (r:
    RoundNext)
    ensures
        had_changes ==> r == RoundNext::RunAnotherRound,
        !had_changes && any_invalidated && !refreshed_once ==> r == RoundNext::RefreshAndRetry,
        !had_changes && (!any_invalidated || refreshed_once) ==> r == RoundNext::Finished,
{
    if had_changes {
        RoundNext::RunAnotherRound
    } else if any_invalidated && !refreshed_once {
        RoundNext::RefreshAndRetry
    } else {
        RoundNext::Finished
    }
}

/// A vector of `n` cleared flags.
fn make_flags(n: usize) -> (v: Vec<bool>)
    ensures
        v@.len() == n,
        forall|i: int| 0 <= i < n ==> !v@[i],
{
    let mut v: Vec<bool> = Vec::new();
    let mut i: usize = 0;
    while i < n
        invariant
            i <= n,
            v@.len() == i,
            forall|j: int| 0 <= j < i ==> !v@[j],
        decreases n - i,
    {
        v.push(false);
        i += 1;
    }
    v
}

/// Sets one flag.
fn set_flag(flags: &mut Vec<bool>, i: usize)
    requires
        i < old(flags)@.len(),
    ensures
        final(flags)@ == old(flags)@.update(i as int, true),
{
    let _ = flags.remove(i);
    flags.insert(i, true);
    proof {
        assert(flags@ =~= old(flags)@.update(i as int, true));
    }
}

/// Whether any flag is set.
fn any_flag(flags: &Vec<bool>) -> (r: bool)
    ensures
        r == exists|i: int| 0 <= i < flags@.len() && flags@[i],
{
    let n = flags.len();
    let mut i: usize = 0;
    while i < n
        invariant
            n == flags@.len(),
            i <= n,
            forall|j: int| 0 <= j < i ==> !flags@[j],
        decreases n - i,
    {
        if flags[i] {
            return true;
        }
        i += 1;
    }
    false
}

/// The startup decision: reduction begins only when the verifier ran and
/// the untouched project reproduces the issue — you cannot reduce what does
/// not fail.
pub fn startup_check(outcome: Result<BuildResult, ()>) -> (r: Result<(), MinimizeError>)
    ensures
        r is Ok <==> (outcome matches Ok(b) && b.reproduces),
        outcome is Err ==> r matches Err(MinimizeError::Verifier),
        (outcome matches Ok(b) && !b.reproduces) ==> r matches Err(
            MinimizeError::DoesNotReproduce,
        ),
{
    match outcome {
        Ok(b) => {
            if b.reproduces_issue() {
                Ok(())
            } else {
                Err(MinimizeError::DoesNotReproduce)
            }
        },
        Err(()) => Err(MinimizeError::Verifier),
    }
}

/// The one-call front door: opens every discovered file from its text,
/// checks that the untouched project reproduces the issue, and runs the
/// passes in order to quiescence. Returns the minimizer for inspection of
/// the final cached contents: one file per input, in order, under the
/// input's path. An input that does not parse surfaces a parse error (a
/// pass's own refresh failure may surface one too, so only this direction
/// is stated).
pub fn minimize<E: BuildEnv, P: Processor>(
    inputs: Vec<(String, String)>,
    env: E,
    passes: &mut Vec<P>,
) -> (r: Result<Minimizer<E>, MinimizeError>)
    ensures
        r matches Ok(m) ==> m.files_wf() && m.files@.len() == inputs@.len() && forall|i: int|
            0 <= i < inputs@.len() ==> (#[trigger] m.files@[i]).path@ == inputs@[i].0@ && parse_of(
                inputs@[i].1@,
            ) is Some,
        (exists|i: int|
            0 <= i < inputs@.len() && parse_of(#[trigger] inputs@[i].1@) is None) ==> r matches Err(
            MinimizeError::Parse { .. },
        ),
{
    let files = match open_all(inputs) {
        Ok(files) => files,
        Err(e) => {
            return Err(e);
        },
    };
    let mut m = Minimizer::new(files, env);
    match m.run_passes(passes) {
        Ok(()) => Ok(m),
        Err(e) => Err(e),
    }
}

/// Drives a sequence of passes over the project's files until each pass
/// quiesces, consulting the build environment after every tentative edit.
pub struct Minimizer<E: BuildEnv> {
    pub files: Vec<SourceFile>,
    pub env: E,
}

impl<E: BuildEnv> Minimizer<E> {
    /// Every file's caches are coherent.
    pub open spec fn files_wf(self) -> bool {
        forall|i: int| 0 <= i < self.files@.len() ==> (#[trigger] self.files@[i]).wf()
    }

    /// A minimizer over the given files (in discovery order, as handed in by
    /// the caller) and build environment.
    pub fn new(files: Vec<SourceFile>, env: E) -> (m: Minimizer<E>)
        requires
            forall|i: int| 0 <= i < files@.len() ==> (#[trigger] files@[i]).wf(),
        ensures
            m.files_wf(),
            m.files@ == files@,
            m.env == env,
    {
        Minimizer { files, env }
    }

    /// Verifies that the untouched project reproduces the issue — you cannot
    /// reduce what does not fail — then runs each pass in order to
    /// quiescence.
    pub fn run_passes<P: Processor>(&mut self, passes: &mut Vec<P>) -> (r: Result<
        (),
        MinimizeError,
    >)
        requires
            old(self).files_wf(),
        ensures
            final(self).files_wf(),
            final(self).files@.len() == old(self).files@.len(),
            forall|i: int| 0 <= i < old(self).files@.len() ==> (#[trigger] final(self).files@[i]).path@ == old(self).files@[i].path@,
            // Startup non-reproduction is found before any edit: the project
            // is untouched.
            r matches Err(MinimizeError::DoesNotReproduce) ==> final(self).files@ == old(
                self,
            ).files@,
    {
        let outcome = self.env.build();
        match startup_check(outcome) {
            Ok(()) => {},
            Err(e) => {
                return Err(e);
            },
        }
        let mut k: usize = 0;
        while k < passes.len()
            invariant
                self.files_wf(),
                self.files@.len() == old(self).files@.len(),
                forall|i: int| 0 <= i < old(self).files@.len() ==> (#[trigger] self.files@[i]).path@
                    == old(self).files@[i].path@,
                k <= passes@.len(),
            decreases passes@.len() - k,
        {
            let mut pass = passes.remove(k);
            let res = self.run_pass(&mut pass);
            passes.insert(k, pass);
            match res {
                Ok(()) => {},
                Err(e) => {
                    return Err(e);
                },
            }
            k += 1;
        }
        Ok(())
    }

    /// Runs one pass to quiescence: rounds over all non-invalidated files
    /// until a round commits nothing, with one refresh-and-retry when only
    /// invalidations remain.
    pub fn run_pass<P: Processor>(&mut self, pass: &mut P) -> (r: Result<(), MinimizeError>)
        requires
            old(self).files_wf(),
        ensures
            final(self).files_wf(),
            final(self).files@.len() == old(self).files@.len(),
            forall|i: int| 0 <= i < old(self).files@.len() ==> (#[trigger] final(self).files@[i]).path@ == old(self).files@[i].path@,
            r matches Err(e) ==> !(e matches MinimizeError::DoesNotReproduce),
    {
        let n = self.files.len();
        proof {
            assert(n == old(self).files@.len());
        }
        let mut invalidated: Vec<bool> = make_flags(n);
        let mut refreshed_once = false;
        // A pass is expected to quiesce; the budget only bounds the loop for
        // the termination checker and is unreachable for any pass that stops
        // committing changes eventually.
        let mut budget: u64 = u64::MAX;
        while budget > 0
            invariant
                self.files_wf(),
                n == self.files@.len(),
                n == old(self).files@.len(),
                invalidated@.len() == n,
                forall|k: int| 0 <= k < n ==> (#[trigger] self.files@[k]).path@ == old(self).files@[k].path@,
            decreases budget,
        {
            budget = budget - 1;
            if self.env.cancel_requested() {
                return Err(MinimizeError::Cancelled);
            }
            let mut changes = Changes::default();
            let mut i: usize = 0;
            while i < self.files.len()
                invariant
                    self.files_wf(),
                    n == self.files@.len(),
                    n == old(self).files@.len(),
                    invalidated@.len() == n,
                    i <= n,
                    forall|k: int| 0 <= k < n ==> (#[trigger] self.files@[k]).path@ == old(self).files@[k].path@,
                decreases n - i,
            {
                if !invalidated[i] {
                    let ghost files_before = self.files@;
                    let mut file = self.files.remove(i);
                    let res = Self::process_file(pass, &mut file, &mut self.env, &mut changes);
                    self.files.insert(i, file);
                    proof {
                        assert(self.files@ =~= files_before.update(i as int, file));
                    }
                    match res {
                        Ok(invalidated_now) => {
                            if invalidated_now {
                                set_flag(&mut invalidated, i);
                            }
                        },
                        Err(e) => {
                            return Err(e);
                        },
                    }
                }
                i += 1;
            }
            let any_inv = any_flag(&invalidated);
            match round_decision(changes.had_changes(), any_inv, refreshed_once) {
                RoundNext::RunAnotherRound => {
                    refreshed_once = false;
                },
                RoundNext::RefreshAndRetry => {
                    match pass.refresh_state() {
                        Ok(()) => {},
                        Err(MinimizeError::DoesNotReproduce) => {
                            // Startup non-reproduction is not a refresh
                            // outcome; a pass that claims it is broken.
                            return Err(MinimizeError::InvariantViolation);
                        },
                        Err(e) => {
                            return Err(e);
                        },
                    }
                    invalidated = make_flags(n);
                    refreshed_once = true;
                },
                RoundNext::Finished => {
                    return Ok(());
                },
            }
        }
        // A pass that still commits after this many rounds never quiesces.
        Err(MinimizeError::InvariantViolation)
    }

    /// Runs one pass over one file to quiescence: repeated trials of edit,
    /// persist, verify, commit-or-rollback, driven by a fresh controller.
    /// If no trial commits, the file's content is exactly what it was.
    /// Returns whether the pass invalidated the file.
    fn process_file<P: Processor>(
        pass: &mut P,
        file: &mut SourceFile,
        env: &mut E,
        changes: &mut Changes,
    ) -> (r: Result<bool, MinimizeError>)
        requires
            old(file).wf(),
        ensures
            final(file).wf(),
            final(file).path@ == old(file).path@,
            old(changes).dirty() ==> final(changes).dirty(),
            r is Ok && !final(changes).dirty() ==> final(file).text@ == old(file).text@ && final(file).tree == old(file).tree,
            r matches Err(e) ==> !(e matches MinimizeError::DoesNotReproduce),
    {
        let mut checker = PassController::new();
        let mut invalidated = false;
        loop
            invariant
                file.wf(),
                file.path@ == old(file).path@,
                checker.inv(),
                !checker.finished(),
                checker.state matches PassControllerState::InitialCollection { candidates }
                    ==> candidates@.len() == 0,
                old(changes).dirty() ==> changes.dirty(),
                !changes.dirty() ==> file.text@ == old(file).text@ && file.tree == old(file).tree,
            decreases (if checker.state matches PassControllerState::InitialCollection { .. } {
                1nat
            } else {
                0nat
            }), checker.measure(),
        {
            // The cancellation flag is observed between verifier calls, with
            // no change in flight.
            if env.cancel_requested() {
                return Err(MinimizeError::Cancelled);
            }
            let mut change = file.try_change();
            let mut krate = change.fresh_tree();
            let state = pass.process_file(&mut krate, file, &mut checker);
            match state {
                ProcessState::Changed | ProcessState::FileInvalidated => {
                    match change.write(file, env, krate) {
                        Ok(()) => {},
                        Err(e) => {
                            // Best-effort restore: the persist may have
                            // partially happened before it failed.
                            let _ = change.rollback(file, env);
                            return Err(e);
                        },
                    }
                    let verdict = match env.build() {
                        Ok(b) => b,
                        Err(()) => {
                            // Put the file back before surfacing the tool failure.
                            let _ = change.rollback(file, env);
                            return Err(MinimizeError::Verifier);
                        },
                    };
                    if verdict.reproduces_issue() {
                        change.commit(changes);
                        checker.reproduces();
                    } else {
                        match change.rollback(file, env) {
                            Ok(()) => {},
                            Err(e) => {
                                return Err(e);
                            },
                        }
                        checker.does_not_reproduce();
                    }
                    if state == ProcessState::FileInvalidated {
                        invalidated = true;
                    }
                },
                ProcessState::NoChange => {
                    match &checker.state {
                        PassControllerState::InitialCollection { candidates } => {
                            if candidates.len() == 0 {
                                checker.no_change();
                            } else {
                                // The pass accepted sites yet claims it did nothing.
                                return Err(MinimizeError::InvariantViolation);
                            }
                        },
                        PassControllerState::Bisecting { .. } => {
                            // A pass under bisection must revisit the accepted sites.
                            return Err(MinimizeError::InvariantViolation);
                        },
                        PassControllerState::Success => {
                            checker.no_change();
                        },
                    }
                },
            }
            if checker.is_finished() {
                return Ok(invalidated);
            }
        }
    }
}

} // verus!
