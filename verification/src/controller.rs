use vstd::prelude::*;
use vstd::seq_lib::lemma_multiset_commutative;
use vstd::seq_lib::group_to_multiset_ensures;
use vstd::multiset::Multiset;

use crate::path::{clone_path, paths_contain, AstPath, PathModel};

verus! {

/// The three phases of a per-file delta-debugging run.
pub enum PassControllerState {
    /// Accumulation: every proposed site is accepted and recorded, and the
    /// trial modifies all of them at once.
    InitialCollection { candidates: Vec<AstPath> },
    /// Narrowing: only sites in `current` are modified in this trial;
    /// `worklist` holds the subsets still waiting for a trial of their own.
    Bisecting { current: Vec<AstPath>, worklist: Vec<Vec<AstPath>> },
    /// Terminal: the pass has quiesced on this file.
    Success,
}

/// Every subset still waiting on the worklist has at least one path.
pub open spec fn subsets_nonempty(worklist: Seq<Vec<AstPath>>) -> bool {
    forall|i: int| 0 <= i < worklist.len() ==> (#[trigger] worklist[i])@.len() > 0
}

/// The weight a subset of n paths contributes to the trial budget: a full
/// binary split of n sites tests at most 2n - 1 subsets.
pub open spec fn subset_weight(n: nat) -> nat {
    if n == 0 {
        0
    } else {
        (2 * n - 1) as nat
    }
}

/// Total weight of the subsets on the worklist.
pub open spec fn wl_weight(w: Seq<Vec<AstPath>>) -> nat
    decreases w.len(),
{
    if w.len() == 0 {
        0
    } else {
        wl_weight(w.drop_last()) + subset_weight(w.last()@.len() as nat)
    }
}

/// All paths held by the subsets on the worklist, as a multiset.
pub open spec fn wl_mset(w: Seq<Vec<AstPath>>) -> Multiset<PathModel>
    decreases w.len(),
{
    if w.len() == 0 {
        Multiset::empty()
    } else {
        wl_mset(w.drop_last()).add(w.last().deep_view().to_multiset())
    }
}

impl PassControllerState {
    /// Structural invariant: while bisecting, the subset under trial and
    /// every queued subset are non-empty.
    pub open spec fn inv(self) -> bool {
        match self {
            PassControllerState::InitialCollection { .. } => true,
            PassControllerState::Bisecting { current, worklist } => current@.len() > 0
                && subsets_nonempty(worklist@),
            PassControllerState::Success => true,
        }
    }

    /// Upper bound on the number of verifier verdicts still needed before
    /// this state reaches `Success`; every verdict strictly decreases it.
    pub open spec fn measure(self) -> nat {
        match self {
            PassControllerState::InitialCollection { candidates } => (2 * candidates@.len()
                + 1) as nat,
            PassControllerState::Bisecting { current, worklist } => subset_weight(
                current@.len() as nat,
            ) + wl_weight(worklist@) + 1,
            PassControllerState::Success => 0,
        }
    }

    /// All candidate paths whose fate is still open: they await a trial.
    pub open spec fn pending(self) -> Multiset<PathModel> {
        match self {
            PassControllerState::InitialCollection { candidates } => candidates.deep_view()
                .to_multiset(),
            PassControllerState::Bisecting { current, worklist } => current.deep_view()
                .to_multiset().add(wl_mset(worklist@)),
            PassControllerState::Success => Multiset::empty(),
        }
    }

    /// The paths the pass modifies in the trial this state drives.
    pub open spec fn trial_set(self) -> Multiset<PathModel> {
        match self {
            PassControllerState::InitialCollection { candidates } => candidates.deep_view()
                .to_multiset(),
            PassControllerState::Bisecting { current, .. } => current.deep_view().to_multiset(),
            PassControllerState::Success => Multiset::empty(),
        }
    }
}

/// Per-file delta-debugging state machine. One instance drives one pass over
/// one file, selecting across repeated verifier trials which subset of the
/// pass's candidate edit sites to modify next, ddmin style.
pub struct PassController {
    pub state: PassControllerState,
}

impl PassController {
    pub open spec fn inv(self) -> bool {
        self.state.inv()
    }

    pub open spec fn finished(self) -> bool {
        self.state matches PassControllerState::Success
    }

    pub open spec fn measure(self) -> nat {
        self.state.measure()
    }

    pub open spec fn pending(self) -> Multiset<PathModel> {
        self.state.pending()
    }

    pub open spec fn trial_set(self) -> Multiset<PathModel> {
        self.state.trial_set()
    }

    /// A fresh controller, ready to collect candidate sites.
    pub fn new() -> (c: PassController)
        ensures
            c.inv(),
            !c.finished(),
            c.state matches PassControllerState::InitialCollection { candidates }
                && candidates@.len() == 0,
    {
        PassController { state: PassControllerState::InitialCollection { candidates: Vec::new() } }
    }

    /// Whether this pass has quiesced on its file.
    pub fn is_finished(&self) -> (r: bool)
        ensures
            r == self.finished(),
    {
        match &self.state {
            PassControllerState::Success => true,
            _ => false,
        }
    }

    /// Called by the pass at every candidate site. During initial collection
    /// the site is recorded and accepted; while bisecting, it is accepted iff
    /// it belongs to the subset under trial.
    pub fn can_process(&mut self, path: &[String]) -> (r: bool)
        requires
            !old(self).finished(),
        ensures
            old(self).inv() ==> final(self).inv(),
            match old(self).state {
                PassControllerState::InitialCollection { candidates: cs0 } => r && (
                final(self).state matches PassControllerState::InitialCollection { candidates: cs }
                    && cs@.len() == cs0@.len() + 1 && cs.deep_view() == cs0.deep_view().push(
                    path.deep_view(),
                )),
                PassControllerState::Bisecting { current, .. } => *final(self) == *old(self) && r
                    == current.deep_view().contains(path.deep_view()),
                PassControllerState::Success => false,
            },
    {
        match &mut self.state {
            PassControllerState::InitialCollection { candidates } => {
                let ghost cs0 = candidates.deep_view();
                candidates.push(clone_path(path));
                proof {
                    assert(candidates.deep_view() =~= cs0.push(path.deep_view()));
                }
                true
            },
            PassControllerState::Bisecting { current, .. } => paths_contain(current, path),
            PassControllerState::Success => {
                proof {
                    assert(false);
                }
                false
            },
        }
    }

    /// The driver observed that the trial still reproduces the issue. The
    /// tested subset is locked in (the edit is already committed), and the
    /// next pending subset, if any, is taken up.
    ///
    /// A reproducing trial resolves exactly the paths it modified: the
    /// pending pool shrinks by `trial_set`, so every path that leaves the
    /// pool here was part of the accepted, committed subset.
    pub fn reproduces(&mut self)
        requires
            old(self).inv(),
            !old(self).finished(),
        ensures
            final(self).inv(),
            final(self).measure() < old(self).measure(),
            final(self).pending() == old(self).pending().sub(old(self).trial_set()),
            match old(self).state {
                PassControllerState::InitialCollection { .. } => final(self).finished(),
                PassControllerState::Bisecting { current, worklist } => if worklist@.len() == 0 {
                    final(self).finished()
                } else {
                    final(self).state matches PassControllerState::Bisecting {
                        current: c2,
                        worklist: w2,
                    } && c2.deep_view() == worklist@.last().deep_view() && w2@
                        == worklist@.drop_last()
                },
                PassControllerState::Success => false,
            },
    {
        let mut st = PassControllerState::Success;
        core::mem::swap(&mut st, &mut self.state);
        match st {
            PassControllerState::InitialCollection { .. } => {
                self.state = PassControllerState::Success;
                proof {
                    broadcast use group_to_multiset_ensures;

                    assert(self.pending() =~= old(self).pending().sub(old(self).trial_set()));
                }
            },
            PassControllerState::Bisecting { current, mut worklist } => {
                let ghost old_wl = worklist@;
                let ghost cur_m = current.deep_view().to_multiset();
                match worklist.pop() {
                    Some(next) => {
                        self.state = PassControllerState::Bisecting { current: next, worklist };
                    },
                    None => {
                        self.state = PassControllerState::Success;
                    },
                }
                proof {
                    broadcast use group_to_multiset_ensures;

                    if old_wl.len() > 0 {
                        assert(wl_mset(old_wl) == wl_mset(old_wl.drop_last()).add(
                            old_wl.last().deep_view().to_multiset(),
                        ));
                        assert(self.pending() =~= old(self).pending().sub(old(self).trial_set()));
                        assert(wl_weight(old_wl) == wl_weight(old_wl.drop_last()) + subset_weight(
                            old_wl.last()@.len() as nat,
                        ));
                    } else {
                        assert(self.pending() =~= old(self).pending().sub(old(self).trial_set()));
                    }
                }
            },
            PassControllerState::Success => {
                proof {
                    assert(false);
                }
            },
        }
    }

    /// The driver observed that the trial failed to reproduce and has rolled
    /// the edit back. A failed trial over two or more sites splits the tested
    /// subset in half and keeps bisecting; a failed trial over a single site
    /// rejects that site for good.
    ///
    /// No path is lost while a split is still possible: the pending pool is
    /// preserved exactly unless the tested subset was a singleton (or the
    /// initial collection held at most one site), in which case exactly the
    /// tested paths are resolved.
    pub fn does_not_reproduce(&mut self)
        requires
            old(self).inv(),
            !old(self).finished(),
        ensures
            final(self).inv(),
            final(self).measure() < old(self).measure(),
            old(self).trial_set().len() > 1 ==> final(self).pending() == old(self).pending(),
            old(self).trial_set().len() <= 1 ==> final(self).pending() == old(self).pending().sub(
                old(self).trial_set(),
            ),
            match old(self).state {
                PassControllerState::InitialCollection { candidates } => if candidates@.len()
                    >= 2 {
                    final(self).state matches PassControllerState::Bisecting { current, worklist }
                        && current.deep_view() == candidates.deep_view().take(
                        candidates@.len() as int / 2,
                    ) && worklist@.len() == 1 && worklist@[0].deep_view()
                        == candidates.deep_view().skip(candidates@.len() as int / 2)
                } else {
                    final(self).finished()
                },
                PassControllerState::Bisecting { current, worklist } => if current@.len() >= 2 {
                    final(self).state matches PassControllerState::Bisecting {
                        current: c2,
                        worklist: w2,
                    } && c2.deep_view() == current.deep_view().take(current@.len() as int / 2)
                        && w2@.len() == worklist@.len() + 1 && w2@.take(worklist@.len() as int)
                        == worklist@ && w2@.last().deep_view() == current.deep_view().skip(
                        current@.len() as int / 2,
                    )
                } else {
                    if worklist@.len() == 0 {
                        final(self).finished()
                    } else {
                        final(self).state matches PassControllerState::Bisecting {
                            current: c2,
                            worklist: w2,
                        } && c2.deep_view() == worklist@.last().deep_view() && w2@
                            == worklist@.drop_last()
                    }
                },
                PassControllerState::Success => false,
            },
    {
        let mut st = PassControllerState::Success;
        core::mem::swap(&mut st, &mut self.state);
        match st {
            PassControllerState::InitialCollection { mut candidates } => {
                let ghost cs = candidates.deep_view();
                if candidates.len() >= 2 {
                    let half = candidates.len() / 2;
                    let second = candidates.split_off(half);
                    let ghost cur_dv = candidates.deep_view();
                    let ghost sec_dv = second.deep_view();
                    let ghost sec_vec = second;
                    let mut worklist: Vec<Vec<AstPath>> = Vec::new();
                    worklist.push(second);
                    let ghost wl = worklist@;
                    self.state = PassControllerState::Bisecting { current: candidates, worklist };
                    proof {
                        broadcast use group_to_multiset_ensures;
                        broadcast use vstd::multiset::group_multiset_axioms;

                        assert(cur_dv =~= cs.take(half as int));
                        assert(sec_dv =~= cs.skip(half as int));
                        assert(wl.drop_last() =~= Seq::<Vec<AstPath>>::empty());
                        assert(wl.last() == sec_vec);
                        assert(wl_mset(wl) == wl_mset(wl.drop_last()).add(sec_dv.to_multiset()));
                        assert(wl_weight(wl) == wl_weight(wl.drop_last()) + subset_weight(
                            sec_vec@.len() as nat,
                        ));
                        lemma_split_pending(cs, half as int);
                        assert(self.pending() =~= old(self).pending());
                    }
                } else {
                    self.state = PassControllerState::Success;
                    proof {
                        broadcast use group_to_multiset_ensures;

                        assert(self.pending() =~= old(self).pending().sub(old(self).trial_set()));
                    }
                }
            },
            PassControllerState::Bisecting { mut current, mut worklist } => {
                let ghost cur = current.deep_view();
                let ghost old_wl = worklist@;
                if current.len() >= 2 {
                    let half = current.len() / 2;
                    let second = current.split_off(half);
                    let ghost cur_dv = current.deep_view();
                    let ghost sec_dv = second.deep_view();
                    let ghost sec_vec = second;
                    worklist.push(second);
                    let ghost wl = worklist@;
                    self.state = PassControllerState::Bisecting { current, worklist };
                    proof {
                        broadcast use group_to_multiset_ensures;
                        broadcast use vstd::multiset::group_multiset_axioms;

                        assert(cur_dv =~= cur.take(half as int));
                        assert(sec_dv =~= cur.skip(half as int));
                        assert(wl =~= old_wl.push(sec_vec));
                        assert(wl.drop_last() =~= old_wl);
                        assert(wl.last() == sec_vec);
                        assert(wl_mset(wl) == wl_mset(old_wl).add(sec_dv.to_multiset()));
                        assert(wl_weight(wl) == wl_weight(old_wl) + subset_weight(
                            sec_vec@.len() as nat,
                        ));
                        lemma_split_pending(cur, half as int);
                        assert(self.pending() =~= old(self).pending());
                    }
                } else {
                    match worklist.pop() {
                        Some(next) => {
                            self.state = PassControllerState::Bisecting {
                                current: next,
                                worklist,
                            };
                        },
                        None => {
                            self.state = PassControllerState::Success;
                        },
                    }
                    proof {
                        broadcast use group_to_multiset_ensures;

                        if old_wl.len() > 0 {
                            assert(wl_mset(old_wl) == wl_mset(old_wl.drop_last()).add(
                                old_wl.last().deep_view().to_multiset(),
                            ));
                            assert(wl_weight(old_wl) == wl_weight(old_wl.drop_last())
                                + subset_weight(old_wl.last()@.len() as nat));
                        }
                        assert(self.pending() =~= old(self).pending().sub(old(self).trial_set()));
                    }
                }
            },
            PassControllerState::Success => {
                proof {
                    assert(false);
                }
            },
        }
    }

    /// The pass changed nothing in this trial. Legal only when the pass had
    /// nothing to do (no candidate was collected) or the run is already over;
    /// the driver reports a broken pass otherwise.
    pub fn no_change(&mut self)
        requires
            old(self).inv(),
            old(self).finished() || (old(self).state matches PassControllerState::InitialCollection {
                candidates,
            } && candidates@.len() == 0),
        ensures
            final(self).inv(),
            final(self).finished(),
            final(self).measure() <= old(self).measure(),
    {
        self.state = PassControllerState::Success;
    }
}

/// Splitting a candidate sequence at any point neither loses nor invents
/// paths: the two halves together carry exactly the original multiset.
proof fn lemma_split_pending<A>(s: Seq<A>, at: int)
    requires
        0 <= at <= s.len(),
    ensures
        s.to_multiset() == s.take(at).to_multiset().add(s.skip(at).to_multiset()),
{
    assert(s =~= s.take(at) + s.skip(at));
    lemma_multiset_commutative(s.take(at), s.skip(at));
    assert(s.to_multiset() =~= s.take(at).to_multiset().add(s.skip(at).to_multiset()));
}

/// Termination: every verdict strictly decreases `measure` (see the
/// `ensures` of `reproduces` and `does_not_reproduce`), and the measure of a
/// well-formed state is at most 2p + 1 for p pending paths, so a controller
/// that collected n candidates reaches `Success` within 2n + 1 trials.
pub proof fn lemma_trial_bound(c: PassController)
    requires
        c.inv(),
    ensures
        c.measure() <= 2 * c.pending().len() + 1,
{
    broadcast use group_to_multiset_ensures;

    match c.state {
        PassControllerState::InitialCollection { candidates } => {
            assert(candidates.deep_view().to_multiset().len() == candidates.deep_view().len());
        },
        PassControllerState::Bisecting { current, worklist } => {
            lemma_wl_weight_bound(worklist@);
            assert(current.deep_view().to_multiset().len() == current.deep_view().len());
            vstd::multiset::axiom_len_add(
                current.deep_view().to_multiset(),
                wl_mset(worklist@),
            );
        },
        PassControllerState::Success => {},
    }
}

/// The worklist's weight never exceeds twice the number of paths it holds.
proof fn lemma_wl_weight_bound(w: Seq<Vec<AstPath>>)
    ensures
        wl_weight(w) <= 2 * wl_mset(w).len(),
    decreases w.len(),
{
    broadcast use group_to_multiset_ensures;

    if w.len() == 0 {
    } else {
        lemma_wl_weight_bound(w.drop_last());
        assert(w.last().deep_view().to_multiset().len() == w.last().deep_view().len());
        vstd::multiset::axiom_len_add(
            wl_mset(w.drop_last()),
            w.last().deep_view().to_multiset(),
        );
    }
}

/// Bisection coverage, step form: the subset a trial modifies is always part
/// of the pending pool, and (per the `ensures` of `reproduces` and
/// `does_not_reproduce`) paths leave the pool only via `sub(trial_set())`,
/// that is, only in a trial whose tested subset contained them.
pub proof fn lemma_trial_set_pending(c: PassController)
    requires
        c.inv(),
    ensures
        forall|p: PathModel| #[trigger] c.trial_set().count(p) <= c.pending().count(p),
{
    broadcast use vstd::multiset::group_multiset_axioms;

    match c.state {
        PassControllerState::InitialCollection { .. } => {},
        PassControllerState::Bisecting { .. } => {},
        PassControllerState::Success => {},
    }
}

} // verus!

