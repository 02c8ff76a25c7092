use vstd::prelude::*;

verus! {

/// Per-round aggregator: "did any file commit a change this round?"
///
/// Reset (rebuilt) at the start of every round; flipped to dirty by
/// [`crate::files::FileChange::commit`]; read by the driver after the round.
pub struct Changes {
    any_change: bool,
}

impl Changes {
    /// Whether some file has committed a change this round.
    pub closed spec fn dirty(self) -> bool {
        self.any_change
    }

    /// Records that a file committed a change.
    pub fn mark_changed(&mut self)
        ensures
            final(self).dirty(),
    {
        self.any_change = true;
    }

    /// Whether any file committed a change this round.
    pub fn had_changes(&self) -> (r: bool)
        ensures
            r == self.dirty(),
    {
        self.any_change
    }
}

impl Default for Changes {
    /// A fresh, clean aggregator for a new round.
    fn default() -> (c: Self)
        ensures
            !c.dirty(),
    {
        Changes { any_change: false }
    }
}

} // verus!
