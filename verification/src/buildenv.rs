use vstd::prelude::*;

verus! {

/// The verifier's verdict on the project as last persisted.
pub struct BuildResult {
    pub reproduces: bool,
}

impl BuildResult {
    pub fn new(reproduces: bool) -> (r: BuildResult)
        ensures
            r.reproduces == reproduces,
    {
        BuildResult { reproduces }
    }

    /// Whether the project still exhibits the target outcome.
    pub fn reproduces_issue(&self) -> (r: bool)
        ensures
            r == self.reproduces,
    {
        self.reproduces
    }
}

/// The minimizer's outward face: persisting file contents and invoking the
/// external build/verification tool. The driver assumes nothing about either
/// operation beyond the values they return: a realization may write to a
/// real file system and spawn a compiler, or keep an in-memory project.
pub trait BuildEnv {
    /// Print a tree through the external formatter. `None` means the
    /// formatter refuses the tree; the driver surfaces that as a formatting
    /// failure and the trial is rolled back.
    fn format(&mut self, tree: &syn::File) -> Option<String>;

    /// Persist `text` as the content of `path`. Returns false on failure.
    fn write_file(&mut self, path: &String, text: &String) -> bool;

    /// Run the verifier on the project as last persisted. `Err` means the
    /// tool itself failed to run, not a negative verdict.
    fn build(&mut self) -> Result<BuildResult, ()>;

    /// The external cancellation flag, observed at round boundaries.
    fn cancel_requested(&mut self) -> bool;
}

} // verus!
