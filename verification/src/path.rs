use vstd::prelude::*;

verus! {

/// An ordered sequence of name segments identifying a location within one
/// file's syntax tree (the chain of function / method / impl / module names
/// passed on the way down). Two paths are equal iff their segment sequences
/// are equal; they are only meaningful within one file and one pass run.
pub type AstPath = Vec<String>;

/// The mathematical model of a path: its segments, each as a character
/// sequence.
pub type PathModel = Seq<Seq<char>>;

/// True iff the slice and the path have the same segments.
pub fn path_eq(a: &[String], b: &AstPath) -> (r: bool)
    ensures
        r == (a.deep_view() == b.deep_view()),
{
    if a.len() != b.len() {
        assert(a.deep_view().len() != b.deep_view().len());
        return false;
    }
    let n = a.len();
    let mut i: usize = 0;
    while i < n
        invariant
            n == a.len() == b.len(),
            i <= n,
            forall|j: int| 0 <= j < i ==> a.deep_view()[j] == b.deep_view()[j],
        decreases n - i,
    {
        if a[i] != b[i] {
            assert(a.deep_view()[i as int] != b.deep_view()[i as int]);
            return false;
        }
        assert(a.deep_view()[i as int] == b.deep_view()[i as int]);
        i += 1;
    }
    proof {
        assert(a.deep_view() =~= b.deep_view());
    }
    true
}

/// True iff `paths` holds a path with the same segments as `p`.
pub fn paths_contain(paths: &Vec<AstPath>, p: &[String]) -> (r: bool)
    ensures
        r == paths.deep_view().contains(p.deep_view()),
{
    let n = paths.len();
    let mut i: usize = 0;
    while i < n
        invariant
            n == paths.len(),
            i <= n,
            forall|j: int| 0 <= j < i ==> paths.deep_view()[j] != p.deep_view(),
        decreases n - i,
    {
        if path_eq(p, &paths[i]) {
            assert(paths.deep_view()[i as int] == p.deep_view());
            return true;
        }
        i += 1;
    }
    assert(forall|j: int| 0 <= j < paths.deep_view().len() ==> paths.deep_view()[j] != p.deep_view());
    false
}

/// An owned copy of a borrowed path.
pub fn clone_path(p: &[String]) -> (r: AstPath)
    ensures
        r.deep_view() == p.deep_view(),
{
    let n = p.len();
    let mut out: Vec<String> = Vec::new();
    let mut i: usize = 0;
    while i < n
        invariant
            n == p.len(),
            i <= n,
            out.len() == i,
            forall|j: int| 0 <= j < i ==> out.deep_view()[j] == p.deep_view()[j],
        decreases n - i,
    {
        out.push(p[i].clone());
        i += 1;
    }
    proof {
        assert(out.deep_view() =~= p.deep_view());
    }
    out
}

/// Maintains the syntactic path during a tree traversal: before descending
/// into a named scope the traversal pushes the scope's name, and pops it on
/// the way back up. The stack's content at a candidate site is the `AstPath`
/// handed to the controller, so that subset membership is well defined across
/// trials.
pub struct PathTracker {
    segments: Vec<String>,
}

impl PathTracker {
    /// The current path, segment by segment.
    pub closed spec fn view(&self) -> PathModel {
        self.segments.deep_view()
    }

    /// A tracker standing at the root of the file.
    pub fn new() -> (t: PathTracker)
        ensures
            t@ == Seq::<Seq<char>>::empty(),
    {
        let t = PathTracker { segments: Vec::new() };
        proof {
            assert(t.segments.deep_view() =~= Seq::<Seq<char>>::empty());
        }
        t
    }

    /// Enters a named scope.
    pub fn push(&mut self, segment: String)
        ensures
            final(self)@ == old(self)@.push(segment@),
    {
        self.segments.push(segment);
        proof {
            assert(self.segments.deep_view() =~= old(self).segments.deep_view().push(segment@));
        }
    }

    /// Leaves the innermost scope; at the root this does nothing.
    pub fn pop(&mut self)
        ensures
            old(self)@.len() > 0 ==> final(self)@ == old(self)@.drop_last(),
            old(self)@.len() == 0 ==> final(self)@ == old(self)@,
    {
        let _ = self.segments.pop();
        proof {
            if old(self).segments.deep_view().len() > 0 {
                assert(self.segments.deep_view() =~= old(self).segments.deep_view().drop_last());
            } else {
                assert(self.segments.deep_view() =~= old(self).segments.deep_view());
            }
        }
    }

    /// The current path, for a `can_process` query.
    pub fn current(&self) -> (r: &[String])
        ensures
            r.deep_view() == self@,
    {
        let r = self.segments.as_slice();
        proof {
            assert(r.deep_view() =~= self.segments.deep_view());
        }
        r
    }
}

} // verus!
