use vstd::prelude::*;

use crate::buildenv::BuildEnv;
use crate::changes::Changes;
use crate::error::MinimizeError;
use crate::syntree::{clone_tree, parse_of, parse_source};

verus! {

/// One source file of the project: its path, its cached text, and its cached
/// parsed tree. All content updates go through this type, and every update
/// is handed to the build environment before the caches change, so the
/// caches model the file's persisted content.
pub struct SourceFile {
    pub path: String,
    pub text: String,
    pub tree: syn::File,
}

impl SourceFile {
    /// Cache coherence: the cached tree is exactly what the cached text
    /// parses to, so text and tree always describe the same content (and the
    /// persisted content, which every update mirrors).
    pub open spec fn wf(self) -> bool {
        parse_of(self.text@) == Some(self.tree)
    }

    /// Caches `text` (as read from `path` by the caller) together with the
    /// tree it parses to.
    pub fn open(path: String, text: String) -> (r: Result<SourceFile, MinimizeError>)
        ensures
            match r {
                Ok(f) => f.wf() && f.path@ == path@ && f.text@ == text@ && parse_of(text@)
                    == Some(f.tree),
                Err(e) => parse_of(text@) is None && (e matches MinimizeError::Parse { path: p }
                    && p@ == path@),
            },
    {
        match parse_source(text.as_str()) {
            Ok(tree) => Ok(SourceFile { path, text, tree }),
            Err(_) => Err(MinimizeError::Parse { path }),
        }
    }

    /// Prints `new_tree` through the environment's formatter, checks that
    /// the printed text still parses, persists it, and re-caches text and
    /// tree from that persisted form — the formatter's output is the
    /// authority, so the next trial starts from the re-parsed committed
    /// text. A tree the formatter refuses, or output that does not parse,
    /// is a formatting failure; a text the environment cannot persist is an
    /// I/O failure; either way the caches are untouched.
    pub fn write<E: BuildEnv>(&mut self, env: &mut E, new_tree: syn::File) -> (r: Result<
        (),
        MinimizeError,
    >)
        ensures
            final(self).path@ == old(self).path@,
            match r {
                Ok(()) => final(self).wf(),
                Err(e) => *final(self) == *old(self) && match e {
                    MinimizeError::Format { path: p } => p@ == old(self).path@,
                    MinimizeError::Io { path: p } => p@ == old(self).path@,
                    _ => false,
                },
            },
    {
        let text = match env.format(&new_tree) {
            Some(text) => text,
            None => {
                return Err(MinimizeError::Format { path: self.path.clone() });
            },
        };
        let tree = match parse_source(text.as_str()) {
            Ok(tree) => tree,
            Err(_) => {
                return Err(MinimizeError::Format { path: self.path.clone() });
            },
        };
        if env.write_file(&self.path, &text) {
            self.text = text;
            self.tree = tree;
            Ok(())
        } else {
            Err(MinimizeError::Io { path: self.path.clone() })
        }
    }

    /// The path, for diagnostics; touches neither caches nor environment.
    pub fn path_no_fs_interact(&self) -> (r: &String)
        ensures
            r@ == self.path@,
    {
        &self.path
    }

    /// Snapshots the current content into a new scoped change.
    pub fn try_change(&self) -> (c: FileChange)
        requires
            self.wf(),
        ensures
            c.path@ == self.path@,
            c.before_text@ == self.text@,
            c.before_tree == self.tree,
            !c.has_written,
            c.snapshot_wf(),
    {
        FileChange {
            path: self.path.clone(),
            before_text: self.text.clone(),
            before_tree: clone_tree(&self.tree),
            has_written: false,
        }
    }
}

/// A scoped, transactional edit against one `SourceFile`: the pre-edit
/// content is snapshotted at creation, tentative writes go through the
/// environment, and the change ends in exactly one of `commit` (keep the
/// edit and mark the round dirty) or `rollback` (restore the snapshot).
pub struct FileChange {
    pub path: String,
    pub before_text: String,
    pub before_tree: syn::File,
    pub has_written: bool,
}

impl FileChange {
    /// The snapshots describe the same content, so restoring them restores a
    /// coherent file.
    pub open spec fn snapshot_wf(self) -> bool {
        parse_of(self.before_text@) == Some(self.before_tree)
    }

    /// The pre-edit snapshots, for the pass to diff against.
    pub fn before_content(&self) -> (r: (&String, &syn::File))
        ensures
            r.0@ == self.before_text@,
            *r.1 == self.before_tree,
    {
        (&self.before_text, &self.before_tree)
    }

    /// A fresh working tree equal to the pre-edit snapshot, so that every
    /// trial starts from the last committed content.
    pub fn fresh_tree(&self) -> (t: syn::File)
        ensures
            t == self.before_tree,
    {
        clone_tree(&self.before_tree)
    }

    /// Tentatively replaces the file's content with `new_tree`. May be
    /// called more than once; each call replaces the persisted state. The
    /// has-written flag is raised before the environment is consulted, so
    /// that even a partially failed persist is followed by a restore.
    pub fn write<E: BuildEnv>(
        &mut self,
        file: &mut SourceFile,
        env: &mut E,
        new_tree: syn::File,
    ) -> (r: Result<(), MinimizeError>)
        requires
            old(file).path@ == old(self).path@,
        ensures
            final(self).path == old(self).path,
            final(self).before_text == old(self).before_text,
            final(self).before_tree == old(self).before_tree,
            final(self).has_written,
            final(file).path@ == old(file).path@,
            match r {
                Ok(()) => final(file).wf(),
                Err(e) => *final(file) == *old(file) && match e {
                    MinimizeError::Format { path: p } => p@ == old(self).path@,
                    MinimizeError::Io { path: p } => p@ == old(self).path@,
                    _ => false,
                },
            },
    {
        self.has_written = true;
        file.write(env, new_tree)
    }

    /// Transactionality: a change that is not committed puts the pre-change
    /// content back. After a successful rollback the file's content equals
    /// the pre-change snapshot exactly.
    pub fn rollback<E: BuildEnv>(self, file: &mut SourceFile, env: &mut E) -> (r: Result<
        (),
        MinimizeError,
    >)
        requires
            self.has_written,
            self.snapshot_wf(),
            old(file).path@ == self.path@,
        ensures
            final(file).path@ == old(file).path@,
            match r {
                Ok(()) => final(file).text@ == self.before_text@ && final(file).tree
                    == self.before_tree && final(file).wf(),
                Err(e) => *final(file) == *old(file) && (e matches MinimizeError::Io { path: p }
                    && p@ == self.path@),
            },
    {
        if env.write_file(&self.path, &self.before_text) {
            file.text = self.before_text;
            file.tree = self.before_tree;
            Ok(())
        } else {
            Err(MinimizeError::Io { path: self.path })
        }
    }

    /// Keeps the edit: the persisted content stays as last written, and the
    /// round is marked dirty.
    pub fn commit(self, changes: &mut Changes)
        requires
            self.has_written,
        ensures
            final(changes).dirty(),
    {
        changes.mark_changed();
    }
}

/// Opens every discovered file from its text, in order. It succeeds iff
/// every text parses, and fails with the parse error of the first text that
/// does not.
pub fn open_all(inputs: Vec<(String, String)>) -> (r: Result<Vec<SourceFile>, MinimizeError>)
    ensures
        r is Ok <==> (forall|i: int|
            0 <= i < inputs@.len() ==> parse_of(#[trigger] inputs@[i].1@) is Some),
        r matches Ok(files) ==> files@.len() == inputs@.len() && (forall|i: int|
            0 <= i < inputs@.len() ==> (#[trigger] files@[i]).wf() && files@[i].path@
                == inputs@[i].0@ && files@[i].text@ == inputs@[i].1@),
        r matches Err(e) ==> (e matches MinimizeError::Parse { path: p } && exists|i: int|
            0 <= i < inputs@.len() && parse_of(#[trigger] inputs@[i].1@) is None && p@
                == inputs@[i].0@),
{
    let n = inputs.len();
    let mut files: Vec<SourceFile> = Vec::new();
    let mut idx: usize = 0;
    while idx < n
        invariant
            n == inputs@.len(),
            files@.len() == idx,
            idx <= n,
            forall|i: int| 0 <= i < idx ==> (#[trigger] files@[i]).wf() && files@[i].path@
                == inputs@[i].0@ && files@[i].text@ == inputs@[i].1@,
            forall|i: int| 0 <= i < idx ==> parse_of(#[trigger] inputs@[i].1@) is Some,
        decreases n - idx,
    {
        let (path, text) = &inputs[idx];
        let path = path.clone();
        let text = text.clone();
        match SourceFile::open(path, text) {
            Ok(f) => {
                files.push(f);
            },
            Err(e) => {
                proof {
                    assert(parse_of(inputs@[idx as int].1@) is None);
                }
                return Err(e);
            },
        }
        idx += 1;
    }
    Ok(files)
}

} // verus!
