use vstd::prelude::*;

verus! {

/// One filesystem step that a decision of the library asks its caller to take.
#[derive(Debug)]
pub enum FsAction {
    /// Create the directory and any missing parents.
    CreateDirAll(String),
    /// Create or truncate the file and write these bytes to it.
    WriteFile(String, Vec<u8>),
    /// Rename the first path to the second.
    Rename(String, String),
    /// Delete the file.
    RemoveFile(String),
    /// Delete the directory and everything under it.
    RemoveDirAll(String),
}

/// The regular files of a directory tree, by path.
pub type FileModel = Map<Seq<char>, Seq<u8>>;

/// `k` is the path `p` or a path inside the directory `p`.
pub open spec fn within(p: Seq<char>, k: Seq<char>) -> bool {
    k == p || (k.len() > p.len() && k.subrange(0, p.len() + 1int) == p.push('/'))
}

/// What one step does to the files it touches.
pub open spec fn apply_action(m: FileModel, a: FsAction) -> FileModel {
    match a {
        FsAction::CreateDirAll(_) => m,
        FsAction::WriteFile(p, b) => m.insert(p@, b@),
        FsAction::Rename(from, to) => if m.contains_key(from@) {
            m.remove(from@).insert(to@, m[from@])
        } else {
            m
        },
        FsAction::RemoveFile(p) => m.remove(p@),
        FsAction::RemoveDirAll(p) => Map::new(
            |k: Seq<char>| m.contains_key(k) && !within(p@, k),
            |k: Seq<char>| m[k],
        ),
    }
}

/// The files after the first `k` steps of a sequence have been taken.
pub open spec fn apply_prefix(m: FileModel, steps: Seq<FsAction>, k: nat) -> FileModel
    decreases k,
{
    if k == 0 || steps.len() == 0 {
        m
    } else if k > steps.len() {
        apply_prefix(m, steps, steps.len())
    } else {
        apply_action(apply_prefix(m, steps, (k - 1) as nat), steps[k - 1])
    }
}

} // verus!
