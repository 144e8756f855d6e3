use vstd::prelude::*;

use crate::error::LDBError;
use crate::file_wrapper::FileWrapper;
use crate::fs_action::FsAction;
use crate::lazy_data::LazyData;
use crate::path::{join, join_path};

verus! {

/// The actions `acts` bring the directory `p` into being, given whether it
/// already `exists`: none when it does, its creation when it does not.
pub open spec fn creates_dir(acts: Seq<FsAction>, p: Seq<char>, exists: bool) -> bool {
    if exists {
        acts.len() == 0
    } else {
        acts.len() == 1 && acts[0] is CreateDirAll && acts[0]->CreateDirAll_0@ == p
    }
}

/// The directories after an action.
pub open spec fn dirs_after(d: Set<Seq<char>>, a: FsAction) -> Set<Seq<char>> {
    match a {
        FsAction::CreateDirAll(p) => d.insert(p@),
        FsAction::RemoveDirAll(p) => d.remove(p@),
        _ => d,
    }
}

/// The directories after a sequence of actions.
pub open spec fn dirs_after_all(d: Set<Seq<char>>, acts: Seq<FsAction>) -> Set<Seq<char>>
    decreases acts.len(),
{
    if acts.len() == 0 {
        d
    } else {
        dirs_after(dirs_after_all(d, acts.drop_last()), acts.last())
    }
}

/// A directory that holds leaves (files) and nested containers (directories).
pub struct LazyContainer {
    pub path: String,
}

impl LazyContainer {
    /// The container at `path`, with the creation of its directory when
    /// `is_dir` says that none stands there yet.
    pub fn init(path: &str, is_dir: bool) -> (r: (LazyContainer, Vec<FsAction>))
        ensures
            r.0.path@ == path@,
            creates_dir(r.1@, path@, is_dir),
    {
        let acts = if is_dir {
            Vec::new()
        } else {
            vec![FsAction::CreateDirAll(path.to_string())]
        };
        (LazyContainer { path: path.to_string() }, acts)
    }

    /// The existing container at `path`; `DirNotFound` unless `is_dir`.
    pub fn load(path: &str, is_dir: bool) -> (r: Result<LazyContainer, LDBError>)
        ensures
            is_dir ==> r is Ok && r->Ok_0.path@ == path@,
            !is_dir ==> (r matches Err(LDBError::DirNotFound(p)) && p@ == path@),
    {
        if !is_dir {
            return Err(LDBError::DirNotFound(path.to_string()));
        }
        Ok(LazyContainer { path: path.to_string() })
    }

    /// The path of the child `key`.
    pub fn child_path(&self, key: &str) -> (r: String)
        ensures
            r@ == join(self.path@, key@),
    {
        join_path(self.path.as_str(), key)
    }

    /// A fresh writer for the leaf `key`, which replaces any leaf there.
    pub fn data_writer(&self, key: &str) -> (r: FileWrapper)
        ensures
            r is Writer,
            r->Writer_path@ == join(self.path@, key@),
            r.written() == Seq::<u8>::empty(),
    {
        let p = self.child_path(key);
        FileWrapper::new_writer(p.as_str())
    }

    /// The leaf `key`, given what stands at its path: the file's contents, or
    /// `None` where there is no regular file (nothing, or a directory).
    pub fn read_data(&self, key: &str, contents: Option<Vec<u8>>) -> (r: Result<LazyData, LDBError>)
        ensures
            contents is None ==> (r matches Err(LDBError::FileNotFound(p)) && p@ == join(
                self.path@,
                key@,
            )),
            contents matches Some(b) ==> {
                &&& b@.len() == 0 ==> r == Err::<LazyData, LDBError>(LDBError::EndOfStream)
                &&& b@.len() > 0 && crate::lazy_type::kind_of_tag(b@[0]) is None ==> r == Err::<
                    LazyData,
                    LDBError,
                >(LDBError::InvalidLazyType(b@[0]))
                &&& b@.len() > 0 && crate::lazy_type::kind_of_tag(b@[0]) is Some ==> r is Ok
                    && r->Ok_0.lazy_type == crate::lazy_type::kind_of_tag(b@[0])->Some_0
                    && r->Ok_0.payload() == b@.drop_first() && r->Ok_0.path@ == join(
                    self.path@,
                    key@,
                )
            },
    {
        let p = self.child_path(key);
        LazyData::load(p.as_str(), contents)
    }

    /// The nested container `key`; `DirNotFound` unless `is_dir` says that a
    /// directory stands at its path.
    pub fn read_container(&self, key: &str, is_dir: bool) -> (r: Result<LazyContainer, LDBError>)
        ensures
            is_dir ==> r is Ok && r->Ok_0.path@ == join(self.path@, key@),
            !is_dir ==> (r matches Err(LDBError::DirNotFound(p)) && p@ == join(self.path@, key@)),
    {
        let p = self.child_path(key);
        LazyContainer::load(p.as_str(), is_dir)
    }

    /// The nested container `key`, created when `is_dir` says that it is not
    /// there yet and loaded when it is.
    pub fn new_container(&self, key: &str, is_dir: bool) -> (r: (LazyContainer, Vec<FsAction>))
        ensures
            r.0.path@ == join(self.path@, key@),
            creates_dir(r.1@, join(self.path@, key@), is_dir),
    {
        if is_dir {
            match self.read_container(key, true) {
                Ok(c) => return (c, Vec::new()),
                Err(_) => {},
            }
        }
        let p = self.child_path(key);
        LazyContainer::init(p.as_str(), is_dir)
    }

    /// The deletion of the child `key`: the whole tree when `is_dir` says that
    /// it is a directory, the file otherwise. Its failure is of no concern.
    pub fn remove(&self, key: &str, is_dir: bool) -> (r: Vec<FsAction>)
        ensures
            r@.len() == 1,
            is_dir ==> r@[0] is RemoveDirAll && r@[0]->RemoveDirAll_0@ == join(self.path@, key@),
            !is_dir ==> r@[0] is RemoveFile && r@[0]->RemoveFile_0@ == join(self.path@, key@),
    {
        let p = self.child_path(key);
        if is_dir {
            vec![FsAction::RemoveDirAll(p)]
        } else {
            vec![FsAction::RemoveFile(p)]
        }
    }
}

/// Creating a nested container is idempotent: once the actions of a first
/// `new_container` have been taken, the directory exists, so a second call,
/// told so, returns the same path and asks for nothing more.
pub proof fn lemma_new_container_idempotent(
    d: Set<Seq<char>>,
    first: Seq<FsAction>,
    second: Seq<FsAction>,
    p: Seq<char>,
)
    requires
        creates_dir(first, p, d.contains(p)),
        creates_dir(second, p, dirs_after_all(d, first).contains(p)),
    ensures
        dirs_after_all(d, first).contains(p),
        second.len() == 0,
{
    if first.len() == 1 {
        assert(first.drop_last() =~= Seq::<FsAction>::empty());
    }
}

} // verus!
