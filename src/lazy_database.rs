use vstd::prelude::*;
use vstd::string::*;

use crate::error::LDBError;
use crate::file_wrapper::FileWrapper;
use crate::fs_action::FsAction;
use crate::lazy_container::LazyContainer;
use crate::lazy_data::{leaf, type_error, LazyData};
use crate::lazy_type::{kind_of_tag, tag_of, LazyType};
use crate::path::{join, join_path, with_ext, with_extension};
use crate::version::{accepts, current_version, Version};

verus! {

/// The version header of the database root `dir`.
pub open spec fn meta_of(dir: Seq<char>) -> Seq<char> {
    join(dir, seq!['.', 'm', 'e', 't', 'a'])
}

/// The bytes of a version header: a `Binary` leaf of the three numbers.
pub open spec fn version_leaf(v: Version) -> Seq<u8> {
    leaf(LazyType::Binary, seq![v.major, v.minor, v.build])
}

/// The version that a well-formed header `b` holds.
pub open spec fn stored_version(b: Seq<u8>) -> Version {
    Version { major: b[1], minor: b[2], build: b[3] }
}

/// How opening the root `dir` ends, given the bytes `b` of its version header.
pub open spec fn meta_outcome(b: Seq<u8>, r: Result<LazyDB, LDBError>, dir: Seq<char>) -> bool {
    &&& b.len() == 0 ==> r == Err::<LazyDB, LDBError>(LDBError::EndOfStream)
    &&& b.len() > 0 && kind_of_tag(b[0]) is None ==> r == Err::<LazyDB, LDBError>(
        LDBError::InvalidLazyType(b[0]),
    )
    &&& b.len() > 0 && kind_of_tag(b[0]) is Some && b[0] != tag_of(LazyType::Binary) ==> type_error(
        r,
        kind_of_tag(b[0])->Some_0,
        "Binary"@,
    )
    &&& b.len() > 0 && b[0] == tag_of(LazyType::Binary) && b.len() != 4 ==> (r matches Err(
        LDBError::InvalidMetaVersion(p),
    ) && p@ == meta_of(dir))
    &&& b.len() == 4 && b[0] == tag_of(LazyType::Binary) && !accepts(
        current_version(),
        stored_version(b),
    ) ==> r == Err::<LazyDB, LDBError>(LDBError::IncompatibleVersion(b[1], b[2], b[3]))
    &&& b.len() == 4 && b[0] == tag_of(LazyType::Binary) && accepts(
        current_version(),
        stored_version(b),
    ) ==> r is Ok && r->Ok_0.path@ == dir && !r->Ok_0.compressed
}

/// The working directory that belongs to the database `path`.
pub open spec fn dir_of(path: Seq<char>) -> Seq<char> {
    with_ext(path, seq!['m', 'o', 'd', 'b'])
}

/// The archive that belongs to the database `path`.
pub open spec fn archive_of(path: Seq<char>) -> Seq<char> {
    with_ext(path, seq!['l', 'd', 'b'])
}

/// The paths that compiling or decompiling a database involves.
pub struct ArchivePlan {
    /// The working directory.
    pub dir: String,
    /// The compressed archive.
    pub archive: String,
}

/// A database root: a container whose version header has been checked, in
/// compressed mode when it belongs to an archive that it is compiled back into
/// when released.
pub struct LazyDB {
    pub path: String,
    pub compressed: bool,
}

impl LazyDB {
    /// The version header of the root `dir`.
    pub fn meta_path(dir: &str) -> (r: String)
        ensures
            r@ == meta_of(dir@),
    {
        proof {
            reveal_strlit(".meta");
        }
        join_path(dir, ".meta")
    }

    /// The working directory of the database `path`.
    pub fn dir_path(path: &str) -> (r: String)
        requires
            path@.len() < 0x7fff_ffff_ffff_ffff,
        ensures
            r@ == dir_of(path@),
    {
        proof {
            reveal_strlit("modb");
        }
        with_extension(path, "modb")
    }

    /// Creates or opens the database root `path`: the directory is created
    /// unless `is_dir`, and the current version header is written unless
    /// `meta_is_file` says that one is there; an existing one is not checked.
    pub fn init(path: &str, is_dir: bool, meta_is_file: bool) -> (r: (LazyDB, Vec<FsAction>))
        ensures
            r.0.path@ == path@,
            !r.0.compressed,
            r.1@.len() == (if is_dir { 0int } else { 1int }) + (if meta_is_file { 0int } else { 1int }),
            !is_dir ==> r.1@[0] is CreateDirAll && r.1@[0]->CreateDirAll_0@ == path@,
            !meta_is_file ==> r.1@.last() is WriteFile && r.1@.last()->WriteFile_0@ == meta_of(path@)
                && r.1@.last()->WriteFile_1@ == version_leaf(current_version()),
    {
        let mut acts: Vec<FsAction> = Vec::new();
        if !is_dir {
            acts.push(FsAction::CreateDirAll(path.to_string()));
        }
        if !meta_is_file {
            let meta = LazyDB::meta_path(path);
            let mut w = FileWrapper::new_writer(meta.as_str());
            let v = Version::current();
            let numbers: Vec<u8> = vec![v.major, v.minor, v.build];
            let _ = LazyData::new_binary(&mut w, numbers.as_slice());
            let mut written = w.finish();
            assert(numbers@ =~= seq![v.major, v.minor, v.build]);
            acts.append(&mut written);
        }
        (LazyDB { path: path.to_string(), compressed: false }, acts)
    }

    /// Creates or opens the working directory of the database `path` (its
    /// extension replaced by `modb`), in compressed mode. `is_dir` and
    /// `meta_is_file` describe that directory and its version header.
    pub fn init_db(path: &str, is_dir: bool, meta_is_file: bool) -> (r: (LazyDB, Vec<FsAction>))
        requires
            path@.len() < 0x7fff_ffff_ffff_ffff,
        ensures
            r.0.path@ == dir_of(path@),
            r.0.compressed,
            r.1@.len() == (if is_dir { 0int } else { 1int }) + (if meta_is_file { 0int } else { 1int }),
            !is_dir ==> r.1@[0] is CreateDirAll && r.1@[0]->CreateDirAll_0@ == dir_of(path@),
            !meta_is_file ==> r.1@.last() is WriteFile && r.1@.last()->WriteFile_0@ == meta_of(
                dir_of(path@),
            ) && r.1@.last()->WriteFile_1@ == version_leaf(current_version()),
    {
        let dir = LazyDB::dir_path(path);
        let (mut db, acts) = LazyDB::init(dir.as_str(), is_dir, meta_is_file);
        db.compressed = true;
        (db, acts)
    }

    /// Opens the existing database root `path` for reading and writing, given
    /// whether it is a directory and the contents of its version header
    /// (`None` where there is no such file). The header must be a `Binary`
    /// leaf of three bytes, of a version that the running one accepts.
    pub fn load_dir(path: &str, is_dir: bool, meta: Option<Vec<u8>>) -> (r: Result<LazyDB, LDBError>)
        ensures
            !is_dir ==> (r matches Err(LDBError::DirNotFound(p)) && p@ == path@),
            is_dir && meta is None ==> (r matches Err(LDBError::FileNotFound(p)) && p@ == meta_of(
                path@,
            )),
            is_dir && meta is Some ==> meta_outcome(meta->Some_0@, r, path@),
    {
        if !is_dir {
            return Err(LDBError::DirNotFound(path.to_string()));
        }
        let meta_path = LazyDB::meta_path(path);
        let data = match LazyData::load(meta_path.as_str(), meta) {
            Ok(d) => d,
            Err(e) => return Err(e),
        };
        let numbers = match data.collect_binary() {
            Ok(v) => v,
            Err(e) => return Err(e),
        };
        if numbers.len() != 3 {
            return Err(LDBError::InvalidMetaVersion(meta_path));
        }
        let stored = Version::new(numbers[0], numbers[1], numbers[2]);
        if !Version::current().is_compatible(&stored) {
            return Err(LDBError::IncompatibleVersion(numbers[0], numbers[1], numbers[2]));
        }
        Ok(LazyDB { path: path.to_string(), compressed: false })
    }

    /// Where loading the archive `path` starts: nothing to unpack when its
    /// working directory already exists (`dir_exists`), which is loaded as it
    /// is; otherwise the archive, which must be a file (`archive_is_file`), is
    /// unpacked first, by the plan that [`LazyDB::decompile`] gives.
    pub fn load_db_plan(path: &str, dir_exists: bool, archive_is_file: bool) -> (r: Result<Option<ArchivePlan>, LDBError>)
        requires
            path@.len() < 0x7fff_ffff_ffff_ffff,
        ensures
            dir_exists ==> r == Ok::<Option<ArchivePlan>, LDBError>(None),
            !dir_exists && !archive_is_file ==> (r matches Err(LDBError::FileNotFound(p)) && p@
                == path@),
            !dir_exists && archive_is_file ==> r is Ok && r->Ok_0 is Some && r->Ok_0->Some_0.dir@
                == dir_of(path@)
                && r->Ok_0->Some_0.archive@ == path@,
    {
        if dir_exists {
            return Ok(None);
        }
        match LazyDB::decompile(path, archive_is_file) {
            Ok(plan) => Ok(Some(plan)),
            Err(e) => Err(e),
        }
    }

    /// Opens the working directory of the archive `path` once it is there;
    /// `unpacked` says whether it was unpacked from the archive for this
    /// handle, which then is in compressed mode. `is_dir` and `meta` describe
    /// the working directory as for [`LazyDB::load_dir`].
    pub fn load_db(path: &str, unpacked: bool, is_dir: bool, meta: Option<Vec<u8>>) -> (r: Result<LazyDB, LDBError>)
        requires
            path@.len() < 0x7fff_ffff_ffff_ffff,
        ensures
            !is_dir ==> (r matches Err(LDBError::DirNotFound(p)) && p@ == dir_of(path@)),
            is_dir && meta is None ==> (r matches Err(LDBError::FileNotFound(p)) && p@ == meta_of(
                dir_of(path@),
            )),
            is_dir && meta is Some ==> meta_outcome(
                meta->Some_0@,
                match r {
                    Ok(db) => Ok(LazyDB { path: db.path, compressed: false }),
                    Err(e) => Err(e),
                },
                dir_of(path@),
            ),
            r is Ok ==> r->Ok_0.compressed == unpacked,
    {
        let dir = LazyDB::dir_path(path);
        match LazyDB::load_dir(dir.as_str(), is_dir, meta) {
            Ok(mut db) => {
                db.compressed = unpacked;
                Ok(db)
            },
            Err(e) => Err(e),
        }
    }

    /// The root container, which must still be a directory (`is_dir`).
    pub fn as_container(&self, is_dir: bool) -> (r: Result<LazyContainer, LDBError>)
        ensures
            is_dir ==> r is Ok && r->Ok_0.path@ == self.path@,
            !is_dir ==> (r matches Err(LDBError::DirNotFound(p)) && p@ == self.path@),
    {
        LazyContainer::load(self.path.as_str(), is_dir)
    }

    /// The paths of compiling this root: its files are packed and compressed
    /// (see [`crate::lazy_archive::compile_archive`]) into the `ldb` archive
    /// beside it. The working directory stays.
    pub fn compile(&self) -> (r: ArchivePlan)
        requires
            self.path@.len() < 0x7fff_ffff_ffff_ffff,
        ensures
            r.dir@ == self.path@,
            r.archive@ == archive_of(self.path@),
    {
        proof {
            reveal_strlit("ldb");
        }
        ArchivePlan { dir: self.path.clone(), archive: with_extension(self.path.as_str(), "ldb") }
    }

    /// The paths of decompiling the archive `path`, which must be a file
    /// (`is_file`): it is decompressed (see
    /// [`crate::lazy_archive::decompile_archive`]) and its files unpacked into
    /// the `modb` working directory. The archive stays.
    pub fn decompile(path: &str, is_file: bool) -> (r: Result<ArchivePlan, LDBError>)
        requires
            path@.len() < 0x7fff_ffff_ffff_ffff,
        ensures
            !is_file ==> (r matches Err(LDBError::FileNotFound(p)) && p@ == path@),
            is_file ==> r is Ok && r->Ok_0.dir@ == dir_of(path@) && r->Ok_0.archive@ == path@,
    {
        if !is_file {
            return Err(LDBError::FileNotFound(path.to_string()));
        }
        Ok(ArchivePlan { dir: LazyDB::dir_path(path), archive: path.to_string() })
    }

    /// What releasing the handle calls for, given whether compiling it
    /// succeeded: a compressed handle whose archive was written gives up its
    /// working directory; in every other case nothing is deleted.
    pub fn release(&self, compiled: bool) -> (r: Vec<FsAction>)
        ensures
            self.compressed && compiled ==> r@.len() == 1 && r@[0] is RemoveDirAll
                && r@[0]->RemoveDirAll_0@ == self.path@,
            !(self.compressed && compiled) ==> r@.len() == 0,
    {
        if self.compressed && compiled {
            vec![FsAction::RemoveDirAll(self.path.clone())]
        } else {
            Vec::new()
        }
    }
}

/// Version gate: a header whose major version differs from the running one is
/// refused with `IncompatibleVersion`, whatever its other numbers.
pub proof fn lemma_version_gate(v: Version, r: Result<LazyDB, LDBError>, dir: Seq<char>)
    requires
        v.major != current_version().major,
        meta_outcome(version_leaf(v), r, dir),
    ensures
        r == Err::<LazyDB, LDBError>(LDBError::IncompatibleVersion(v.major, v.minor, v.build)),
{
    let b = version_leaf(v);
    assert(b.len() == 4);
    assert(stored_version(b) == v);
}

/// The header that initialisation writes opens: a root made by `init` loads.
pub proof fn lemma_init_header_loads(r: Result<LazyDB, LDBError>, dir: Seq<char>)
    requires
        meta_outcome(version_leaf(current_version()), r, dir),
    ensures
        r is Ok && r->Ok_0.path@ == dir,
{
    let b = version_leaf(current_version());
    assert(b.len() == 4);
    assert(stored_version(b) == current_version());
}

} // verus!
