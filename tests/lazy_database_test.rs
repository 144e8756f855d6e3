use lazy_db::error::LDBError;
use lazy_db::fs_action::FsAction;
use lazy_db::lazy_archive::{build_tar, compile_archive, compress_file, decompile_archive, decompress_file};
use lazy_db::lazy_container::LazyContainer;
use lazy_db::lazy_data::LazyData;
use lazy_db::lazy_database::LazyDB;
use lazy_db::path::with_extension;
use std::collections::HashMap;
use std::io::Read;

/// The files and directories of a test tree, kept in memory.
struct MemFs {
    files: HashMap<String, Vec<u8>>,
    dirs: Vec<String>,
}

impl MemFs {
    fn new() -> MemFs {
        MemFs { files: HashMap::new(), dirs: Vec::new() }
    }

    fn apply(&mut self, acts: Vec<FsAction>) {
        for a in acts {
            match a {
                FsAction::CreateDirAll(p) => self.dirs.push(p),
                FsAction::WriteFile(p, b) => {
                    self.files.insert(p, b);
                }
                FsAction::Rename(from, to) => {
                    if let Some(b) = self.files.remove(&from) {
                        self.files.insert(to, b);
                    }
                }
                FsAction::RemoveFile(p) => {
                    self.files.remove(&p);
                }
                FsAction::RemoveDirAll(p) => {
                    let prefix = format!("{}/", p);
                    self.dirs.retain(|d| *d != p && !d.starts_with(&prefix));
                    self.files.retain(|f, _| !f.starts_with(&prefix));
                }
            }
        }
    }

    fn is_dir(&self, p: &str) -> bool {
        self.dirs.iter().any(|d| d == p)
    }

    fn contents(&self, p: &str) -> Option<Vec<u8>> {
        self.files.get(p).cloned()
    }
}


impl MemFs {
    fn mkdirs_for(&mut self, file: &str) {
        let mut end = 0;
        while let Some(i) = file[end..].find('/') {
            end += i;
            let d = file[..end].to_string();
            if !self.is_dir(&d) {
                self.dirs.push(d);
            }
            end += 1;
        }
    }

    /// The files under `dir`, paths relative to `dir`, in name order.
    fn tree(&self, dir: &str) -> Vec<(String, Vec<u8>)> {
        let prefix = format!("{}/", dir);
        let mut names: Vec<&String> = self.files.keys().filter(|f| f.starts_with(&prefix)).collect();
        names.sort();
        names.into_iter().map(|n| (n[prefix.len()..].to_string(), self.files[n].clone())).collect()
    }

    /// Unpacks a tar stream into `dir`.
    fn unpack(&mut self, tar_bytes: &[u8], dir: &str) {
        self.dirs.push(dir.to_string());
        let mut archive = tar::Archive::new(tar_bytes);
        for entry in archive.entries().unwrap() {
            let mut entry = entry.unwrap();
            let rel = entry.path().unwrap().to_string_lossy().to_string();
            let mut data = Vec::new();
            entry.read_to_end(&mut data).unwrap();
            let full = format!("{}/{}", dir, rel);
            self.mkdirs_for(&full);
            self.files.insert(full, data);
        }
    }

    /// Compiles the database into its archive, as a handle's owner does.
    fn compile(&mut self, db: &LazyDB) -> String {
        let plan = db.compile();
        let archive = compile_archive(&self.tree(&plan.dir)).unwrap();
        self.files.insert(plan.archive.clone(), archive);
        plan.archive
    }

    /// Loads the archive `path`, unpacking it unless its working directory exists.
    fn load_db(&mut self, path: &str) -> Result<LazyDB, LDBError> {
        let dir = LazyDB::dir_path(path);
        let dir_exists = self.is_dir(&dir);
        let plan = LazyDB::load_db_plan(path, dir_exists, self.contents(path).is_some())?;
        if let Some(plan) = &plan {
            let archive = self.contents(&plan.archive).unwrap();
            let packed = decompile_archive(&archive)?;
            self.unpack(&packed, &plan.dir);
        }
        let meta = self.contents(&LazyDB::meta_path(&dir));
        LazyDB::load_db(path, plan.is_some(), self.is_dir(&dir), meta)
    }

    fn write_string(&mut self, c: &LazyContainer, key: &str, value: &str) {
        let mut w = c.data_writer(key);
        LazyData::new_string(&mut w, value).unwrap();
        self.apply(w.finish());
    }

    fn read(&self, c: &LazyContainer, key: &str) -> Result<LazyData, LDBError> {
        c.read_data(key, self.contents(&c.child_path(key)))
    }

    fn sub(&mut self, c: &LazyContainer, key: &str) -> LazyContainer {
        let (sub, acts) = c.new_container(key, self.is_dir(&c.child_path(key)));
        self.apply(acts);
        sub
    }

    fn root(&self, db: &LazyDB) -> LazyContainer {
        db.as_container(self.is_dir(&db.path)).unwrap()
    }
}

fn init(fs: &mut MemFs, path: &str) -> LazyDB {
    let meta = LazyDB::meta_path(path);
    let (db, acts) = LazyDB::init(path, fs.is_dir(path), fs.contents(&meta).is_some());
    fs.apply(acts);
    db
}

fn init_db(fs: &mut MemFs, path: &str) -> LazyDB {
    let dir = LazyDB::dir_path(path);
    let meta = LazyDB::meta_path(&dir);
    let (db, acts) = LazyDB::init_db(path, fs.is_dir(&dir), fs.contents(&meta).is_some());
    fs.apply(acts);
    db
}

fn load_dir(fs: &MemFs, path: &str) -> Result<LazyDB, LDBError> {
    LazyDB::load_dir(path, fs.is_dir(path), fs.contents(&LazyDB::meta_path(path)))
}

#[test]
fn lazy_database_database() {
    let mut fs = MemFs::new();
    let path = "tmp/database";
    let og_string = String::from("Hello world!");

    // Writing to the database
    let database = init(&mut fs, path);
    let root = fs.root(&database);
    fs.write_string(&root, "data", &og_string);

    // Read from the database
    let database = load_dir(&fs, path).unwrap();
    let root = fs.root(&database);
    let new_string = fs.read(&root, "data").unwrap().collect_string().unwrap();

    assert_eq!(og_string, new_string);
}

#[test]
fn lazy_database_compile() {
    let mut fs = MemFs::new();
    let path = "tmp/database";
    let og_string = String::from("Hello world!");

    // Writing to the database and compiling
    let database = init_db(&mut fs, path);
    let root = fs.root(&database);
    fs.write_string(&root, "data", &og_string);
    let path = fs.compile(&database);
    assert_eq!(path, "tmp/database.ldb");

    // Read from the database
    let database = fs.load_db(&path).unwrap();
    let root = fs.root(&database);
    let new_string = fs.read(&root, "data").unwrap().collect_string().unwrap();

    assert_eq!(og_string, new_string);
}

#[test]
fn lazy_database_compile_nested() {
    let mut fs = MemFs::new();
    let path = "tmp/database";
    let og_string = String::from("Hello world!");

    // Writing to the database and compiling
    let database = init_db(&mut fs, path);
    let root = fs.root(&database);
    let nested = fs.sub(&root, "nested");
    fs.write_string(&nested, "data", &og_string);
    let path = fs.compile(&database);
    // Releasing the compressed handle gives up its working directory.
    fs.apply(database.release(true));
    assert!(!fs.is_dir("tmp/database.modb"));

    // Read from the database
    let database = fs.load_db(&path).unwrap();
    assert!(database.compressed);
    let root = fs.root(&database);
    let nested = root.read_container("nested", fs.is_dir(&root.child_path("nested"))).unwrap();
    let new_string = fs.read(&nested, "data").unwrap().collect_string().unwrap();

    assert_eq!(og_string, new_string);
}

#[test]
fn lazy_database_archive_round_trip() {
    let mut fs = MemFs::new();
    let database = init_db(&mut fs, "tmp/store");
    let root = fs.root(&database);
    let a = fs.sub(&root, "a");
    let b = fs.sub(&a, "b");
    fs.write_string(&b, "text", "deep value");
    let mut w = a.data_writer("n");
    LazyData::new_i64(&mut w, -99).unwrap();
    fs.apply(w.finish());
    let mut w = root.data_writer("flag");
    LazyData::new_bool(&mut w, true).unwrap();
    fs.apply(w.finish());
    let mut w = root.data_writer("arr");
    LazyData::new_u16_array(&mut w, &[3, 65535, 0]).unwrap();
    fs.apply(w.finish());
    let mut w = root.data_writer("link");
    LazyData::new_link(&mut w, "a/b/text").unwrap();
    fs.apply(w.finish());

    let archive = fs.compile(&database);
    fs.apply(database.release(true));
    assert!(fs.files.keys().all(|f| !f.starts_with("tmp/store.modb/")));

    let database = fs.load_db(&archive).unwrap();
    let root = fs.root(&database);
    let a = root.read_container("a", fs.is_dir(&root.child_path("a"))).unwrap();
    let b = a.read_container("b", fs.is_dir(&a.child_path("b"))).unwrap();
    assert_eq!(fs.read(&b, "text").unwrap().collect_string().unwrap(), "deep value");
    assert_eq!(fs.read(&a, "n").unwrap().collect_i64().unwrap(), -99);
    assert!(fs.read(&root, "flag").unwrap().collect_bool().unwrap());
    assert_eq!(fs.read(&root, "arr").unwrap().collect_u16_array().unwrap(), vec![3, 65535, 0]);
    let target = fs.read(&root, "link").unwrap().collect_link(&database).unwrap();
    let linked = LazyData::load(&target, fs.contents(&target)).unwrap();
    assert_eq!(linked.collect_string().unwrap(), "deep value");
    let meta = fs.contents(&LazyDB::meta_path(&database.path)).unwrap();
    assert_eq!(meta, vec![2, 0, 1, 0]);
}

#[test]
fn lazy_database_version_gate() {
    assert!(matches!(LazyDB::load_dir("db", true, Some(vec![2, 1, 1, 0])), Err(LDBError::IncompatibleVersion(1, 1, 0))));
    assert!(matches!(LazyDB::load_dir("db", true, Some(vec![2, 0, 2, 0])), Err(LDBError::IncompatibleVersion(0, 2, 0))));
    assert!(matches!(LazyDB::load_dir("db", true, Some(vec![2, 0, 1, 1])), Err(LDBError::IncompatibleVersion(0, 1, 1))));
    assert!(LazyDB::load_dir("db", true, Some(vec![2, 0, 0, 9])).is_ok());
    assert!(LazyDB::load_dir("db", true, Some(vec![2, 0, 1, 0])).is_ok());
    assert!(matches!(LazyDB::load_dir("db", true, Some(vec![2, 0, 1])), Err(LDBError::InvalidMetaVersion(p)) if p == "db/.meta"));
    assert!(matches!(LazyDB::load_dir("db", true, Some(vec![1, 0, 1, 0])), Err(LDBError::IncorrectType(_, _))));
    assert!(matches!(LazyDB::load_dir("db", false, None), Err(LDBError::DirNotFound(p)) if p == "db"));
    assert!(matches!(LazyDB::load_dir("db", true, None), Err(LDBError::FileNotFound(p)) if p == "db/.meta"));
}

#[test]
fn lazy_database_init_writes_header_once() {
    let mut fs = MemFs::new();
    let db = init(&mut fs, "x/db");
    assert!(!db.compressed);
    assert_eq!(fs.contents("x/db/.meta").unwrap(), vec![2, 0, 1, 0]);
    let (_, acts) = LazyDB::init("x/db", true, true);
    assert!(acts.is_empty());
    let db = init_db(&mut fs, "x/other");
    assert!(db.compressed);
    assert_eq!(db.path, "x/other.modb");
    assert!(db.release(false).is_empty());
    assert!(LazyDB::init("x/db", true, true).0.release(true).is_empty());
}

#[test]
fn lazy_database_archive_paths() {
    let db = LazyDB::load_dir("x/database.modb", true, Some(vec![2, 0, 1, 0])).unwrap();
    let plan = db.compile();
    assert_eq!(plan.archive, "x/database.ldb");
    assert_eq!(plan.dir, "x/database.modb");
    assert!(matches!(LazyDB::decompile("x/database.ldb", false), Err(LDBError::FileNotFound(_))));
    let plan = LazyDB::decompile("x/database.ldb", true).unwrap();
    assert_eq!(plan.dir, "x/database.modb");
    assert!(LazyDB::load_db_plan("x/database.ldb", true, true).unwrap().is_none());
    assert!(matches!(LazyDB::load_db_plan("x/database.ldb", false, false), Err(LDBError::FileNotFound(_))));
    assert_eq!(with_extension("a/.meta", "x"), "a/.meta.x");
    assert_eq!(with_extension("a.b/c", "d"), "a.b/c.d");
    assert_eq!(with_extension("f.tar.gz", ""), "f.tar");
}

#[test]
fn lazy_database_compression_changes_bytes() {
    let data = vec![7u8; 1000];
    let packed = compress_file(&data).unwrap();
    assert_ne!(packed, data);
    assert!(packed.len() < data.len());
    assert_eq!(decompress_file(&packed).unwrap(), data);
    assert!(matches!(decompress_file(&[1, 2, 3, 4, 5]), Err(LDBError::IOError(_))));
}

#[test]
fn lazy_container_idempotent() {
    let mut fs = MemFs::new();
    let (root, acts) = LazyContainer::init("r", fs.is_dir("r"));
    fs.apply(acts);
    let first = fs.sub(&root, "k");
    let (second, acts) = root.new_container("k", fs.is_dir(&root.child_path("k")));
    assert!(acts.is_empty());
    assert_eq!(first.path, second.path);
    assert_eq!(second.path, "r/k");
}

#[test]
fn lazy_container_not_found() {
    let mut fs = MemFs::new();
    let (root, acts) = LazyContainer::init("r", false);
    fs.apply(acts);
    fs.sub(&root, "dir");
    fs.write_string(&root, "leaf", "v");
    assert!(matches!(fs.read(&root, "missing"), Err(LDBError::FileNotFound(p)) if p == "r/missing"));
    assert!(matches!(fs.read(&root, "dir"), Err(LDBError::FileNotFound(_))));
    assert!(matches!(root.read_container("missing", fs.is_dir("r/missing")), Err(LDBError::DirNotFound(p)) if p == "r/missing"));
    assert!(matches!(root.read_container("leaf", fs.is_dir("r/leaf")), Err(LDBError::DirNotFound(_))));
    assert!(matches!(LazyContainer::load("nowhere", false), Err(LDBError::DirNotFound(_))));
    let acts = root.remove("leaf", false);
    assert!(matches!(&acts[0], FsAction::RemoveFile(p) if p == "r/leaf"));
    fs.apply(acts);
    assert!(fs.contents("r/leaf").is_none());
    let acts = root.remove("dir", true);
    assert!(matches!(&acts[0], FsAction::RemoveDirAll(p) if p == "r/dir"));
}

#[test]
fn lazy_archive_tar_stream() {
    let entries = vec![
        ("a/b".to_string(), vec![1u8, 2, 3]),
        (".meta".to_string(), vec![2u8, 0, 1, 0]),
    ];
    let packed = build_tar(&entries).unwrap();
    assert_eq!(packed.len() % 512, 0);
    let mut archive = tar::Archive::new(packed.as_slice());
    let mut found = Vec::new();
    for entry in archive.entries().unwrap() {
        let mut entry = entry.unwrap();
        let path = entry.path().unwrap().to_string_lossy().to_string();
        let mut data = Vec::new();
        entry.read_to_end(&mut data).unwrap();
        found.push((path, data));
    }
    assert_eq!(found, entries);
    let compiled = compile_archive(&entries).unwrap();
    assert_eq!(decompile_archive(&compiled).unwrap(), packed);
    assert!(matches!(build_tar(&vec![("../up".to_string(), vec![])]), Err(LDBError::IOError(_))));
}
