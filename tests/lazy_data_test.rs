use lazy_db::error::LDBError;
use lazy_db::file_wrapper::FileWrapper;
use lazy_db::fs_action::FsAction;
use lazy_db::lazy_container::LazyContainer;
use lazy_db::lazy_data::LazyData;
use lazy_db::lazy_database::LazyDB;
use lazy_db::lazy_type::LazyType;
use std::collections::HashMap;

fn written(w: FileWrapper) -> Vec<u8> {
    match w {
        FileWrapper::Writer { bytes, .. } => bytes,
        FileWrapper::Reader { .. } => panic!("not a writer"),
    }
}

fn leaf_bytes(f: impl FnOnce(&mut FileWrapper) -> Result<(), LDBError>) -> Vec<u8> {
    let mut w = FileWrapper::new_writer("data.ld");
    f(&mut w).unwrap();
    written(w)
}

fn load(bytes: Vec<u8>) -> LazyData {
    LazyData::load("data.ld", Some(bytes)).unwrap()
}

#[test]
fn lazy_data_new_void() {
    let bytes = leaf_bytes(|w| LazyData::new_void(w));
    let lazy_data = load(bytes);
    assert_eq!(lazy_data.lazy_type, LazyType::Void);
}

#[test]
fn lazy_data_string() {
    let og = "Hello world!";
    let bytes = leaf_bytes(|w| LazyData::new_string(w, og));
    assert_eq!(og, load(bytes).collect_string().unwrap());
}

#[test]
fn lazy_data_signed() {
    let og = -1234i32;
    let bytes = leaf_bytes(|w| LazyData::new_i32(w, og));
    assert_eq!(og, load(bytes).collect_i32().unwrap());
}

#[test]
fn lazy_data_unsigned() {
    let og = 3908u32;
    let bytes = leaf_bytes(|w| LazyData::new_u32(w, og));
    assert_eq!(og, load(bytes).collect_u32().unwrap());
}

#[test]
fn lazy_data_f32() {
    let og = 123.234f32;
    let bytes = leaf_bytes(|w| LazyData::new_f32_bits(w, og.to_bits()));
    let new = f32::from_bits(load(bytes).collect_f32_bits().unwrap());
    assert_eq!(og, new);
}

#[test]
fn lazy_data_f64() {
    let og = 123141234.1234f64;
    let bytes = leaf_bytes(|w| LazyData::new_f64_bits(w, og.to_bits()));
    let new = f64::from_bits(load(bytes).collect_f64_bits().unwrap());
    assert_eq!(og, new);
}

#[test]
fn lazy_data_float_bit_patterns_kept() {
    let neg_zero = -0.0f64;
    let bytes = leaf_bytes(|w| LazyData::new_f64_bits(w, neg_zero.to_bits()));
    assert_eq!(load(bytes).collect_f64_bits().unwrap(), neg_zero.to_bits());
    let nan = f32::from_bits(0x7fc0_0001);
    let bytes = leaf_bytes(|w| LazyData::new_f32_bits(w, nan.to_bits()));
    assert_eq!(load(bytes).collect_f32_bits().unwrap(), 0x7fc0_0001);
}

#[test]
fn lazy_data_binary() {
    let og_bin = Box::new([12u8, 234, 48, 128]);
    let bytes = leaf_bytes(|w| LazyData::new_binary(w, og_bin.as_ref()));
    let new_bin = load(bytes).collect_binary().unwrap();
    assert_eq!(*og_bin, *new_bin);
}

#[test]
fn lazy_data_bool() {
    let bytes = leaf_bytes(|w| LazyData::new_bool(w, true));
    let loaded = load(bytes).collect_bool().unwrap();
    assert!(loaded);
    let bytes = leaf_bytes(|w| LazyData::new_bool(w, false));
    assert!(!load(bytes).collect_bool().unwrap());
}

/// The files and directories of a test tree, kept in memory.
struct MemFs {
    files: HashMap<String, Vec<u8>>,
    dirs: Vec<String>,
}

impl MemFs {
    fn new() -> MemFs {
        MemFs { files: HashMap::new(), dirs: Vec::new() }
    }

    fn apply(&mut self, acts: Vec<FsAction>) {
        for a in acts {
            match a {
                FsAction::CreateDirAll(p) => self.dirs.push(p),
                FsAction::WriteFile(p, b) => {
                    self.files.insert(p, b);
                }
                FsAction::Rename(from, to) => {
                    if let Some(b) = self.files.remove(&from) {
                        self.files.insert(to, b);
                    }
                }
                FsAction::RemoveFile(p) => {
                    self.files.remove(&p);
                }
                FsAction::RemoveDirAll(p) => {
                    let prefix = format!("{}/", p);
                    self.dirs.retain(|d| *d != p && !d.starts_with(&prefix));
                    self.files.retain(|f, _| !f.starts_with(&prefix));
                }
            }
        }
    }

    fn is_dir(&self, p: &str) -> bool {
        self.dirs.iter().any(|d| d == p)
    }

    fn contents(&self, p: &str) -> Option<Vec<u8>> {
        self.files.get(p).cloned()
    }
}

#[test]
fn lazy_data_link() {
    let mut fs = MemFs::new();
    let path = "tmp/database";
    let dir = LazyDB::dir_path(path);
    let (database, acts) = LazyDB::init_db(path, fs.is_dir(&dir), false);
    fs.apply(acts);
    let old_data = String::from("Hello world");

    // nested::data = "Hello world"; link = "nested/data"
    let root = database.as_container(fs.is_dir(&database.path)).unwrap();
    let nested_path = root.child_path("nested");
    let (nested, acts) = root.new_container("nested", fs.is_dir(&nested_path));
    fs.apply(acts);
    let mut w = nested.data_writer("data");
    LazyData::new_string(&mut w, &old_data).unwrap();
    fs.apply(w.finish());
    let mut w = root.data_writer("link");
    LazyData::new_link(&mut w, "nested/data").unwrap();
    fs.apply(w.finish());

    // Reading the link
    let link_path = root.child_path("link");
    let link = root.read_data("link", fs.contents(&link_path)).unwrap();
    let target = link.collect_link(&database).unwrap();
    let data = LazyData::load(&target, fs.contents(&target)).unwrap();
    let new_data = data.collect_string().unwrap();

    assert_eq!(old_data, new_data);
}

#[test]
fn lazy_data_type_mismatch() {
    let bytes = leaf_bytes(|w| LazyData::new_u32(w, 7));
    match load(bytes.clone()).collect_i32() {
        Err(LDBError::IncorrectType(k, _)) => assert_eq!(k, LazyType::U32),
        _ => panic!("expected a type error"),
    }
    assert!(matches!(load(bytes.clone()).collect_string(), Err(LDBError::IncorrectType(LazyType::U32, _))));
    assert!(matches!(load(bytes.clone()).collect_bool(), Err(LDBError::IncorrectType(LazyType::U32, _))));
    assert!(matches!(load(bytes).collect_u16_array(), Err(LDBError::IncorrectType(LazyType::U32, _))));
}

#[test]
fn lazy_data_wrong_length() {
    let mut bytes = leaf_bytes(|w| LazyData::new_u64(w, 0x0102_0304_0506_0708));
    bytes.pop();
    assert!(matches!(load(bytes.clone()).collect_u64(), Err(LDBError::InvalidNumberByteLength(7, _))));
    bytes.push(8);
    bytes.push(9);
    assert!(matches!(load(bytes).collect_u64(), Err(LDBError::InvalidNumberByteLength(9, _))));
}

#[test]
fn lazy_data_exact_bytes() {
    assert_eq!(leaf_bytes(|w| LazyData::new_u32(w, 3908)), vec![10, 0, 0, 0x0f, 0x44]);
    assert_eq!(leaf_bytes(|w| LazyData::new_i16(w, -2)), vec![4, 0xff, 0xfe]);
    assert_eq!(leaf_bytes(|w| LazyData::new_i8(w, -128)), vec![3, 0x80]);
    assert_eq!(leaf_bytes(|w| LazyData::new_string(w, "hé")), vec![1, b'h', 0xc3, 0xa9]);
    assert_eq!(leaf_bytes(|w| LazyData::new_void(w)), vec![0]);
    assert_eq!(leaf_bytes(|w| LazyData::new_bool(w, true)), vec![15]);
    assert_eq!(leaf_bytes(|w| LazyData::new_u16_array(w, &[1, 0x0203])), vec![18, 9, 0, 1, 2, 3]);
}

#[test]
fn lazy_data_extremes() {
    let bytes = leaf_bytes(|w| LazyData::new_i128(w, i128::MIN));
    assert_eq!(load(bytes).collect_i128().unwrap(), i128::MIN);
    let bytes = leaf_bytes(|w| LazyData::new_i128(w, i128::MAX));
    assert_eq!(load(bytes).collect_i128().unwrap(), i128::MAX);
    let bytes = leaf_bytes(|w| LazyData::new_u128(w, u128::MAX));
    assert_eq!(load(bytes).collect_u128().unwrap(), u128::MAX);
    let bytes = leaf_bytes(|w| LazyData::new_i64(w, -1));
    assert_eq!(load(bytes).collect_i64().unwrap(), -1);
    let bytes = leaf_bytes(|w| LazyData::new_u8(w, 255));
    assert_eq!(load(bytes).collect_u8().unwrap(), 255);
    let bytes = leaf_bytes(|w| LazyData::new_u16(w, 0xbeef));
    assert_eq!(load(bytes).collect_u16().unwrap(), 0xbeef);
    let bytes = leaf_bytes(|w| LazyData::new_i16(w, -300));
    assert_eq!(load(bytes).collect_i16().unwrap(), -300);
    let bytes = leaf_bytes(|w| LazyData::new_i8(w, -5));
    assert_eq!(load(bytes).collect_i8().unwrap(), -5);
}

#[test]
fn lazy_data_arrays() {
    let og = vec![-3i32, 0, 77, i32::MIN, i32::MAX];
    let bytes = leaf_bytes(|w| LazyData::new_i32_array(w, &og));
    assert_eq!(load(bytes).collect_i32_array().unwrap(), og);
    let og = vec![1u64, u64::MAX, 42];
    let bytes = leaf_bytes(|w| LazyData::new_u64_array(w, &og));
    assert_eq!(load(bytes).collect_u64_array().unwrap(), og);
    let og: Vec<u8> = vec![];
    let bytes = leaf_bytes(|w| LazyData::new_u8_array(w, &og));
    assert_eq!(load(bytes).collect_u8_array().unwrap(), og);
    let og = vec![-1i8, 5];
    let bytes = leaf_bytes(|w| LazyData::new_i8_array(w, &og));
    assert_eq!(load(bytes).collect_i8_array().unwrap(), og);
    let og = vec![-1i16, 5];
    let bytes = leaf_bytes(|w| LazyData::new_i16_array(w, &og));
    assert_eq!(load(bytes).collect_i16_array().unwrap(), og);
    let og = vec![-1i64, 5];
    let bytes = leaf_bytes(|w| LazyData::new_i64_array(w, &og));
    assert_eq!(load(bytes).collect_i64_array().unwrap(), og);
    let og = vec![i128::MIN, 5];
    let bytes = leaf_bytes(|w| LazyData::new_i128_array(w, &og));
    assert_eq!(load(bytes).collect_i128_array().unwrap(), og);
    let og = vec![7u16, 65535];
    let bytes = leaf_bytes(|w| LazyData::new_u16_array(w, &og));
    assert_eq!(load(bytes).collect_u16_array().unwrap(), og);
    let og = vec![7u32, 65536];
    let bytes = leaf_bytes(|w| LazyData::new_u32_array(w, &og));
    assert_eq!(load(bytes).collect_u32_array().unwrap(), og);
    let og = vec![u128::MAX, 0];
    let bytes = leaf_bytes(|w| LazyData::new_u128_array(w, &og));
    assert_eq!(load(bytes).collect_u128_array().unwrap(), og);
}

#[test]
fn lazy_data_array_errors() {
    let bytes = leaf_bytes(|w| LazyData::new_u16_array(w, &[1, 2]));
    assert!(matches!(load(bytes.clone()).collect_u32_array(), Err(LDBError::IncorrectType(LazyType::U16, _))));
    let mut cut = bytes.clone();
    cut.pop();
    assert!(matches!(load(cut).collect_u16_array(), Err(LDBError::InvalidNumberByteLength(3, _))));
    assert!(matches!(load(vec![18]).collect_u16_array(), Err(LDBError::EndOfStream)));
    assert!(matches!(load(vec![18, 77]).collect_u16_array(), Err(LDBError::InvalidLazyType(77))));
}

#[test]
fn lazy_data_load_errors() {
    assert!(matches!(LazyData::load("missing", None), Err(LDBError::FileNotFound(p)) if p == "missing"));
    assert!(matches!(LazyData::load("empty", Some(vec![])), Err(LDBError::EndOfStream)));
    assert!(matches!(LazyData::load("bad", Some(vec![19, 1])), Err(LDBError::InvalidLazyType(19))));
    assert!(matches!(LazyData::load("bad", Some(vec![255])), Err(LDBError::InvalidLazyType(255))));
    assert!(matches!(load(vec![1, 0xff, 0xfe]).collect_string(), Err(LDBError::InvalidUTF8String(b)) if b == vec![0xff, 0xfe]));
    let data = load(vec![2, 9, 8]);
    assert_eq!(data.get_path(), "data.ld");
    assert_eq!(data.collect_binary().unwrap(), vec![9, 8]);
}

#[test]
fn lazy_data_stream_modes() {
    let mut r = FileWrapper::new_reader(vec![1, 2, 3]);
    assert!(matches!(r.write(&[4]), Err(LDBError::CannotWrite)));
    assert!(matches!(LazyData::new_u8(&mut r, 1), Err(LDBError::CannotWrite)));
    assert_eq!(r.read(2).unwrap(), vec![1, 2]);
    assert!(matches!(r.read(2), Err(LDBError::EndOfStream)));
    assert_eq!(r.read_to_end().unwrap(), vec![3]);
    let mut w = FileWrapper::new_writer("out");
    assert!(matches!(w.read(1), Err(LDBError::CannotRead)));
    w.write(&[5, 6]).unwrap();
    let acts = w.finish();
    assert_eq!(acts.len(), 1);
    assert!(matches!(&acts[0], FsAction::WriteFile(p, b) if p == "out" && *b == vec![5, 6]));
}

#[test]
fn lazy_data_container_paths() {
    let c = LazyContainer::load("root", true).unwrap();
    assert_eq!(c.child_path("a"), "root/a");
    let w = c.data_writer("leaf");
    assert!(matches!(w, FileWrapper::Writer { ref path, .. } if path == "root/leaf"));
}

#[test]
fn lazy_data_error_details() {
    assert!(matches!(load(vec![13, 0x42, 0xf6]).collect_f32_bits(), Err(LDBError::InvalidNumberByteLength(2, ref s)) if s == "F32"));
    assert!(matches!(load(vec![14, 1]).collect_f64_bits(), Err(LDBError::InvalidNumberByteLength(1, ref s)) if s == "F64"));
    assert!(matches!(load(vec![8, 1, 2]).collect_bool(), Err(LDBError::IncorrectType(LazyType::U8, ref s)) if s == "Boolean"));
    assert!(matches!(load(vec![1]).collect_u16(), Err(LDBError::IncorrectType(LazyType::String, ref s)) if s == "U16"));
    let mut long = vec![11u8];
    long.extend(vec![0u8; 300]);
    assert!(matches!(load(long).collect_u64(), Err(LDBError::InvalidNumberByteLength(44, _))));
}
