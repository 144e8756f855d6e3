use lazy_db::fs_action::FsAction;
use lazy_db::ofile::{OFile, OFileError};
use std::collections::HashMap;

/// Takes the steps on a map of files, checking after each one that the old or
/// the new content of `path` can still be found whole.
fn commit(files: &mut HashMap<String, Vec<u8>>, acts: Vec<FsAction>, path: &str, old: &[u8], new: &[u8]) {
    for a in acts {
        match a {
            FsAction::WriteFile(p, b) => {
                files.insert(p, b);
            }
            FsAction::Rename(from, to) => {
                let b = files.remove(&from).unwrap();
                files.insert(to, b);
            }
            FsAction::RemoveFile(p) => {
                files.remove(&p);
            }
            other => panic!("unexpected step {:?}", other),
        }
        let at_path = files.get(path).map(|b| b.as_slice());
        let recoverable = at_path == Some(old)
            || at_path == Some(new)
            || (at_path.is_none()
                && files.get(&format!("{}.old", path)).map(|b| b.as_slice()) == Some(old)
                && files.get(&format!("{}.new", path)).map(|b| b.as_slice()) == Some(new));
        assert!(recoverable);
    }
}

fn written(acts: Vec<FsAction>) -> Vec<u8> {
    assert_eq!(acts.len(), 1);
    match acts.into_iter().next().unwrap() {
        FsAction::WriteFile(_, b) => b,
        other => panic!("unexpected step {:?}", other),
    }
}

#[test]
fn isol_ofile_read() {
    let contents: [u8; 16] = [8, 37, 23, 94, 12, 77, 54, 88, 46, 100, 255, 233, 142, 157, 177, 200];

    let mut ofile = OFile::new("test_file.bin", Some(contents.to_vec()));
    for b in contents {
        let read = ofile.read().unwrap();
        assert_eq!(b, read);
    }
    assert!(matches!(ofile.read(), Err(OFileError::EndOfStream)));
    assert!(ofile.finish().is_empty());
}

#[test]
fn isol_ofile_write() {
    let contents: [u8; 16] = [8, 37, 23, 94, 12, 77, 54, 88, 46, 100, 255, 233, 142, 157, 177, 200];

    let mut ofile = OFile::new("test_file.bin", None);
    for b in contents {
        ofile.write(b).unwrap();
    }
    let new_contents = written(ofile.finish());
    for (i, b) in contents.iter().enumerate() {
        println!("og: {}, read: {}", b, new_contents[i]);
        assert_eq!(*b, new_contents[i]);
    }
}

#[test]
fn ofile_read_on_writer() {
    let mut ofile = OFile::new("w.bin", None);
    assert!(matches!(ofile.read(), Err(OFileError::CannotReadFile(p)) if p == "w.bin"));
    ofile.skip(3).unwrap();
    ofile.write(1).unwrap();
    assert_eq!(written(ofile.finish()), vec![0, 0, 0, 1]);
}

#[test]
fn ofile_modify_in_place() {
    let original = vec![1u8, 12, 32, 48, 96, 34, 87, 26];
    let mut ofile = OFile::new("to_modify.bin", Some(original.clone()));
    // Replace bytes 2 and 3, each after reading it, and keep the rest.
    ofile.read().unwrap();
    ofile.read().unwrap();
    ofile.read().unwrap();
    ofile.write(64).unwrap();
    ofile.read().unwrap();
    ofile.write(96).unwrap();
    ofile.skip(4).unwrap();
    assert!(matches!(ofile.read(), Err(OFileError::EndOfStream)));
    let expected = vec![1u8, 12, 64, 96, 96, 34, 87, 26];

    let mut files = HashMap::new();
    files.insert("to_modify.bin".to_string(), original.clone());
    commit(&mut files, ofile.finish(), "to_modify.bin", &original, &expected);
    assert_eq!(files.len(), 1);
    assert_eq!(files["to_modify.bin"], expected);
}

#[test]
fn ofile_modify_replaces_last_read() {
    let original = vec![5u8, 6, 7, 8];
    let mut ofile = OFile::new("f", Some(original.clone()));
    assert_eq!(ofile.read().unwrap(), 5);
    assert_eq!(ofile.read().unwrap(), 6);
    ofile.write(100).unwrap();
    // Reads go on from the original where the cursor stood.
    assert_eq!(ofile.read().unwrap(), 7);
    ofile.write(101).unwrap();
    assert!(matches!(ofile.skip(5), Err(OFileError::EndOfStream)));
    let expected = vec![5u8, 100, 101, 8];
    let mut files = HashMap::new();
    files.insert("f".to_string(), original.clone());
    commit(&mut files, ofile.finish(), "f", &original, &expected);
    assert_eq!(files["f"], expected);
}

#[test]
fn ofile_write_from_start() {
    let original = vec![9u8, 9];
    let mut ofile = OFile::new("g", Some(original.clone()));
    ofile.write(1).unwrap();
    ofile.skip(2).unwrap();
    let acts = ofile.finish();
    assert_eq!(acts.len(), 4);
    assert!(matches!(&acts[0], FsAction::WriteFile(p, b) if p == "g.new" && *b == vec![1, 9, 9]));
    assert!(matches!(&acts[1], FsAction::Rename(a, b) if a == "g" && b == "g.old"));
    assert!(matches!(&acts[2], FsAction::Rename(a, b) if a == "g.new" && b == "g"));
    assert!(matches!(&acts[3], FsAction::RemoveFile(p) if p == "g.old"));
}

#[test]
fn ofile_skip_reading() {
    let mut ofile = OFile::new("h", Some(vec![1, 2, 3]));
    ofile.skip(2).unwrap();
    assert_eq!(ofile.current, Some(2));
    assert_eq!(ofile.idx, 2);
    assert_eq!(ofile.read().unwrap(), 3);
    assert!(matches!(ofile.skip(1), Err(OFileError::EndOfStream)));
}

#[test]
fn isol_ofile_modify() {
    let original = [1u8, 12, 32, 48, 96, 34, 87, 26];
    let expected: Vec<u8> = original.iter().map(|b| b * 2).collect();

    let mut ofile = OFile::new("to_modify.bin", Some(original.to_vec()));
    for _ in 0..original.len() {
        let read = ofile.read().unwrap();
        ofile.write(read * 2).unwrap();
    }
    let mut files = HashMap::new();
    files.insert("to_modify.bin".to_string(), original.to_vec());
    commit(&mut files, ofile.finish(), "to_modify.bin", &original, &expected);

    let new_contents = &files["to_modify.bin"];
    for (i, b) in expected.iter().enumerate() {
        println!("expected: {}, read: {}", b, new_contents[i]);
        assert_eq!(*b, new_contents[i]);
    }
}

#[test]
fn isol_ofile_modify_in_depth() {
    let original = [1u8, 12, 32, 48, 96, 34, 87, 26];
    let expected = [1u8, 12, 64, 96, 192, 68, 174, 52];

    let mut ofile = OFile::new("to_modify.bin", Some(original.to_vec()));
    for i in 0..original.len() {
        let read = ofile.read().unwrap();
        if i > 1 {
            ofile.write(read * 2).unwrap()
        };
    }
    let mut files = HashMap::new();
    files.insert("to_modify.bin".to_string(), original.to_vec());
    commit(&mut files, ofile.finish(), "to_modify.bin", &original, &expected);

    let new_contents = &files["to_modify.bin"];
    for (i, b) in expected.iter().enumerate() {
        println!("expected: {}, read: {}", b, new_contents[i]);
        assert_eq!(*b, new_contents[i]);
    }
}

#[test]
fn ofile_read_errors_keep_state() {
    let mut ofile = OFile::new("e", Some(vec![4]));
    assert_eq!(ofile.read().unwrap(), 4);
    assert!(matches!(ofile.read(), Err(OFileError::EndOfStream)));
    assert_eq!(ofile.current, Some(4));
    assert_eq!(ofile.idx, 1);
}
