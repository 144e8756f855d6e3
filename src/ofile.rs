use vstd::prelude::*;
use vstd::string::*;

use crate::fs_action::{apply_prefix, FileModel, FsAction};

verus! {

/// Failures of the byte-level file stream.
#[derive(Debug)]
pub enum OFileError {
    /// A read on a stream opened for writing only.
    CannotReadFile(String),
    /// An underlying filesystem failure, with its message.
    IOError(String),
    /// No file at the path.
    FileNotFound(String),
    /// A read past the end of the file.
    EndOfStream,
}

/// Which of the three modes a stream is in.
#[derive(PartialEq, Eq, Structural, Clone, Copy)]
pub enum OMode {
    Read,
    Write,
    Modify,
}

/// The state of a stream: its mode, the contents of the original file and how
/// far they have been consumed, and the bytes destined for the file.
pub struct OFileView {
    pub mode: OMode,
    pub source: Seq<u8>,
    pub pos: nat,
    pub out: Seq<u8>,
}

/// The buffers behind each mode. Reading serves `source` from `pos`; a writer
/// fills `out`; a modifying stream still reads `source` and fills `staged`,
/// which replaces the original file when the stream is finished.
pub enum OFileMode {
    Read { source: Vec<u8>, pos: usize },
    Write { out: Vec<u8> },
    Modify { source: Vec<u8>, pos: usize, staged: Vec<u8> },
}

/// A sequential byte stream over one file, in read, write or modify mode.
pub struct OFile {
    pub file_path: String,
    pub mode: OFileMode,
    /// The byte most recently read or skipped over.
    pub current: Option<u8>,
    /// How many bytes of the original file have been consumed.
    pub idx: u64,
}

/// The sibling file that a modifying stream stages its output in.
pub open spec fn staging_of(p: Seq<char>) -> Seq<char> {
    p + seq!['.', 'n', 'e', 'w']
}

/// The name the original file takes while the staged file replaces it.
pub open spec fn backup_of(p: Seq<char>) -> Seq<char> {
    p + seq!['.', 'o', 'l', 'd']
}

/// The state just after opening: reading an existing file, or writing a new one.
pub open spec fn opened(existing: Option<Seq<u8>>) -> OFileView {
    match existing {
        Some(b) => OFileView { mode: OMode::Read, source: b, pos: 0, out: Seq::empty() },
        None => OFileView { mode: OMode::Write, source: Seq::empty(), pos: 0, out: Seq::empty() },
    }
}

/// One read: the position moves on by one byte while any is left.
pub open spec fn after_read(v: OFileView) -> OFileView {
    if v.mode != OMode::Write && v.pos < v.source.len() {
        OFileView { mode: v.mode, source: v.source, pos: v.pos + 1, out: v.out }
    } else {
        v
    }
}

/// How many consumed bytes the first write on a reading stream replays: all
/// but the last, which the written byte replaces.
pub open spec fn replayed(pos: nat) -> int {
    if pos > 0 { pos - 1 } else { 0 }
}

/// One written byte. The first write on a reading stream turns it into a
/// modifying one whose output starts with the bytes consumed before the one
/// just read; the written byte takes the place of that one.
pub open spec fn after_write(v: OFileView, b: u8) -> OFileView {
    match v.mode {
        OMode::Read => OFileView {
            mode: OMode::Modify,
            source: v.source,
            pos: v.pos,
            out: v.source.subrange(0, replayed(v.pos)).push(b),
        },
        _ => OFileView { mode: v.mode, source: v.source, pos: v.pos, out: v.out.push(b) },
    }
}

/// Skipping `n` bytes: a writer writes `n` zero bytes; a reader moves on, at
/// most to the end; a modifying stream also copies what it moves over.
pub open spec fn after_skip(v: OFileView, n: nat) -> OFileView {
    let end = if v.pos + n <= v.source.len() { v.pos + n } else { v.source.len() as nat };
    match v.mode {
        OMode::Write => OFileView {
            mode: v.mode,
            source: v.source,
            pos: v.pos,
            out: v.out + Seq::new(n, |i: int| 0u8),
        },
        OMode::Read => OFileView { mode: v.mode, source: v.source, pos: end, out: v.out },
        OMode::Modify => OFileView {
            mode: v.mode,
            source: v.source,
            pos: end,
            out: v.out + v.source.subrange(v.pos as int, end as int),
        },
    }
}

/// `k` reads in a row.
pub open spec fn read_n(v: OFileView, k: nat) -> OFileView
    decreases k,
{
    if k == 0 { v } else { after_read(read_n(v, (k - 1) as nat)) }
}

/// The steps that commit a modifying stream of the file `p` whose output is
/// `new`: stage the output, move the original aside, move the staged file in,
/// delete the original.
pub open spec fn modify_commit(steps: Seq<FsAction>, p: Seq<char>, new: Seq<u8>) -> bool {
    &&& steps.len() == 4
    &&& steps[0] is WriteFile && steps[0]->WriteFile_0@ == staging_of(p) && steps[0]->WriteFile_1@
        == new
    &&& steps[1] is Rename && steps[1]->Rename_0@ == p && steps[1]->Rename_1@ == backup_of(p)
    &&& steps[2] is Rename && steps[2]->Rename_0@ == staging_of(p) && steps[2]->Rename_1@ == p
    &&& steps[3] is RemoveFile && steps[3]->RemoveFile_0@ == backup_of(p)
}

/// Whole old or whole new content can be found: at `p`, or, between the two
/// renames, at the backup and staging names.
pub open spec fn recoverable(m: FileModel, p: Seq<char>, old: Seq<u8>, new: Seq<u8>) -> bool {
    ||| m.contains_key(p) && (m[p] == old || m[p] == new)
    ||| !m.contains_key(p) && m.contains_key(backup_of(p)) && m[backup_of(p)] == old
        && m.contains_key(staging_of(p)) && m[staging_of(p)] == new
}

impl View for OFile {
    type V = OFileView;

    open spec fn view(&self) -> OFileView {
        match self.mode {
            OFileMode::Read { source, pos } => OFileView {
                mode: OMode::Read,
                source: source@,
                pos: pos as nat,
                out: Seq::empty(),
            },
            OFileMode::Write { out } => OFileView {
                mode: OMode::Write,
                source: Seq::empty(),
                pos: 0,
                out: out@,
            },
            OFileMode::Modify { source, pos, staged } => OFileView {
                mode: OMode::Modify,
                source: source@,
                pos: pos as nat,
                out: staged@,
            },
        }
    }
}

impl OFile {
    /// The position never passes the end of the original, and `idx` counts it.
    pub open spec fn wf(&self) -> bool {
        match self.mode {
            OFileMode::Read { source, pos } => pos <= source@.len() && self.idx == pos,
            OFileMode::Modify { source, pos, .. } => pos <= source@.len() && self.idx == pos,
            OFileMode::Write { .. } => self.idx == 0,
        }
    }

    /// Opens `file_path`: for reading when a file stands there with contents
    /// `existing`, for writing a new file otherwise.
    pub fn new(file_path: &str, existing: Option<Vec<u8>>) -> (r: OFile)
        ensures
            r.wf(),
            r@ == opened(
                match existing {
                    Some(b) => Some(b@),
                    None => None,
                },
            ),
            r.file_path@ == file_path@,
    {
        let mode = match existing {
            Some(b) => OFileMode::Read { source: b, pos: 0 },
            None => OFileMode::Write { out: Vec::new() },
        };
        OFile { file_path: file_path.to_string(), mode, current: None, idx: 0 }
    }

    /// The next byte of the original file.
    pub fn read(&mut self) -> (r: Result<u8, OFileError>)
        requires
            old(self).wf(),
        ensures
            final(self).wf(),
            final(self)@ == after_read(old(self)@),
            final(self).file_path == old(self).file_path,
            old(self)@.mode == OMode::Write ==> (r matches Err(OFileError::CannotReadFile(p)) && p@
                == old(self).file_path@),
            old(self)@.mode != OMode::Write && old(self)@.pos >= old(self)@.source.len() ==> r
                == Err::<u8, OFileError>(OFileError::EndOfStream),
            old(self)@.mode != OMode::Write && old(self)@.pos < old(self)@.source.len() ==> r
                == Ok::<u8, OFileError>(old(self)@.source[old(self)@.pos as int]) 
                && final(self).current == Some(old(self)@.source[old(self)@.pos as int])
                && final(self).idx == old(self).idx + 1,
            r is Err ==> *final(self) == *old(self),
    {
        let b = match &mut self.mode {
            OFileMode::Write { .. } => {
                return Err(OFileError::CannotReadFile(self.file_path.clone()));
            },
            OFileMode::Read { source, pos } => {
                if *pos >= source.len() {
                    return Err(OFileError::EndOfStream);
                }
                let b = source[*pos];
                *pos = *pos + 1;
                b
            },
            OFileMode::Modify { source, pos, .. } => {
                if *pos >= source.len() {
                    return Err(OFileError::EndOfStream);
                }
                let b = source[*pos];
                *pos = *pos + 1;
                b
            },
        };
        self.idx = self.idx + 1;
        self.current = Some(b);
        Ok(b)
    }

    /// Writes one byte. On a reading stream the first write starts modify
    /// mode: the bytes consumed before the one just read are replayed into the
    /// staged output, and the written byte takes the place of that one. Later
    /// reads drop the bytes they return, so a read followed by a write
    /// replaces the byte read.
    pub fn write(&mut self, value: u8) -> (r: Result<(), OFileError>)
        requires
            old(self).wf(),
        ensures
            final(self).wf(),
            final(self)@ == after_write(old(self)@, value),
            final(self).file_path == old(self).file_path,
            r is Ok,
    {
        let mut mode = OFileMode::Write { out: Vec::new() };
        std::mem::swap(&mut self.mode, &mut mode);
        let next = match mode {
            OFileMode::Write { mut out } => {
                out.push(value);
                OFileMode::Write { out }
            },
            OFileMode::Modify { source, pos, mut staged } => {
                staged.push(value);
                OFileMode::Modify { source, pos, staged }
            },
            OFileMode::Read { source, pos } => {
                let keep: usize = if pos > 0 {
                    pos - 1
                } else {
                    0
                };
                let mut staged: Vec<u8> = Vec::new();
                let mut i: usize = 0;
                while i < keep
                    invariant
                        i <= keep <= pos <= source@.len(),
                        keep == replayed(pos as nat),
                        staged@ == source@.subrange(0, i as int),
                    decreases keep - i,
                {
                    staged.push(source[i]);
                    i = i + 1;
                    assert(staged@ =~= source@.subrange(0, i as int));
                }
                staged.push(value);
                OFileMode::Modify { source, pos, staged }
            },
        };
        self.mode = next;
        Ok(())
    }

    /// Moves over `amount` bytes: a writer writes that many zero bytes; a
    /// reading stream discards them; a modifying stream copies them into its
    /// output. Running out of bytes stops at the end with `EndOfStream`.
    pub fn skip(&mut self, amount: u64) -> (r: Result<(), OFileError>)
        requires
            old(self).wf(),
        ensures
            final(self).wf(),
            final(self)@ == after_skip(old(self)@, amount as nat),
            final(self).file_path == old(self).file_path,
            old(self)@.mode != OMode::Write && old(self)@.pos + amount > old(self)@.source.len()
                ==> r == Err::<(), OFileError>(OFileError::EndOfStream),
            old(self)@.mode == OMode::Write || old(self)@.pos + amount <= old(self)@.source.len()
                ==> r is Ok,
    {
        let mut mode = OFileMode::Write { out: Vec::new() };
        std::mem::swap(&mut self.mode, &mut mode);
        match mode {
            OFileMode::Write { mut out } => {
                let ghost start = out@;
                let mut i: u64 = 0;
                while i < amount
                    invariant
                        i <= amount,
                        out@ == start + Seq::new(i as nat, |j: int| 0u8),
                    decreases amount - i,
                {
                    out.push(0u8);
                    i = i + 1;
                    assert(out@ =~= start + Seq::new(i as nat, |j: int| 0u8));
                }
                self.mode = OFileMode::Write { out };
                Ok(())
            },
            OFileMode::Read { source, pos } => {
                let avail = source.len() - pos;
                let short = (avail as u64) < amount;
                let step: usize = if short {
                    avail
                } else {
                    amount as usize
                };
                let end = pos + step;
                if step > 0 {
                    self.current = Some(source[end - 1]);
                }
                self.mode = OFileMode::Read { source, pos: end };
                self.idx = end as u64;
                if short {
                    Err(OFileError::EndOfStream)
                } else {
                    Ok(())
                }
            },
            OFileMode::Modify { source, pos, mut staged } => {
                let avail = source.len() - pos;
                let short = (avail as u64) < amount;
                let step: usize = if short {
                    avail
                } else {
                    amount as usize
                };
                let end = pos + step;
                let ghost start = staged@;
                let mut i: usize = pos;
                while i < end
                    invariant
                        pos <= i <= end <= source@.len(),
                        staged@ == start + source@.subrange(pos as int, i as int),
                    decreases end - i,
                {
                    staged.push(source[i]);
                    i = i + 1;
                    assert(staged@ =~= start + source@.subrange(pos as int, i as int));
                }
                if step > 0 {
                    self.current = Some(source[end - 1]);
                }
                self.mode = OFileMode::Modify { source, pos: end, staged };
                self.idx = end as u64;
                if short {
                    Err(OFileError::EndOfStream)
                } else {
                    Ok(())
                }
            },
        }
    }

    /// The filesystem work that closes the stream: nothing for a reader, the
    /// file write for a writer, and for a modifying stream the staged write
    /// followed by the swap of the staged file for the original.
    pub fn finish(self) -> (r: Vec<FsAction>)
        requires
            self.wf(),
        ensures
            self@.mode == OMode::Read ==> r@.len() == 0,
            self@.mode == OMode::Write ==> r@.len() == 1 && r@[0] is WriteFile && r@[0]->WriteFile_0@
                == self.file_path@ && r@[0]->WriteFile_1@ == self@.out,
            self@.mode == OMode::Modify ==> modify_commit(r@, self.file_path@, self@.out),
    {
        match self.mode {
            OFileMode::Read { .. } => Vec::new(),
            OFileMode::Write { out } => vec![FsAction::WriteFile(self.file_path, out)],
            OFileMode::Modify { staged, .. } => {
                proof {
                    reveal_strlit(".new");
                    reveal_strlit(".old");
                }
                let mut staging = self.file_path.clone();
                staging.append(".new");
                let mut backup = self.file_path.clone();
                backup.append(".old");
                let r = vec![
                    FsAction::WriteFile(staging.clone(), staged),
                    FsAction::Rename(self.file_path.clone(), backup.clone()),
                    FsAction::Rename(staging, self.file_path),
                    FsAction::RemoveFile(backup),
                ];
                assert(r@[0]->WriteFile_0@ =~= staging_of(self.file_path@));
                assert(r@[1]->Rename_1@ =~= backup_of(self.file_path@));
                assert(r@[2]->Rename_0@ =~= staging_of(self.file_path@));
                assert(r@[3]->RemoveFile_0@ =~= backup_of(self.file_path@));
                r
            },
        }
    }
}


proof fn lemma_read_n_reading(orig: Seq<u8>, k: nat)
    requires
        k <= orig.len(),
    ensures
        read_n(opened(Some(orig)), k) == (OFileView {
            mode: OMode::Read,
            source: orig,
            pos: k,
            out: Seq::empty(),
        }),
    decreases k,
{
    if k > 0 {
        lemma_read_n_reading(orig, (k - 1) as nat);
    }
}

/// Reading a byte, then writing one, for each byte of `w`.
pub open spec fn read_write_all(v: OFileView, w: Seq<u8>) -> OFileView
    decreases w.len(),
{
    if w.len() == 0 {
        v
    } else {
        after_write(after_read(read_write_all(v, w.drop_last())), w.last())
    }
}

/// Reading `j` bytes untouched and then reading a byte and writing one for
/// each byte of `w` stages the `j` bytes and then `w`.
pub proof fn lemma_read_write_all(orig: Seq<u8>, j: nat, w: Seq<u8>)
    requires
        0 < w.len(),
        j + w.len() <= orig.len(),
    ensures
        read_write_all(read_n(opened(Some(orig)), j), w) == (OFileView {
            mode: OMode::Modify,
            source: orig,
            pos: j + w.len(),
            out: orig.subrange(0, j as int) + w,
        }),
    decreases w.len(),
{
    lemma_read_n_reading(orig, j);
    if w.len() == 1 {
        assert(w.drop_last() =~= Seq::<u8>::empty());
        assert(orig.subrange(0, j as int).push(w.last()) =~= orig.subrange(0, j as int) + w);
    } else {
        lemma_read_write_all(orig, j, w.drop_last());
        assert((orig.subrange(0, j as int) + w.drop_last()).push(w.last()) =~= orig.subrange(
            0,
            j as int,
        ) + w);
    }
}

/// In-place modification: opening an existing file of `N` bytes, reading
/// each of its first `k` bytes and writing a new byte after it, then reading
/// each remaining byte and writing it back, stages the `k` new bytes followed
/// by the original's last `N - k` bytes: each write replaces the byte read
/// just before it.
pub proof fn lemma_in_place_modify(orig: Seq<u8>, new: Seq<u8>)
    requires
        0 < new.len() <= orig.len(),
    ensures
        ({
            let v = read_write_all(
                opened(Some(orig)),
                new + orig.subrange(new.len() as int, orig.len() as int),
            );
            &&& v.mode == OMode::Modify
            &&& v.pos == orig.len()
            &&& v.out == new + orig.subrange(new.len() as int, orig.len() as int)
            &&& v.out.len() == orig.len()
        }),
{
    let w = new + orig.subrange(new.len() as int, orig.len() as int);
    lemma_read_write_all(orig, 0, w);
    assert(read_n(opened(Some(orig)), 0) == opened(Some(orig)));
    assert(orig.subrange(0, 0) + w =~= w);
}

/// Committing a modifying stream never leaves the file without a whole copy:
/// after each of the steps the old or the new content can be found, whole, and
/// after the last one the file holds the new content and the two helper names
/// are gone.
pub proof fn lemma_commit_recoverable(
    m: FileModel,
    steps: Seq<FsAction>,
    p: Seq<char>,
    old: Seq<u8>,
    new: Seq<u8>,
    k: nat,
)
    requires
        modify_commit(steps, p, new),
        m.contains_key(p),
        m[p] == old,
        k <= 4,
    ensures
        recoverable(apply_prefix(m, steps, k), p, old, new),
        apply_prefix(m, steps, 4).contains_key(p),
        apply_prefix(m, steps, 4)[p] == new,
        !apply_prefix(m, steps, 4).contains_key(staging_of(p)),
        !apply_prefix(m, steps, 4).contains_key(backup_of(p)),
{
    let s = staging_of(p);
    let b = backup_of(p);
    assert(s.len() != p.len());
    assert(b.len() != p.len());
    assert(s[p.len() + 1int] != b[p.len() + 1int]);
    assert(s != p && b != p && s != b);
    let m1 = apply_prefix(m, steps, 1);
    let m2 = apply_prefix(m, steps, 2);
    let m3 = apply_prefix(m, steps, 3);
    let m4 = apply_prefix(m, steps, 4);
    assert(apply_prefix(m, steps, 0) == m);
    assert(m1 == m.insert(s, new));
    assert(m2 == m1.remove(p).insert(b, old));
    assert(m3 == m2.remove(s).insert(p, new));
    assert(m4 == m3.remove(b));
}

} // verus!
