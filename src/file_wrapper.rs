use vstd::prelude::*;

use crate::error::LDBError;
use crate::fs_action::FsAction;

verus! {

/// A byte stream over one leaf file: read-only over its contents, or write-only
/// into a buffer that [`FileWrapper::finish`] turns into a write of the file.
pub enum FileWrapper {
    Reader { bytes: Vec<u8>, pos: usize },
    Writer { path: String, bytes: Vec<u8> },
}

impl FileWrapper {
    /// The bytes that a reader has not handed out yet; empty for a writer.
    pub open spec fn remaining(&self) -> Seq<u8> {
        match self {
            FileWrapper::Reader { bytes, pos } => if *pos <= bytes@.len() {
                bytes@.subrange(*pos as int, bytes@.len() as int)
            } else {
                Seq::empty()
            },
            FileWrapper::Writer { .. } => Seq::empty(),
        }
    }

    /// The bytes written so far; empty for a reader.
    pub open spec fn written(&self) -> Seq<u8> {
        match self {
            FileWrapper::Reader { .. } => Seq::empty(),
            FileWrapper::Writer { bytes, .. } => bytes@,
        }
    }

    /// A reader over the contents of a file.
    pub fn new_reader(bytes: Vec<u8>) -> (r: FileWrapper)
        ensures
            r is Reader,
            r.remaining() == bytes@,
    {
        let r = FileWrapper::Reader { bytes, pos: 0 };
        assert(r.remaining() =~= r->Reader_bytes@);
        r
    }

    /// A writer that will replace the file at `path` with what is written to it.
    pub fn new_writer(path: &str) -> (r: FileWrapper)
        ensures
            r matches FileWrapper::Writer { path: p, .. } && p@ == path@,
            r.written() == Seq::<u8>::empty(),
    {
        FileWrapper::Writer { path: path.to_string(), bytes: Vec::new() }
    }

    /// Appends bytes to a writer; a reader refuses with `CannotWrite`.
    pub fn write(&mut self, data: &[u8]) -> (r: Result<(), LDBError>)
        ensures
            (*old(self)) is Writer ==> r is Ok && (*final(self)) is Writer && final(self).written()
                == old(self).written() + data@ && final(self)->Writer_path
                == old(self)->Writer_path,
            (*old(self)) is Reader ==> r == Err::<(), LDBError>(LDBError::CannotWrite) && *final(self)
                == *old(self),
    {
        match self {
            FileWrapper::Writer { bytes, .. } => {
                let mut i: usize = 0;
                let ghost start = bytes@;
                while i < data.len()
                    invariant
                        i <= data@.len(),
                        bytes@ == start + data@.subrange(0, i as int),
                    decreases data@.len() - i,
                {
                    bytes.push(data[i]);
                    i = i + 1;
                    assert(bytes@ =~= start + data@.subrange(0, i as int));
                }
                assert(data@.subrange(0, i as int) =~= data@);
                Ok(())
            },
            FileWrapper::Reader { .. } => Err(LDBError::CannotWrite),
        }
    }

    /// Hands out the next `length` bytes of a reader; fails with `EndOfStream`
    /// when fewer remain, and with `CannotRead` on a writer.
    pub fn read(&mut self, length: usize) -> (r: Result<Vec<u8>, LDBError>)
        ensures
            (*old(self)) is Writer ==> r == Err::<Vec<u8>, LDBError>(LDBError::CannotRead)
                && *final(self) == *old(self),
            (*old(self)) is Reader && old(self).remaining().len() < length ==> r == Err::<
                Vec<u8>,
                LDBError,
            >(LDBError::EndOfStream) && *final(self) == *old(self),
            (*old(self)) is Reader && old(self).remaining().len() >= length ==> r is Ok && r->Ok_0@
                == old(self).remaining().subrange(0, length as int) && (*final(self)) is Reader
                && final(self).remaining() == old(self).remaining().subrange(
                length as int,
                old(self).remaining().len() as int,
            ),
    {
        match self {
            FileWrapper::Writer { .. } => Err(LDBError::CannotRead),
            FileWrapper::Reader { bytes, pos } => {
                let avail = if *pos <= bytes.len() {
                    bytes.len() - *pos
                } else {
                    0
                };
                if avail < length {
                    return Err(LDBError::EndOfStream);
                }
                if length == 0 {
                    assert(self.remaining().subrange(0, 0) =~= Seq::<u8>::empty());
                    assert(self.remaining().subrange(0, self.remaining().len() as int) =~= self.remaining());
                    return Ok(Vec::new());
                }
                let p = *pos;
                let n = bytes.len();
                let ghost rem = bytes@.subrange(*pos as int, bytes@.len() as int);
                let mut out: Vec<u8> = Vec::new();
                let mut i: usize = 0;
                while i < length
                    invariant
                        i <= length,
                        p + length <= n,
                        n == bytes@.len(),
                        rem == bytes@.subrange(p as int, bytes@.len() as int),
                        out@ == rem.subrange(0, i as int),
                    decreases length - i,
                {
                    out.push(bytes[p + i]);
                    i = i + 1;
                    assert(out@ =~= rem.subrange(0, i as int));
                }
                *pos = p + length;
                assert(bytes@.subrange(*pos as int, bytes@.len() as int) =~= rem.subrange(
                    length as int,
                    rem.len() as int,
                ));
                Ok(out)
            },
        }
    }

    /// Everything a reader has not handed out yet; `CannotRead` on a writer.
    pub fn read_to_end(self) -> (r: Result<Vec<u8>, LDBError>)
        ensures
            self is Reader ==> r is Ok && r->Ok_0@ == self.remaining(),
            self is Writer ==> r == Err::<Vec<u8>, LDBError>(LDBError::CannotRead),
    {
        let mut this = self;
        let n = match &this {
            FileWrapper::Reader { bytes, pos } => if *pos <= bytes.len() {
                bytes.len() - *pos
            } else {
                0
            },
            FileWrapper::Writer { .. } => 0,
        };
        this.read(n)
    }

    /// The filesystem work that closing the stream calls for: the file write of
    /// a writer, nothing for a reader.
    pub fn finish(self) -> (r: Vec<FsAction>)
        ensures
            self is Writer ==> r@.len() == 1 && r@[0] == FsAction::WriteFile(
                self->Writer_path,
                self->Writer_bytes,
            ),
            self is Reader ==> r@.len() == 0,
    {
        match self {
            FileWrapper::Writer { path, bytes } => vec![FsAction::WriteFile(path, bytes)],
            FileWrapper::Reader { .. } => Vec::new(),
        }
    }
}

} // verus!
