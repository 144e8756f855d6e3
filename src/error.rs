use vstd::prelude::*;

use crate::lazy_type::LazyType;

verus! {

/// Every failure that the store reports.
#[derive(Debug)]
pub enum LDBError {
    /// An underlying filesystem or compression failure, with its message.
    IOError(String),
    /// No regular file at the path.
    FileNotFound(String),
    /// No directory at the path.
    DirNotFound(String),
    /// A tag byte that names no value kind.
    InvalidLazyType(u8),
    /// The leaf holds the first kind; the caller asked for what the text names.
    IncorrectType(LazyType, String),
    /// A payload that is not valid UTF-8.
    InvalidUTF8String(Vec<u8>),
    /// A numeric payload whose length is not the width of the kind named.
    InvalidNumberByteLength(u8, String),
    /// A version header at the path that is not exactly three bytes.
    InvalidMetaVersion(String),
    /// A stored version that the running version refuses.
    IncompatibleVersion(u8, u8, u8),
    /// A stream read past its end.
    EndOfStream,
    /// A write on a stream opened for reading only.
    CannotWrite,
    /// A read on a stream opened for writing only.
    CannotRead,
}

} // verus!
