use vstd::prelude::*;
use vstd::utf8::{decode_utf8, valid_utf8};

use crate::error::LDBError;
use crate::file_wrapper::FileWrapper;
use crate::lazy_type::{kind_of_tag, tag_of, LazyType};

pub mod reading;
pub mod writing;
pub mod array;
pub mod laws;

verus! {

/// The bytes of a leaf file: the tag of its kind, then the payload.
pub open spec fn leaf(kind: LazyType, payload: Seq<u8>) -> Seq<u8> {
    seq![tag_of(kind)] + payload
}

/// The result is the type error for a leaf of kind `found` read as what
/// `expected` names.
pub open spec fn type_error<T>(r: Result<T, LDBError>, found: LazyType, expected: Seq<char>) -> bool {
    r matches Err(LDBError::IncorrectType(k, s)) && k == found && s@ == expected
}

/// The result is the error for a numeric payload of `len` bytes, the wrong
/// length for what `expected` names; the length is reported modulo 256.
pub open spec fn length_error<T>(r: Result<T, LDBError>, len: nat, expected: Seq<char>) -> bool {
    r matches Err(LDBError::InvalidNumberByteLength(m, s)) && m as nat == len % 256 && s@ == expected
}

/// Relies on `String::from_utf8`: it accepts exactly the valid UTF-8 byte
/// sequences, decodes them, and hands the bytes back on failure.
#[verifier::external_body]
pub(crate) fn string_from_utf8(bytes: Vec<u8>) -> (r: Result<String, Vec<u8>>)
    ensures
        valid_utf8(bytes@) ==> r is Ok && r->Ok_0@ == decode_utf8(bytes@),
        !valid_utf8(bytes@) ==> r is Err && r->Err_0@ == bytes@,
{
    match String::from_utf8(bytes) {
        Ok(s) => Ok(s),
        Err(e) => Err(e.into_bytes()),
    }
}

/// One loaded leaf: its path, the kind its tag names, and the payload stream,
/// which is not decoded until one of the `collect_` methods asks for it.
pub struct LazyData {
    pub path: String,
    pub lazy_type: LazyType,
    pub wrapper: FileWrapper,
}

impl LazyData {
    /// The payload bytes that the leaf holds after its tag.
    pub open spec fn payload(&self) -> Seq<u8> {
        self.wrapper.remaining()
    }

    /// Opens the leaf at `path`, whose contents are `contents`, or `None` where
    /// no regular file stands there. Only the tag is decoded.
    pub fn load(path: &str, contents: Option<Vec<u8>>) -> (r: Result<LazyData, LDBError>)
        ensures
            contents is None ==> (r matches Err(LDBError::FileNotFound(p)) && p@ == path@),
            contents matches Some(b) ==> {
                &&& b@.len() == 0 ==> r == Err::<LazyData, LDBError>(LDBError::EndOfStream)
                &&& b@.len() > 0 && kind_of_tag(b@[0]) is None ==> r == Err::<LazyData, LDBError>(
                    LDBError::InvalidLazyType(b@[0]),
                )
                &&& b@.len() > 0 && kind_of_tag(b@[0]) is Some ==> r is Ok && r->Ok_0.lazy_type
                    == kind_of_tag(b@[0])->Some_0 && r->Ok_0.payload() == b@.drop_first()
                    && r->Ok_0.path@ == path@
            },
    {
        let bytes = match contents {
            None => return Err(LDBError::FileNotFound(path.to_string())),
            Some(b) => b,
        };
        let ghost b = bytes@;
        let mut reader = FileWrapper::new_reader(bytes);
        let tag = match reader.read(1) {
            Ok(t) => t,
            Err(e) => return Err(e),
        };
        let lazy_type = match LazyType::from_byte(tag[0]) {
            Ok(k) => k,
            Err(e) => return Err(e),
        };
        assert(reader.remaining() =~= b.drop_first());
        Ok(LazyData { path: path.to_string(), lazy_type, wrapper: reader })
    }

    /// The path of the leaf.
    pub fn get_path(&self) -> (r: String)
        ensures
            r@ == self.path@,
    {
        self.path.clone()
    }

    /// All payload bytes, for the collectors once the kind has been checked.
    fn take_payload(self) -> (r: Vec<u8>)
        ensures
            r@ == self.payload(),
    {
        match self.wrapper.read_to_end() {
            Ok(v) => v,
            Err(_) => Vec::new(),
        }
    }

    /// The payload without its first byte, and that byte; `EndOfStream` when
    /// the payload is empty.
    fn split_first(self) -> (r: Result<(u8, Vec<u8>), LDBError>)
        ensures
            self.payload().len() == 0 ==> r == Err::<(u8, Vec<u8>), LDBError>(LDBError::EndOfStream),
            self.payload().len() > 0 ==> r is Ok && r->Ok_0.0 == self.payload()[0] && r->Ok_0.1@
                == self.payload().drop_first(),
    {
        let mut w = self.wrapper;
        let first = match w.read(1) {
            Ok(v) => v,
            Err(_) => return Err(LDBError::EndOfStream),
        };
        match w.read_to_end() {
            Ok(rest) => {
                assert(rest@ =~= self.payload().drop_first());
                Ok((first[0], rest))
            },
            Err(e) => Err(e),
        }
    }
}

} // verus!
