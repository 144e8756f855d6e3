use vstd::prelude::*;
use vstd::utf8::encode_utf8;

use super::{leaf, LazyData};
use crate::be::{be_bytes, lemma_pow256_values, push_be, signed_to_bits, to_twos};
use crate::error::LDBError;
use crate::file_wrapper::FileWrapper;
use crate::lazy_type::LazyType;

verus! {

/// `after` is the writer `before` with `data` appended, or `before` was a
/// reader and refused the write, unchanged.
pub open spec fn appended(
    before: FileWrapper,
    after: FileWrapper,
    r: Result<(), LDBError>,
    data: Seq<u8>,
) -> bool {
    &&& before is Writer ==> r is Ok && after is Writer && after.written() == before.written()
        + data && after->Writer_path == before->Writer_path
    &&& before is Reader ==> r == Err::<(), LDBError>(LDBError::CannotWrite) && after == before
}

/// Writes the tag of `kind` and then `payload`.
fn write_tagged(file: &mut FileWrapper, kind: LazyType, payload: &[u8]) -> (r: Result<(), LDBError>)
    ensures
        appended(*old(file), *final(file), r, leaf(kind, payload@)),
{
    let tag: Vec<u8> = vec![kind.to_byte()];
    let ghost before = file.written();
    match file.write(tag.as_slice()) {
        Ok(()) => {},
        Err(e) => return Err(e),
    }
    let r = file.write(payload);
    assert(file.written() =~= before + leaf(kind, payload@));
    r
}

impl LazyData {
    /// Writes a `Void` leaf: the tag alone.
    pub fn new_void(file: &mut FileWrapper) -> (r: Result<(), LDBError>)
        ensures
            appended(*old(file), *final(file), r, leaf(LazyType::Void, Seq::empty())),
    {
        let empty: Vec<u8> = Vec::new();
        write_tagged(file, LazyType::Void, empty.as_slice())
    }

    /// Writes a `String` leaf: the tag, then the UTF-8 bytes of the text.
    pub fn new_string(file: &mut FileWrapper, value: &str) -> (r: Result<(), LDBError>)
        ensures
            appended(*old(file), *final(file), r, leaf(LazyType::String, encode_utf8(value@))),
    {
        write_tagged(file, LazyType::String, value.as_bytes())
    }

    /// Writes a `Binary` leaf: the tag, then the bytes as they are.
    pub fn new_binary(file: &mut FileWrapper, value: &[u8]) -> (r: Result<(), LDBError>)
        ensures
            appended(*old(file), *final(file), r, leaf(LazyType::Binary, value@)),
    {
        write_tagged(file, LazyType::Binary, value)
    }

    /// Writes a `True` or `False` leaf: the tag alone carries the value.
    pub fn new_bool(file: &mut FileWrapper, value: bool) -> (r: Result<(), LDBError>)
        ensures
            appended(
                *old(file),
                *final(file),
                r,
                leaf(if value { LazyType::True } else { LazyType::False }, Seq::empty()),
            ),
    {
        let empty: Vec<u8> = Vec::new();
        let kind = if value { LazyType::True } else { LazyType::False };
        write_tagged(file, kind, empty.as_slice())
    }

    /// Writes a `Link` leaf: the tag, then the UTF-8 bytes of the path, relative
    /// to the database root, of the leaf it points at.
    pub fn new_link(file: &mut FileWrapper, target: &str) -> (r: Result<(), LDBError>)
        ensures
            appended(*old(file), *final(file), r, leaf(LazyType::Link, encode_utf8(target@))),
    {
        write_tagged(file, LazyType::Link, target.as_bytes())
    }

    /// Writes a `U8` leaf: the tag, then 1 big-endian bytes.
    pub fn new_u8(file: &mut FileWrapper, value: u8) -> (r: Result<(), LDBError>)
        ensures
            appended(*old(file), *final(file), r, leaf(LazyType::U8, be_bytes(value as nat, 1))),
    {
        let mut payload: Vec<u8> = Vec::new();
        push_be(&mut payload, value as u128, 1);
        write_tagged(file, LazyType::U8, payload.as_slice())
    }

    /// Writes a `U16` leaf: the tag, then 2 big-endian bytes.
    pub fn new_u16(file: &mut FileWrapper, value: u16) -> (r: Result<(), LDBError>)
        ensures
            appended(*old(file), *final(file), r, leaf(LazyType::U16, be_bytes(value as nat, 2))),
    {
        let mut payload: Vec<u8> = Vec::new();
        push_be(&mut payload, value as u128, 2);
        write_tagged(file, LazyType::U16, payload.as_slice())
    }

    /// Writes a `U32` leaf: the tag, then 4 big-endian bytes.
    pub fn new_u32(file: &mut FileWrapper, value: u32) -> (r: Result<(), LDBError>)
        ensures
            appended(*old(file), *final(file), r, leaf(LazyType::U32, be_bytes(value as nat, 4))),
    {
        let mut payload: Vec<u8> = Vec::new();
        push_be(&mut payload, value as u128, 4);
        write_tagged(file, LazyType::U32, payload.as_slice())
    }

    /// Writes a `U64` leaf: the tag, then 8 big-endian bytes.
    pub fn new_u64(file: &mut FileWrapper, value: u64) -> (r: Result<(), LDBError>)
        ensures
            appended(*old(file), *final(file), r, leaf(LazyType::U64, be_bytes(value as nat, 8))),
    {
        let mut payload: Vec<u8> = Vec::new();
        push_be(&mut payload, value as u128, 8);
        write_tagged(file, LazyType::U64, payload.as_slice())
    }

    /// Writes a `U128` leaf: the tag, then 16 big-endian bytes.
    pub fn new_u128(file: &mut FileWrapper, value: u128) -> (r: Result<(), LDBError>)
        ensures
            appended(*old(file), *final(file), r, leaf(LazyType::U128, be_bytes(value as nat, 16))),
    {
        let mut payload: Vec<u8> = Vec::new();
        push_be(&mut payload, value as u128, 16);
        write_tagged(file, LazyType::U128, payload.as_slice())
    }

    /// Writes an `I8` leaf: the tag, then 1 big-endian bytes in two's complement.
    pub fn new_i8(file: &mut FileWrapper, value: i8) -> (r: Result<(), LDBError>)
        ensures
            appended(
                *old(file),
                *final(file),
                r,
                leaf(LazyType::I8, be_bytes(to_twos(value as int, 1), 1)),
            ),
    {
        proof {
            lemma_pow256_values();
        }
        let bits = signed_to_bits(value as i128, 1);
        let mut payload: Vec<u8> = Vec::new();
        push_be(&mut payload, bits, 1);
        write_tagged(file, LazyType::I8, payload.as_slice())
    }

    /// Writes an `I16` leaf: the tag, then 2 big-endian bytes in two's complement.
    pub fn new_i16(file: &mut FileWrapper, value: i16) -> (r: Result<(), LDBError>)
        ensures
            appended(
                *old(file),
                *final(file),
                r,
                leaf(LazyType::I16, be_bytes(to_twos(value as int, 2), 2)),
            ),
    {
        proof {
            lemma_pow256_values();
        }
        let bits = signed_to_bits(value as i128, 2);
        let mut payload: Vec<u8> = Vec::new();
        push_be(&mut payload, bits, 2);
        write_tagged(file, LazyType::I16, payload.as_slice())
    }

    /// Writes an `I32` leaf: the tag, then 4 big-endian bytes in two's complement.
    pub fn new_i32(file: &mut FileWrapper, value: i32) -> (r: Result<(), LDBError>)
        ensures
            appended(
                *old(file),
                *final(file),
                r,
                leaf(LazyType::I32, be_bytes(to_twos(value as int, 4), 4)),
            ),
    {
        proof {
            lemma_pow256_values();
        }
        let bits = signed_to_bits(value as i128, 4);
        let mut payload: Vec<u8> = Vec::new();
        push_be(&mut payload, bits, 4);
        write_tagged(file, LazyType::I32, payload.as_slice())
    }

    /// Writes an `I64` leaf: the tag, then 8 big-endian bytes in two's complement.
    pub fn new_i64(file: &mut FileWrapper, value: i64) -> (r: Result<(), LDBError>)
        ensures
            appended(
                *old(file),
                *final(file),
                r,
                leaf(LazyType::I64, be_bytes(to_twos(value as int, 8), 8)),
            ),
    {
        proof {
            lemma_pow256_values();
        }
        let bits = signed_to_bits(value as i128, 8);
        let mut payload: Vec<u8> = Vec::new();
        push_be(&mut payload, bits, 8);
        write_tagged(file, LazyType::I64, payload.as_slice())
    }

    /// Writes an `I128` leaf: the tag, then 16 big-endian bytes in two's complement.
    pub fn new_i128(file: &mut FileWrapper, value: i128) -> (r: Result<(), LDBError>)
        ensures
            appended(
                *old(file),
                *final(file),
                r,
                leaf(LazyType::I128, be_bytes(to_twos(value as int, 16), 16)),
            ),
    {
        proof {
            lemma_pow256_values();
        }
        let bits = signed_to_bits(value as i128, 16);
        let mut payload: Vec<u8> = Vec::new();
        push_be(&mut payload, bits, 16);
        write_tagged(file, LazyType::I128, payload.as_slice())
    }

    /// Writes an `F32` leaf from the bit pattern of the value: the tag, then 4
    /// big-endian bytes.
    pub fn new_f32_bits(file: &mut FileWrapper, bits: u32) -> (r: Result<(), LDBError>)
        ensures
            appended(*old(file), *final(file), r, leaf(LazyType::F32, be_bytes(bits as nat, 4))),
    {
        let mut payload: Vec<u8> = Vec::new();
        push_be(&mut payload, bits as u128, 4);
        write_tagged(file, LazyType::F32, payload.as_slice())
    }

    /// Writes an `F64` leaf from the bit pattern of the value: the tag, then 8
    /// big-endian bytes.
    pub fn new_f64_bits(file: &mut FileWrapper, bits: u64) -> (r: Result<(), LDBError>)
        ensures
            appended(*old(file), *final(file), r, leaf(LazyType::F64, be_bytes(bits as nat, 8))),
    {
        let mut payload: Vec<u8> = Vec::new();
        push_be(&mut payload, bits as u128, 8);
        write_tagged(file, LazyType::F64, payload.as_slice())
    }
}

} // verus!
