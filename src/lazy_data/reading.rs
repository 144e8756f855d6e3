use vstd::prelude::*;
use vstd::utf8::{decode_utf8, valid_utf8};

use super::{length_error, string_from_utf8, type_error, LazyData};
use crate::be::{be_value, bits_to_signed, from_twos, lemma_pow256_values, pow256, read_be, valid_width};
use crate::error::LDBError;
use crate::lazy_database::LazyDB;
use crate::lazy_type::{width_of, LazyType};
use crate::path::{join, join_path};

verus! {

impl LazyData {
    /// The payload of a `Binary` leaf.
    pub fn collect_binary(self) -> (r: Result<Vec<u8>, LDBError>)
        ensures
            self.lazy_type != LazyType::Binary ==> type_error(r, self.lazy_type, "Binary"@),
            self.lazy_type == LazyType::Binary ==> r is Ok && r->Ok_0@ == self.payload(),
    {
        if self.lazy_type != LazyType::Binary {
            return Err(LDBError::IncorrectType(self.lazy_type, "Binary".to_string()));
        }
        Ok(self.take_payload())
    }

    /// The text of a `String` leaf; its payload must be valid UTF-8.
    pub fn collect_string(self) -> (r: Result<String, LDBError>)
        ensures
            self.lazy_type != LazyType::String ==> type_error(r, self.lazy_type, "String"@),
            self.lazy_type == LazyType::String && valid_utf8(self.payload()) ==> r is Ok
                && r->Ok_0@ == decode_utf8(self.payload()),
            self.lazy_type == LazyType::String && !valid_utf8(self.payload()) ==> (r matches Err(
                LDBError::InvalidUTF8String(b),
            ) && b@ == self.payload()),
    {
        if self.lazy_type != LazyType::String {
            return Err(LDBError::IncorrectType(self.lazy_type, "String".to_string()));
        }
        match string_from_utf8(self.take_payload()) {
            Ok(s) => Ok(s),
            Err(b) => Err(LDBError::InvalidUTF8String(b)),
        }
    }

    /// The value of a `True` or `False` leaf; nothing past the tag is read.
    pub fn collect_bool(self) -> (r: Result<bool, LDBError>)
        ensures
            self.lazy_type == LazyType::True ==> r == Ok::<bool, LDBError>(true),
            self.lazy_type == LazyType::False ==> r == Ok::<bool, LDBError>(false),
            !(self.lazy_type is True || self.lazy_type is False) ==> type_error(
                r,
                self.lazy_type,
                "Boolean"@,
            ),
    {
        match self.lazy_type {
            LazyType::True => Ok(true),
            LazyType::False => Ok(false),
            _ => Err(LDBError::IncorrectType(self.lazy_type, "Boolean".to_string())),
        }
    }

    /// The path of the leaf that a `Link` leaf points at: its payload, a
    /// UTF-8 path relative to the root of `database`, resolved there as the
    /// root container's `read_data` resolves a key.
    pub fn collect_link(self, database: &LazyDB) -> (r: Result<String, LDBError>)
        ensures
            self.lazy_type != LazyType::Link ==> type_error(r, self.lazy_type, "Link"@),
            self.lazy_type == LazyType::Link && valid_utf8(self.payload()) ==> r is Ok
                && r->Ok_0@ == join(database.path@, decode_utf8(self.payload())),
            self.lazy_type == LazyType::Link && !valid_utf8(self.payload()) ==> (r matches Err(
                LDBError::InvalidUTF8String(b),
            ) && b@ == self.payload()),
    {
        if self.lazy_type != LazyType::Link {
            return Err(LDBError::IncorrectType(self.lazy_type, "Link".to_string()));
        }
        match string_from_utf8(self.take_payload()) {
            Ok(key) => Ok(join_path(database.path.as_str(), key.as_str())),
            Err(b) => Err(LDBError::InvalidUTF8String(b)),
        }
    }

    /// The big-endian value of a fixed-width numeric leaf of kind `kind`. The
    /// kind is checked before any payload byte is read.
    pub fn collect_fixed(self, kind: LazyType, name: &str) -> (r: Result<u128, LDBError>)
        requires
            valid_width(width_of(kind)),
        ensures
            self.lazy_type != kind ==> type_error(r, self.lazy_type, name@),
            self.lazy_type == kind && self.payload().len() != width_of(kind) ==> length_error(
                r,
                self.payload().len(),
                name@,
            ),
            self.lazy_type == kind && self.payload().len() == width_of(kind) ==> r is Ok
                && r->Ok_0 as nat == be_value(self.payload()) && (r->Ok_0 as nat) < pow256(
                width_of(kind),
            ),
    {
        if self.lazy_type != kind {
            return Err(LDBError::IncorrectType(self.lazy_type, name.to_string()));
        }
        let n: usize = match kind {
            LazyType::I8 | LazyType::U8 => 1,
            LazyType::I16 | LazyType::U16 => 2,
            LazyType::I32 | LazyType::U32 | LazyType::F32 => 4,
            LazyType::I64 | LazyType::U64 | LazyType::F64 => 8,
            _ => 16,
        };
        let bytes = self.take_payload();
        if bytes.len() != n {
            let shown: u8 = (bytes.len() % 256) as u8;
            return Err(LDBError::InvalidNumberByteLength(shown, name.to_string()));
        }
        let v = read_be(bytes.as_slice(), 0, n);
        proof {
            assert(bytes@.subrange(0, n as int) =~= bytes@);
            crate::be::lemma_be_value_bound(bytes@);
        }
        Ok(v)
    }

    /// The value of a `U8` leaf: 1 big-endian payload bytes.
    pub fn collect_u8(self) -> (r: Result<u8, LDBError>)
        ensures
            self.lazy_type != LazyType::U8 ==> type_error(r, self.lazy_type, "U8"@),
            self.lazy_type == LazyType::U8 && self.payload().len() != 1 ==> length_error(
                r,
                self.payload().len(),
                "U8"@,
            ),
            self.lazy_type == LazyType::U8 && self.payload().len() == 1 ==> r == Ok::<u8, LDBError>(
                be_value(self.payload()) as u8,
            ),
    {
        proof {
            lemma_pow256_values();
        }
        match self.collect_fixed(LazyType::U8, "U8") {
            Ok(v) => Ok(v as u8),
            Err(e) => Err(e),
        }
    }

    /// The value of a `U16` leaf: 2 big-endian payload bytes.
    pub fn collect_u16(self) -> (r: Result<u16, LDBError>)
        ensures
            self.lazy_type != LazyType::U16 ==> type_error(r, self.lazy_type, "U16"@),
            self.lazy_type == LazyType::U16 && self.payload().len() != 2 ==> length_error(
                r,
                self.payload().len(),
                "U16"@,
            ),
            self.lazy_type == LazyType::U16 && self.payload().len() == 2 ==> r == Ok::<u16, LDBError>(
                be_value(self.payload()) as u16,
            ),
    {
        proof {
            lemma_pow256_values();
        }
        match self.collect_fixed(LazyType::U16, "U16") {
            Ok(v) => Ok(v as u16),
            Err(e) => Err(e),
        }
    }

    /// The value of a `U32` leaf: 4 big-endian payload bytes.
    pub fn collect_u32(self) -> (r: Result<u32, LDBError>)
        ensures
            self.lazy_type != LazyType::U32 ==> type_error(r, self.lazy_type, "U32"@),
            self.lazy_type == LazyType::U32 && self.payload().len() != 4 ==> length_error(
                r,
                self.payload().len(),
                "U32"@,
            ),
            self.lazy_type == LazyType::U32 && self.payload().len() == 4 ==> r == Ok::<u32, LDBError>(
                be_value(self.payload()) as u32,
            ),
    {
        proof {
            lemma_pow256_values();
        }
        match self.collect_fixed(LazyType::U32, "U32") {
            Ok(v) => Ok(v as u32),
            Err(e) => Err(e),
        }
    }

    /// The value of a `U64` leaf: 8 big-endian payload bytes.
    pub fn collect_u64(self) -> (r: Result<u64, LDBError>)
        ensures
            self.lazy_type != LazyType::U64 ==> type_error(r, self.lazy_type, "U64"@),
            self.lazy_type == LazyType::U64 && self.payload().len() != 8 ==> length_error(
                r,
                self.payload().len(),
                "U64"@,
            ),
            self.lazy_type == LazyType::U64 && self.payload().len() == 8 ==> r == Ok::<u64, LDBError>(
                be_value(self.payload()) as u64,
            ),
    {
        proof {
            lemma_pow256_values();
        }
        match self.collect_fixed(LazyType::U64, "U64") {
            Ok(v) => Ok(v as u64),
            Err(e) => Err(e),
        }
    }

    /// The value of a `U128` leaf: 16 big-endian payload bytes.
    pub fn collect_u128(self) -> (r: Result<u128, LDBError>)
        ensures
            self.lazy_type != LazyType::U128 ==> type_error(r, self.lazy_type, "U128"@),
            self.lazy_type == LazyType::U128 && self.payload().len() != 16 ==> length_error(
                r,
                self.payload().len(),
                "U128"@,
            ),
            self.lazy_type == LazyType::U128 && self.payload().len() == 16 ==> r == Ok::<u128, LDBError>(
                be_value(self.payload()) as u128,
            ),
    {
        proof {
            lemma_pow256_values();
        }
        match self.collect_fixed(LazyType::U128, "U128") {
            Ok(v) => Ok(v as u128),
            Err(e) => Err(e),
        }
    }

    /// The value of an `I8` leaf: 1 big-endian payload bytes in two's complement.
    pub fn collect_i8(self) -> (r: Result<i8, LDBError>)
        ensures
            self.lazy_type != LazyType::I8 ==> type_error(r, self.lazy_type, "I8"@),
            self.lazy_type == LazyType::I8 && self.payload().len() != 1 ==> length_error(
                r,
                self.payload().len(),
                "I8"@,
            ),
            self.lazy_type == LazyType::I8 && self.payload().len() == 1 ==> r == Ok::<i8, LDBError>(
                from_twos(be_value(self.payload()), 1) as i8,
            ),
    {
        proof {
            lemma_pow256_values();
        }
        match self.collect_fixed(LazyType::I8, "I8") {
            Ok(v) => Ok(bits_to_signed(v, 1) as i8),
            Err(e) => Err(e),
        }
    }

    /// The value of an `I16` leaf: 2 big-endian payload bytes in two's complement.
    pub fn collect_i16(self) -> (r: Result<i16, LDBError>)
        ensures
            self.lazy_type != LazyType::I16 ==> type_error(r, self.lazy_type, "I16"@),
            self.lazy_type == LazyType::I16 && self.payload().len() != 2 ==> length_error(
                r,
                self.payload().len(),
                "I16"@,
            ),
            self.lazy_type == LazyType::I16 && self.payload().len() == 2 ==> r == Ok::<i16, LDBError>(
                from_twos(be_value(self.payload()), 2) as i16,
            ),
    {
        proof {
            lemma_pow256_values();
        }
        match self.collect_fixed(LazyType::I16, "I16") {
            Ok(v) => Ok(bits_to_signed(v, 2) as i16),
            Err(e) => Err(e),
        }
    }

    /// The value of an `I32` leaf: 4 big-endian payload bytes in two's complement.
    pub fn collect_i32(self) -> (r: Result<i32, LDBError>)
        ensures
            self.lazy_type != LazyType::I32 ==> type_error(r, self.lazy_type, "I32"@),
            self.lazy_type == LazyType::I32 && self.payload().len() != 4 ==> length_error(
                r,
                self.payload().len(),
                "I32"@,
            ),
            self.lazy_type == LazyType::I32 && self.payload().len() == 4 ==> r == Ok::<i32, LDBError>(
                from_twos(be_value(self.payload()), 4) as i32,
            ),
    {
        proof {
            lemma_pow256_values();
        }
        match self.collect_fixed(LazyType::I32, "I32") {
            Ok(v) => Ok(bits_to_signed(v, 4) as i32),
            Err(e) => Err(e),
        }
    }

    /// The value of an `I64` leaf: 8 big-endian payload bytes in two's complement.
    pub fn collect_i64(self) -> (r: Result<i64, LDBError>)
        ensures
            self.lazy_type != LazyType::I64 ==> type_error(r, self.lazy_type, "I64"@),
            self.lazy_type == LazyType::I64 && self.payload().len() != 8 ==> length_error(
                r,
                self.payload().len(),
                "I64"@,
            ),
            self.lazy_type == LazyType::I64 && self.payload().len() == 8 ==> r == Ok::<i64, LDBError>(
                from_twos(be_value(self.payload()), 8) as i64,
            ),
    {
        proof {
            lemma_pow256_values();
        }
        match self.collect_fixed(LazyType::I64, "I64") {
            Ok(v) => Ok(bits_to_signed(v, 8) as i64),
            Err(e) => Err(e),
        }
    }

    /// The value of an `I128` leaf: 16 big-endian payload bytes in two's complement.
    pub fn collect_i128(self) -> (r: Result<i128, LDBError>)
        ensures
            self.lazy_type != LazyType::I128 ==> type_error(r, self.lazy_type, "I128"@),
            self.lazy_type == LazyType::I128 && self.payload().len() != 16 ==> length_error(
                r,
                self.payload().len(),
                "I128"@,
            ),
            self.lazy_type == LazyType::I128 && self.payload().len() == 16 ==> r == Ok::<i128, LDBError>(
                from_twos(be_value(self.payload()), 16) as i128,
            ),
    {
        proof {
            lemma_pow256_values();
        }
        match self.collect_fixed(LazyType::I128, "I128") {
            Ok(v) => Ok(bits_to_signed(v, 16) as i128),
            Err(e) => Err(e),
        }
    }

    /// The bit pattern of an `F32` leaf: 4 big-endian payload bytes.
    pub fn collect_f32_bits(self) -> (r: Result<u32, LDBError>)
        ensures
            self.lazy_type != LazyType::F32 ==> type_error(r, self.lazy_type, "F32"@),
            self.lazy_type == LazyType::F32 && self.payload().len() != 4 ==> length_error(
                r,
                self.payload().len(),
                "F32"@,
            ),
            self.lazy_type == LazyType::F32 && self.payload().len() == 4 ==> r == Ok::<u32, LDBError>(
                be_value(self.payload()) as u32,
            ),
    {
        proof {
            lemma_pow256_values();
        }
        match self.collect_fixed(LazyType::F32, "F32") {
            Ok(v) => Ok(v as u32),
            Err(e) => Err(e),
        }
    }

    /// The bit pattern of an `F64` leaf: 8 big-endian payload bytes.
    pub fn collect_f64_bits(self) -> (r: Result<u64, LDBError>)
        ensures
            self.lazy_type != LazyType::F64 ==> type_error(r, self.lazy_type, "F64"@),
            self.lazy_type == LazyType::F64 && self.payload().len() != 8 ==> length_error(
                r,
                self.payload().len(),
                "F64"@,
            ),
            self.lazy_type == LazyType::F64 && self.payload().len() == 8 ==> r == Ok::<u64, LDBError>(
                be_value(self.payload()) as u64,
            ),
    {
        proof {
            lemma_pow256_values();
        }
        match self.collect_fixed(LazyType::F64, "F64") {
            Ok(v) => Ok(v as u64),
            Err(e) => Err(e),
        }
    }
}

} // verus!
