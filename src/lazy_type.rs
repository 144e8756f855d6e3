use vstd::prelude::*;

use crate::error::LDBError;

verus! {

/// The kind of a leaf value; its tag byte is the first byte of a leaf file.
#[derive(Debug, PartialEq, Eq, Structural, Clone, Copy)]
pub enum LazyType {
    Void,
    String,
    Binary,
    I8,
    I16,
    I32,
    I64,
    I128,
    U8,
    U16,
    U32,
    U64,
    U128,
    F32,
    F64,
    True,
    False,
    Link,
    Array,
}

/// The signed integer kinds.
#[derive(Debug, PartialEq, Eq, Structural, Clone, Copy)]
pub enum LazyINumType {
    I8,
    I16,
    I32,
    I64,
    I128,
}

/// The unsigned integer kinds.
#[derive(Debug, PartialEq, Eq, Structural, Clone, Copy)]
pub enum LazyUNumType {
    U8,
    U16,
    U32,
    U64,
    U128,
}

/// The floating point kinds.
#[derive(Debug, PartialEq, Eq, Structural, Clone, Copy)]
pub enum LazyFloatType {
    F32,
    F64,
}

/// The on-disk tag of each kind. This mapping is the file format: it never changes.
pub open spec fn tag_of(k: LazyType) -> u8 {
    match k {
        LazyType::Void => 0,
        LazyType::String => 1,
        LazyType::Binary => 2,
        LazyType::I8 => 3,
        LazyType::I16 => 4,
        LazyType::I32 => 5,
        LazyType::I64 => 6,
        LazyType::I128 => 7,
        LazyType::U8 => 8,
        LazyType::U16 => 9,
        LazyType::U32 => 10,
        LazyType::U64 => 11,
        LazyType::U128 => 12,
        LazyType::F32 => 13,
        LazyType::F64 => 14,
        LazyType::True => 15,
        LazyType::False => 16,
        LazyType::Link => 17,
        LazyType::Array => 18,
    }
}

/// The kind that a tag byte names, if any.
pub open spec fn kind_of_tag(b: u8) -> Option<LazyType> {
    if b == 0 { Some(LazyType::Void) }
    else if b == 1 { Some(LazyType::String) }
    else if b == 2 { Some(LazyType::Binary) }
    else if b == 3 { Some(LazyType::I8) }
    else if b == 4 { Some(LazyType::I16) }
    else if b == 5 { Some(LazyType::I32) }
    else if b == 6 { Some(LazyType::I64) }
    else if b == 7 { Some(LazyType::I128) }
    else if b == 8 { Some(LazyType::U8) }
    else if b == 9 { Some(LazyType::U16) }
    else if b == 10 { Some(LazyType::U32) }
    else if b == 11 { Some(LazyType::U64) }
    else if b == 12 { Some(LazyType::U128) }
    else if b == 13 { Some(LazyType::F32) }
    else if b == 14 { Some(LazyType::F64) }
    else if b == 15 { Some(LazyType::True) }
    else if b == 16 { Some(LazyType::False) }
    else if b == 17 { Some(LazyType::Link) }
    else if b == 18 { Some(LazyType::Array) }
    else { None }
}

/// The payload width in bytes of a fixed-width numeric kind; zero for the others.
pub open spec fn width_of(k: LazyType) -> nat {
    match k {
        LazyType::I8 | LazyType::U8 => 1,
        LazyType::I16 | LazyType::U16 => 2,
        LazyType::I32 | LazyType::U32 | LazyType::F32 => 4,
        LazyType::I64 | LazyType::U64 | LazyType::F64 => 8,
        LazyType::I128 | LazyType::U128 => 16,
        _ => 0,
    }
}

pub open spec fn is_signed(k: LazyType) -> bool {
    k is I8 || k is I16 || k is I32 || k is I64 || k is I128
}

pub open spec fn is_unsigned(k: LazyType) -> bool {
    k is U8 || k is U16 || k is U32 || k is U64 || k is U128
}

/// Decoding the tag of a kind gives the kind back.
pub proof fn lemma_tag_round_trip(k: LazyType)
    ensures
        kind_of_tag(tag_of(k)) == Some(k),
{
}

/// A byte that decodes to a kind is that kind's tag: the mapping is a bijection
/// between the kinds and the bytes below nineteen.
pub proof fn lemma_tag_decode_encode(b: u8)
    ensures
        kind_of_tag(b) matches Some(k) ==> tag_of(k) == b,
        kind_of_tag(b) is Some <==> b < 19,
{
}

impl LazyType {
    /// The tag byte of this kind.
    pub fn to_byte(self) -> (r: u8)
        ensures
            r == tag_of(self),
    {
        match self {
            LazyType::Void => 0,
            LazyType::String => 1,
            LazyType::Binary => 2,
            LazyType::I8 => 3,
            LazyType::I16 => 4,
            LazyType::I32 => 5,
            LazyType::I64 => 6,
            LazyType::I128 => 7,
            LazyType::U8 => 8,
            LazyType::U16 => 9,
            LazyType::U32 => 10,
            LazyType::U64 => 11,
            LazyType::U128 => 12,
            LazyType::F32 => 13,
            LazyType::F64 => 14,
            LazyType::True => 15,
            LazyType::False => 16,
            LazyType::Link => 17,
            LazyType::Array => 18,
        }
    }

    /// The kind that a tag byte names; an unknown byte is an error, never a guess.
    pub fn from_byte(b: u8) -> (r: Result<LazyType, LDBError>)
        ensures
            kind_of_tag(b) matches Some(k) ==> r == Ok::<LazyType, LDBError>(k),
            kind_of_tag(b) is None ==> r == Err::<LazyType, LDBError>(LDBError::InvalidLazyType(b)),
    {
        match b {
            0 => Ok(LazyType::Void),
            1 => Ok(LazyType::String),
            2 => Ok(LazyType::Binary),
            3 => Ok(LazyType::I8),
            4 => Ok(LazyType::I16),
            5 => Ok(LazyType::I32),
            6 => Ok(LazyType::I64),
            7 => Ok(LazyType::I128),
            8 => Ok(LazyType::U8),
            9 => Ok(LazyType::U16),
            10 => Ok(LazyType::U32),
            11 => Ok(LazyType::U64),
            12 => Ok(LazyType::U128),
            13 => Ok(LazyType::F32),
            14 => Ok(LazyType::F64),
            15 => Ok(LazyType::True),
            16 => Ok(LazyType::False),
            17 => Ok(LazyType::Link),
            18 => Ok(LazyType::Array),
            _ => Err(LDBError::InvalidLazyType(b)),
        }
    }
}

/// The leaf kind of a signed integer kind.
pub open spec fn signed_kind(t: LazyINumType) -> LazyType {
    match t {
        LazyINumType::I8 => LazyType::I8,
        LazyINumType::I16 => LazyType::I16,
        LazyINumType::I32 => LazyType::I32,
        LazyINumType::I64 => LazyType::I64,
        LazyINumType::I128 => LazyType::I128,
    }
}

/// The leaf kind of an unsigned integer kind.
pub open spec fn unsigned_kind(t: LazyUNumType) -> LazyType {
    match t {
        LazyUNumType::U8 => LazyType::U8,
        LazyUNumType::U16 => LazyType::U16,
        LazyUNumType::U32 => LazyType::U32,
        LazyUNumType::U64 => LazyType::U64,
        LazyUNumType::U128 => LazyType::U128,
    }
}

impl LazyINumType {
    /// The leaf kind of this signed integer kind.
    pub fn to_lazy_type(self) -> (r: LazyType)
        ensures
            r == signed_kind(self),
            is_signed(r),
    {
        match self {
            LazyINumType::I8 => LazyType::I8,
            LazyINumType::I16 => LazyType::I16,
            LazyINumType::I32 => LazyType::I32,
            LazyINumType::I64 => LazyType::I64,
            LazyINumType::I128 => LazyType::I128,
        }
    }
}

impl LazyUNumType {
    /// The leaf kind of this unsigned integer kind.
    pub fn to_lazy_type(self) -> (r: LazyType)
        ensures
            r == unsigned_kind(self),
            is_unsigned(r),
    {
        match self {
            LazyUNumType::U8 => LazyType::U8,
            LazyUNumType::U16 => LazyType::U16,
            LazyUNumType::U32 => LazyType::U32,
            LazyUNumType::U64 => LazyType::U64,
            LazyUNumType::U128 => LazyType::U128,
        }
    }
}

impl LazyFloatType {
    /// The leaf kind of this floating point kind.
    pub fn to_lazy_type(self) -> (r: LazyType)
        ensures
            self is F32 ==> r == LazyType::F32,
            self is F64 ==> r == LazyType::F64,
    {
        match self {
            LazyFloatType::F32 => LazyType::F32,
            LazyFloatType::F64 => LazyType::F64,
        }
    }
}

} // verus!
