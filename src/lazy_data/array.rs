use vstd::prelude::*;

use super::{length_error, type_error, LazyData};
use crate::be::{
    be_bytes, be_value, bits_to_signed, from_twos, lemma_pow256_values, pow256, push_be, read_be,
    signed_to_bits, to_twos, valid_width,
};
use crate::error::LDBError;
use crate::file_wrapper::FileWrapper;
use crate::lazy_data::writing::appended;
use crate::lazy_type::{kind_of_tag, tag_of, width_of, LazyType};

verus! {

/// The elements of an array leaf packed back to back, `n` big-endian bytes each.
pub open spec fn array_payload(bits: Seq<nat>, n: nat) -> Seq<u8>
    decreases bits.len(),
{
    if bits.len() == 0 {
        seq![]
    } else {
        array_payload(bits.drop_last(), n) + be_bytes(bits.last(), n)
    }
}

/// The bytes of an array leaf of `elem` elements with the given bit patterns.
pub open spec fn array_leaf(elem: LazyType, bits: Seq<nat>) -> Seq<u8> {
    seq![tag_of(LazyType::Array), tag_of(elem)] + array_payload(bits, width_of(elem))
}

/// The `j`th element of `n` bytes in a packed payload.
pub open spec fn chunk(s: Seq<u8>, j: int, n: nat) -> Seq<u8> {
    s.subrange(j * n, j * n + n)
}

/// A leaf of kind `kind` and payload `p` holds a well-formed array of `elem`.
pub open spec fn array_ok(kind: LazyType, p: Seq<u8>, elem: LazyType) -> bool {
    &&& kind == LazyType::Array
    &&& p.len() > 0
    &&& kind_of_tag(p[0]) == Some(elem)
    &&& (p.len() - 1) % (width_of(elem) as int) == 0
}

/// How collecting an array of `elem` from a leaf of kind `kind` and payload `p`
/// ends: each error where it is due, and a result of the right length otherwise.
pub open spec fn array_outcome<T>(
    kind: LazyType,
    p: Seq<u8>,
    elem: LazyType,
    name: Seq<char>,
    r: Result<Vec<T>, LDBError>,
) -> bool {
    &&& kind != LazyType::Array ==> type_error(r, kind, "Array"@)
    &&& kind == LazyType::Array && p.len() == 0 ==> r == Err::<Vec<T>, LDBError>(
        LDBError::EndOfStream,
    )
    &&& kind == LazyType::Array && p.len() > 0 && kind_of_tag(p[0]) is None ==> r == Err::<
        Vec<T>,
        LDBError,
    >(LDBError::InvalidLazyType(p[0]))
    &&& kind == LazyType::Array && p.len() > 0 && kind_of_tag(p[0]) is Some && kind_of_tag(p[0])
        != Some(elem) ==> type_error(r, kind_of_tag(p[0])->Some_0, name)
    &&& kind == LazyType::Array && p.len() > 0 && kind_of_tag(p[0]) == Some(elem) && (p.len() - 1)
        % (width_of(elem) as int) != 0 ==> length_error(r, (p.len() - 1) as nat, name)
    &&& array_ok(kind, p, elem) ==> r is Ok && r->Ok_0@.len() * width_of(elem) == p.len() - 1
}

impl LazyData {
    /// Writes an array leaf of `elem` elements from their bit patterns: the
    /// `Array` tag, the element tag once, then each element at its fixed width.
    pub fn new_array(file: &mut FileWrapper, elem: LazyType, bits: &[u128]) -> (r: Result<(), LDBError>)
        requires
            valid_width(width_of(elem)),
        ensures
            appended(*old(file), *final(file), r, array_leaf(elem, bits@.map_values(|b: u128| b as nat))),
    {
        let n: usize = match elem {
            LazyType::I8 | LazyType::U8 => 1,
            LazyType::I16 | LazyType::U16 => 2,
            LazyType::I32 | LazyType::U32 | LazyType::F32 => 4,
            LazyType::I64 | LazyType::U64 | LazyType::F64 => 8,
            _ => 16,
        };
        let ghost all = bits@.map_values(|b: u128| b as nat);
        let mut out: Vec<u8> = vec![LazyType::Array.to_byte(), elem.to_byte()];
        let mut i: usize = 0;
        while i < bits.len()
            invariant
                i <= bits@.len(),
                n as nat == width_of(elem),
                n <= 16,
                all == bits@.map_values(|b: u128| b as nat),
                out@ == seq![tag_of(LazyType::Array), tag_of(elem)] + array_payload(
                    all.subrange(0, i as int),
                    n as nat,
                ),
            decreases bits@.len() - i,
        {
            push_be(&mut out, bits[i], n);
            proof {
                let pre = all.subrange(0, i as int);
                let next = all.subrange(0, i + 1);
                assert(next.drop_last() =~= pre);
                assert(next.last() == bits@[i as int] as nat);
            }
            i = i + 1;
            assert(out@ =~= seq![tag_of(LazyType::Array), tag_of(elem)] + array_payload(
                all.subrange(0, i as int),
                n as nat,
            ));
        }
        assert(all.subrange(0, i as int) =~= all);
        file.write(out.as_slice())
    }

    /// The bit patterns of the elements of an array leaf of `elem`. The kind and
    /// the element kind are checked before the elements are read.
    pub fn collect_array(self, elem: LazyType, name: &str) -> (r: Result<Vec<u128>, LDBError>)
        requires
            valid_width(width_of(elem)),
        ensures
            array_outcome(self.lazy_type, self.payload(), elem, name@, r),
            array_ok(self.lazy_type, self.payload(), elem) ==> forall|j: int|
                0 <= j < r->Ok_0@.len() ==> r->Ok_0@[j] as nat == be_value(
                    #[trigger] chunk(self.payload().drop_first(), j, width_of(elem)),
                ),
            r is Ok ==> forall|j: int|
                0 <= j < r->Ok_0@.len() ==> (#[trigger] r->Ok_0@[j] as nat) < pow256(width_of(elem)),
    {
        if self.lazy_type != LazyType::Array {
            return Err(LDBError::IncorrectType(self.lazy_type, "Array".to_string()));
        }
        let (tag, rest) = match self.split_first() {
            Ok(x) => x,
            Err(e) => return Err(e),
        };
        let found = match LazyType::from_byte(tag) {
            Ok(k) => k,
            Err(e) => return Err(e),
        };
        if found != elem {
            return Err(LDBError::IncorrectType(found, name.to_string()));
        }
        let n: usize = match elem {
            LazyType::I8 | LazyType::U8 => 1,
            LazyType::I16 | LazyType::U16 => 2,
            LazyType::I32 | LazyType::U32 | LazyType::F32 => 4,
            LazyType::I64 | LazyType::U64 | LazyType::F64 => 8,
            _ => 16,
        };
        if rest.len() % n != 0 {
            let shown: u8 = (rest.len() % 256) as u8;
            return Err(LDBError::InvalidNumberByteLength(shown, name.to_string()));
        }
        let rl = rest.len();
        let count = rl / n;
        let mut out: Vec<u128> = Vec::new();
        let mut j: usize = 0;
        let mut off: usize = 0;
        while j < count
            invariant
                n as nat == width_of(elem),
                1 <= n <= 16,
                count * n == rl,
                rl == rest@.len(),
                j <= count,
                off == j * n,
                out@.len() == j,
                forall|i: int| 0 <= i < j ==> out@[i] as nat == be_value(#[trigger] chunk(rest@, i, n as nat)),
                forall|i: int| 0 <= i < j ==> (#[trigger] out@[i] as nat) < pow256(n as nat),
            decreases count - j,
        {
            assert(off + n <= rl) by (nonlinear_arith)
                requires off == j * n, j < count, count * n == rl;
            let v = read_be(rest.as_slice(), off, n);
            out.push(v);
            proof {
                assert(chunk(rest@, j as int, n as nat) == rest@.subrange(off as int, off + n));
            }
            j = j + 1;
            off = off + n;
            assert(off == j * n) by (nonlinear_arith)
                requires off == (j - 1) * n + n;
        }
        Ok(out)
    }

    /// The elements of an array leaf of `U8`.
    pub fn collect_u8_array(self) -> (r: Result<Vec<u8>, LDBError>)
        ensures
            array_outcome(self.lazy_type, self.payload(), LazyType::U8, "U8"@, r),
            array_ok(self.lazy_type, self.payload(), LazyType::U8) ==> forall|j: int|
                0 <= j < r->Ok_0@.len() ==> r->Ok_0@[j] == be_value(#[trigger] chunk(self.payload().drop_first(), j, 1)) as u8,
    {
        proof {
            lemma_pow256_values();
        }
        let ghost p = self.payload();
        let ghost k = self.lazy_type;
        let bits = match self.collect_array(LazyType::U8, "U8") {
            Ok(b) => b,
            Err(e) => return Err(e),
        };
        let mut out: Vec<u8> = Vec::new();
        let mut i: usize = 0;
        while i < bits.len()
            invariant
                i <= bits@.len(),
                out@.len() == i,
                pow256(1) == 0x100,
                forall|j: int| 0 <= j < bits@.len() ==> (#[trigger] bits@[j] as nat) < pow256(1),
                forall|j: int| 0 <= j < i ==> #[trigger] out@[j] == bits@[j] as u8,
            decreases bits@.len() - i,
        {
            out.push(bits[i] as u8);
            i = i + 1;
        }
        Ok(out)
    }

    /// Writes an array leaf of `U8` elements.
    pub fn new_u8_array(file: &mut FileWrapper, values: &[u8]) -> (r: Result<(), LDBError>)
        ensures
            appended(
                *old(file),
                *final(file),
                r,
                array_leaf(LazyType::U8, values@.map_values(|v: u8| v as nat)),
            ),
    {
        proof {
            lemma_pow256_values();
        }
        let mut bits: Vec<u128> = Vec::new();
        let mut i: usize = 0;
        while i < values.len()
            invariant
                i <= values@.len(),
                bits@.len() == i,
                pow256(1) == 0x100,
                forall|j: int| 0 <= j < i ==> #[trigger] bits@[j] as nat == values@[j] as nat,
            decreases values@.len() - i,
        {
            bits.push(values[i] as u128);
            i = i + 1;
        }
        assert(bits@.map_values(|b: u128| b as nat) =~= values@.map_values(|v: u8| v as nat));
        LazyData::new_array(file, LazyType::U8, bits.as_slice())
    }

    /// The elements of an array leaf of `U16`.
    pub fn collect_u16_array(self) -> (r: Result<Vec<u16>, LDBError>)
        ensures
            array_outcome(self.lazy_type, self.payload(), LazyType::U16, "U16"@, r),
            array_ok(self.lazy_type, self.payload(), LazyType::U16) ==> forall|j: int|
                0 <= j < r->Ok_0@.len() ==> r->Ok_0@[j] == be_value(#[trigger] chunk(self.payload().drop_first(), j, 2)) as u16,
    {
        proof {
            lemma_pow256_values();
        }
        let ghost p = self.payload();
        let ghost k = self.lazy_type;
        let bits = match self.collect_array(LazyType::U16, "U16") {
            Ok(b) => b,
            Err(e) => return Err(e),
        };
        let mut out: Vec<u16> = Vec::new();
        let mut i: usize = 0;
        while i < bits.len()
            invariant
                i <= bits@.len(),
                out@.len() == i,
                pow256(2) == 0x10000,
                forall|j: int| 0 <= j < bits@.len() ==> (#[trigger] bits@[j] as nat) < pow256(2),
                forall|j: int| 0 <= j < i ==> #[trigger] out@[j] == bits@[j] as u16,
            decreases bits@.len() - i,
        {
            out.push(bits[i] as u16);
            i = i + 1;
        }
        Ok(out)
    }

    /// Writes an array leaf of `U16` elements.
    pub fn new_u16_array(file: &mut FileWrapper, values: &[u16]) -> (r: Result<(), LDBError>)
        ensures
            appended(
                *old(file),
                *final(file),
                r,
                array_leaf(LazyType::U16, values@.map_values(|v: u16| v as nat)),
            ),
    {
        proof {
            lemma_pow256_values();
        }
        let mut bits: Vec<u128> = Vec::new();
        let mut i: usize = 0;
        while i < values.len()
            invariant
                i <= values@.len(),
                bits@.len() == i,
                pow256(2) == 0x10000,
                forall|j: int| 0 <= j < i ==> #[trigger] bits@[j] as nat == values@[j] as nat,
            decreases values@.len() - i,
        {
            bits.push(values[i] as u128);
            i = i + 1;
        }
        assert(bits@.map_values(|b: u128| b as nat) =~= values@.map_values(|v: u16| v as nat));
        LazyData::new_array(file, LazyType::U16, bits.as_slice())
    }

    /// The elements of an array leaf of `U32`.
    pub fn collect_u32_array(self) -> (r: Result<Vec<u32>, LDBError>)
        ensures
            array_outcome(self.lazy_type, self.payload(), LazyType::U32, "U32"@, r),
            array_ok(self.lazy_type, self.payload(), LazyType::U32) ==> forall|j: int|
                0 <= j < r->Ok_0@.len() ==> r->Ok_0@[j] == be_value(#[trigger] chunk(self.payload().drop_first(), j, 4)) as u32,
    {
        proof {
            lemma_pow256_values();
        }
        let ghost p = self.payload();
        let ghost k = self.lazy_type;
        let bits = match self.collect_array(LazyType::U32, "U32") {
            Ok(b) => b,
            Err(e) => return Err(e),
        };
        let mut out: Vec<u32> = Vec::new();
        let mut i: usize = 0;
        while i < bits.len()
            invariant
                i <= bits@.len(),
                out@.len() == i,
                pow256(4) == 0x100000000,
                forall|j: int| 0 <= j < bits@.len() ==> (#[trigger] bits@[j] as nat) < pow256(4),
                forall|j: int| 0 <= j < i ==> #[trigger] out@[j] == bits@[j] as u32,
            decreases bits@.len() - i,
        {
            out.push(bits[i] as u32);
            i = i + 1;
        }
        Ok(out)
    }

    /// Writes an array leaf of `U32` elements.
    pub fn new_u32_array(file: &mut FileWrapper, values: &[u32]) -> (r: Result<(), LDBError>)
        ensures
            appended(
                *old(file),
                *final(file),
                r,
                array_leaf(LazyType::U32, values@.map_values(|v: u32| v as nat)),
            ),
    {
        proof {
            lemma_pow256_values();
        }
        let mut bits: Vec<u128> = Vec::new();
        let mut i: usize = 0;
        while i < values.len()
            invariant
                i <= values@.len(),
                bits@.len() == i,
                pow256(4) == 0x100000000,
                forall|j: int| 0 <= j < i ==> #[trigger] bits@[j] as nat == values@[j] as nat,
            decreases values@.len() - i,
        {
            bits.push(values[i] as u128);
            i = i + 1;
        }
        assert(bits@.map_values(|b: u128| b as nat) =~= values@.map_values(|v: u32| v as nat));
        LazyData::new_array(file, LazyType::U32, bits.as_slice())
    }

    /// The elements of an array leaf of `U64`.
    pub fn collect_u64_array(self) -> (r: Result<Vec<u64>, LDBError>)
        ensures
            array_outcome(self.lazy_type, self.payload(), LazyType::U64, "U64"@, r),
            array_ok(self.lazy_type, self.payload(), LazyType::U64) ==> forall|j: int|
                0 <= j < r->Ok_0@.len() ==> r->Ok_0@[j] == be_value(#[trigger] chunk(self.payload().drop_first(), j, 8)) as u64,
    {
        proof {
            lemma_pow256_values();
        }
        let ghost p = self.payload();
        let ghost k = self.lazy_type;
        let bits = match self.collect_array(LazyType::U64, "U64") {
            Ok(b) => b,
            Err(e) => return Err(e),
        };
        let mut out: Vec<u64> = Vec::new();
        let mut i: usize = 0;
        while i < bits.len()
            invariant
                i <= bits@.len(),
                out@.len() == i,
                pow256(8) == 0x10000000000000000,
                forall|j: int| 0 <= j < bits@.len() ==> (#[trigger] bits@[j] as nat) < pow256(8),
                forall|j: int| 0 <= j < i ==> #[trigger] out@[j] == bits@[j] as u64,
            decreases bits@.len() - i,
        {
            out.push(bits[i] as u64);
            i = i + 1;
        }
        Ok(out)
    }

    /// Writes an array leaf of `U64` elements.
    pub fn new_u64_array(file: &mut FileWrapper, values: &[u64]) -> (r: Result<(), LDBError>)
        ensures
            appended(
                *old(file),
                *final(file),
                r,
                array_leaf(LazyType::U64, values@.map_values(|v: u64| v as nat)),
            ),
    {
        proof {
            lemma_pow256_values();
        }
        let mut bits: Vec<u128> = Vec::new();
        let mut i: usize = 0;
        while i < values.len()
            invariant
                i <= values@.len(),
                bits@.len() == i,
                pow256(8) == 0x10000000000000000,
                forall|j: int| 0 <= j < i ==> #[trigger] bits@[j] as nat == values@[j] as nat,
            decreases values@.len() - i,
        {
            bits.push(values[i] as u128);
            i = i + 1;
        }
        assert(bits@.map_values(|b: u128| b as nat) =~= values@.map_values(|v: u64| v as nat));
        LazyData::new_array(file, LazyType::U64, bits.as_slice())
    }

    /// The elements of an array leaf of `U128`.
    pub fn collect_u128_array(self) -> (r: Result<Vec<u128>, LDBError>)
        ensures
            array_outcome(self.lazy_type, self.payload(), LazyType::U128, "U128"@, r),
            array_ok(self.lazy_type, self.payload(), LazyType::U128) ==> forall|j: int|
                0 <= j < r->Ok_0@.len() ==> r->Ok_0@[j] == be_value(#[trigger] chunk(self.payload().drop_first(), j, 16)) as u128,
    {
        proof {
            lemma_pow256_values();
        }
        let ghost p = self.payload();
        let ghost k = self.lazy_type;
        let bits = match self.collect_array(LazyType::U128, "U128") {
            Ok(b) => b,
            Err(e) => return Err(e),
        };
        let mut out: Vec<u128> = Vec::new();
        let mut i: usize = 0;
        while i < bits.len()
            invariant
                i <= bits@.len(),
                out@.len() == i,
                pow256(16) == 0x100000000000000000000000000000000,
                forall|j: int| 0 <= j < bits@.len() ==> (#[trigger] bits@[j] as nat) < pow256(16),
                forall|j: int| 0 <= j < i ==> #[trigger] out@[j] == bits@[j] as u128,
            decreases bits@.len() - i,
        {
            out.push(bits[i] as u128);
            i = i + 1;
        }
        Ok(out)
    }

    /// Writes an array leaf of `U128` elements.
    pub fn new_u128_array(file: &mut FileWrapper, values: &[u128]) -> (r: Result<(), LDBError>)
        ensures
            appended(
                *old(file),
                *final(file),
                r,
                array_leaf(LazyType::U128, values@.map_values(|v: u128| v as nat)),
            ),
    {
        proof {
            lemma_pow256_values();
        }
        let mut bits: Vec<u128> = Vec::new();
        let mut i: usize = 0;
        while i < values.len()
            invariant
                i <= values@.len(),
                bits@.len() == i,
                pow256(16) == 0x100000000000000000000000000000000,
                forall|j: int| 0 <= j < i ==> #[trigger] bits@[j] as nat == values@[j] as nat,
            decreases values@.len() - i,
        {
            bits.push(values[i] as u128);
            i = i + 1;
        }
        assert(bits@.map_values(|b: u128| b as nat) =~= values@.map_values(|v: u128| v as nat));
        LazyData::new_array(file, LazyType::U128, bits.as_slice())
    }

    /// The elements of an array leaf of `I8`.
    pub fn collect_i8_array(self) -> (r: Result<Vec<i8>, LDBError>)
        ensures
            array_outcome(self.lazy_type, self.payload(), LazyType::I8, "I8"@, r),
            array_ok(self.lazy_type, self.payload(), LazyType::I8) ==> forall|j: int|
                0 <= j < r->Ok_0@.len() ==> r->Ok_0@[j] == from_twos(be_value(#[trigger] chunk(self.payload().drop_first(), j, 1)), 1) as i8,
    {
        proof {
            lemma_pow256_values();
        }
        let ghost p = self.payload();
        let ghost k = self.lazy_type;
        let bits = match self.collect_array(LazyType::I8, "I8") {
            Ok(b) => b,
            Err(e) => return Err(e),
        };
        let mut out: Vec<i8> = Vec::new();
        let mut i: usize = 0;
        while i < bits.len()
            invariant
                i <= bits@.len(),
                out@.len() == i,
                pow256(1) == 0x100,
                forall|j: int| 0 <= j < bits@.len() ==> (#[trigger] bits@[j] as nat) < pow256(1),
                forall|j: int| 0 <= j < i ==> #[trigger] out@[j] == from_twos(bits@[j] as nat, 1) as i8,
            decreases bits@.len() - i,
        {
            out.push(bits_to_signed(bits[i], 1) as i8);
            i = i + 1;
        }
        Ok(out)
    }

    /// Writes an array leaf of `I8` elements.
    pub fn new_i8_array(file: &mut FileWrapper, values: &[i8]) -> (r: Result<(), LDBError>)
        ensures
            appended(
                *old(file),
                *final(file),
                r,
                array_leaf(LazyType::I8, values@.map_values(|v: i8| to_twos(v as int, 1))),
            ),
    {
        proof {
            lemma_pow256_values();
        }
        let mut bits: Vec<u128> = Vec::new();
        let mut i: usize = 0;
        while i < values.len()
            invariant
                i <= values@.len(),
                bits@.len() == i,
                pow256(1) == 0x100,
                forall|j: int| 0 <= j < i ==> #[trigger] bits@[j] as nat == to_twos(values@[j] as int, 1),
            decreases values@.len() - i,
        {
            bits.push(signed_to_bits(values[i] as i128, 1));
            i = i + 1;
        }
        assert(bits@.map_values(|b: u128| b as nat) =~= values@.map_values(|v: i8| to_twos(v as int, 1)));
        LazyData::new_array(file, LazyType::I8, bits.as_slice())
    }

    /// The elements of an array leaf of `I16`.
    pub fn collect_i16_array(self) -> (r: Result<Vec<i16>, LDBError>)
        ensures
            array_outcome(self.lazy_type, self.payload(), LazyType::I16, "I16"@, r),
            array_ok(self.lazy_type, self.payload(), LazyType::I16) ==> forall|j: int|
                0 <= j < r->Ok_0@.len() ==> r->Ok_0@[j] == from_twos(be_value(#[trigger] chunk(self.payload().drop_first(), j, 2)), 2) as i16,
    {
        proof {
            lemma_pow256_values();
        }
        let ghost p = self.payload();
        let ghost k = self.lazy_type;
        let bits = match self.collect_array(LazyType::I16, "I16") {
            Ok(b) => b,
            Err(e) => return Err(e),
        };
        let mut out: Vec<i16> = Vec::new();
        let mut i: usize = 0;
        while i < bits.len()
            invariant
                i <= bits@.len(),
                out@.len() == i,
                pow256(2) == 0x10000,
                forall|j: int| 0 <= j < bits@.len() ==> (#[trigger] bits@[j] as nat) < pow256(2),
                forall|j: int| 0 <= j < i ==> #[trigger] out@[j] == from_twos(bits@[j] as nat, 2) as i16,
            decreases bits@.len() - i,
        {
            out.push(bits_to_signed(bits[i], 2) as i16);
            i = i + 1;
        }
        Ok(out)
    }

    /// Writes an array leaf of `I16` elements.
    pub fn new_i16_array(file: &mut FileWrapper, values: &[i16]) -> (r: Result<(), LDBError>)
        ensures
            appended(
                *old(file),
                *final(file),
                r,
                array_leaf(LazyType::I16, values@.map_values(|v: i16| to_twos(v as int, 2))),
            ),
    {
        proof {
            lemma_pow256_values();
        }
        let mut bits: Vec<u128> = Vec::new();
        let mut i: usize = 0;
        while i < values.len()
            invariant
                i <= values@.len(),
                bits@.len() == i,
                pow256(2) == 0x10000,
                forall|j: int| 0 <= j < i ==> #[trigger] bits@[j] as nat == to_twos(values@[j] as int, 2),
            decreases values@.len() - i,
        {
            bits.push(signed_to_bits(values[i] as i128, 2));
            i = i + 1;
        }
        assert(bits@.map_values(|b: u128| b as nat) =~= values@.map_values(|v: i16| to_twos(v as int, 2)));
        LazyData::new_array(file, LazyType::I16, bits.as_slice())
    }

    /// The elements of an array leaf of `I32`.
    pub fn collect_i32_array(self) -> (r: Result<Vec<i32>, LDBError>)
        ensures
            array_outcome(self.lazy_type, self.payload(), LazyType::I32, "I32"@, r),
            array_ok(self.lazy_type, self.payload(), LazyType::I32) ==> forall|j: int|
                0 <= j < r->Ok_0@.len() ==> r->Ok_0@[j] == from_twos(be_value(#[trigger] chunk(self.payload().drop_first(), j, 4)), 4) as i32,
    {
        proof {
            lemma_pow256_values();
        }
        let ghost p = self.payload();
        let ghost k = self.lazy_type;
        let bits = match self.collect_array(LazyType::I32, "I32") {
            Ok(b) => b,
            Err(e) => return Err(e),
        };
        let mut out: Vec<i32> = Vec::new();
        let mut i: usize = 0;
        while i < bits.len()
            invariant
                i <= bits@.len(),
                out@.len() == i,
                pow256(4) == 0x100000000,
                forall|j: int| 0 <= j < bits@.len() ==> (#[trigger] bits@[j] as nat) < pow256(4),
                forall|j: int| 0 <= j < i ==> #[trigger] out@[j] == from_twos(bits@[j] as nat, 4) as i32,
            decreases bits@.len() - i,
        {
            out.push(bits_to_signed(bits[i], 4) as i32);
            i = i + 1;
        }
        Ok(out)
    }

    /// Writes an array leaf of `I32` elements.
    pub fn new_i32_array(file: &mut FileWrapper, values: &[i32]) -> (r: Result<(), LDBError>)
        ensures
            appended(
                *old(file),
                *final(file),
                r,
                array_leaf(LazyType::I32, values@.map_values(|v: i32| to_twos(v as int, 4))),
            ),
    {
        proof {
            lemma_pow256_values();
        }
        let mut bits: Vec<u128> = Vec::new();
        let mut i: usize = 0;
        while i < values.len()
            invariant
                i <= values@.len(),
                bits@.len() == i,
                pow256(4) == 0x100000000,
                forall|j: int| 0 <= j < i ==> #[trigger] bits@[j] as nat == to_twos(values@[j] as int, 4),
            decreases values@.len() - i,
        {
            bits.push(signed_to_bits(values[i] as i128, 4));
            i = i + 1;
        }
        assert(bits@.map_values(|b: u128| b as nat) =~= values@.map_values(|v: i32| to_twos(v as int, 4)));
        LazyData::new_array(file, LazyType::I32, bits.as_slice())
    }

    /// The elements of an array leaf of `I64`.
    pub fn collect_i64_array(self) -> (r: Result<Vec<i64>, LDBError>)
        ensures
            array_outcome(self.lazy_type, self.payload(), LazyType::I64, "I64"@, r),
            array_ok(self.lazy_type, self.payload(), LazyType::I64) ==> forall|j: int|
                0 <= j < r->Ok_0@.len() ==> r->Ok_0@[j] == from_twos(be_value(#[trigger] chunk(self.payload().drop_first(), j, 8)), 8) as i64,
    {
        proof {
            lemma_pow256_values();
        }
        let ghost p = self.payload();
        let ghost k = self.lazy_type;
        let bits = match self.collect_array(LazyType::I64, "I64") {
            Ok(b) => b,
            Err(e) => return Err(e),
        };
        let mut out: Vec<i64> = Vec::new();
        let mut i: usize = 0;
        while i < bits.len()
            invariant
                i <= bits@.len(),
                out@.len() == i,
                pow256(8) == 0x10000000000000000,
                forall|j: int| 0 <= j < bits@.len() ==> (#[trigger] bits@[j] as nat) < pow256(8),
                forall|j: int| 0 <= j < i ==> #[trigger] out@[j] == from_twos(bits@[j] as nat, 8) as i64,
            decreases bits@.len() - i,
        {
            out.push(bits_to_signed(bits[i], 8) as i64);
            i = i + 1;
        }
        Ok(out)
    }

    /// Writes an array leaf of `I64` elements.
    pub fn new_i64_array(file: &mut FileWrapper, values: &[i64]) -> (r: Result<(), LDBError>)
        ensures
            appended(
                *old(file),
                *final(file),
                r,
                array_leaf(LazyType::I64, values@.map_values(|v: i64| to_twos(v as int, 8))),
            ),
    {
        proof {
            lemma_pow256_values();
        }
        let mut bits: Vec<u128> = Vec::new();
        let mut i: usize = 0;
        while i < values.len()
            invariant
                i <= values@.len(),
                bits@.len() == i,
                pow256(8) == 0x10000000000000000,
                forall|j: int| 0 <= j < i ==> #[trigger] bits@[j] as nat == to_twos(values@[j] as int, 8),
            decreases values@.len() - i,
        {
            bits.push(signed_to_bits(values[i] as i128, 8));
            i = i + 1;
        }
        assert(bits@.map_values(|b: u128| b as nat) =~= values@.map_values(|v: i64| to_twos(v as int, 8)));
        LazyData::new_array(file, LazyType::I64, bits.as_slice())
    }

    /// The elements of an array leaf of `I128`.
    pub fn collect_i128_array(self) -> (r: Result<Vec<i128>, LDBError>)
        ensures
            array_outcome(self.lazy_type, self.payload(), LazyType::I128, "I128"@, r),
            array_ok(self.lazy_type, self.payload(), LazyType::I128) ==> forall|j: int|
                0 <= j < r->Ok_0@.len() ==> r->Ok_0@[j] == from_twos(be_value(#[trigger] chunk(self.payload().drop_first(), j, 16)), 16) as i128,
    {
        proof {
            lemma_pow256_values();
        }
        let ghost p = self.payload();
        let ghost k = self.lazy_type;
        let bits = match self.collect_array(LazyType::I128, "I128") {
            Ok(b) => b,
            Err(e) => return Err(e),
        };
        let mut out: Vec<i128> = Vec::new();
        let mut i: usize = 0;
        while i < bits.len()
            invariant
                i <= bits@.len(),
                out@.len() == i,
                pow256(16) == 0x100000000000000000000000000000000,
                forall|j: int| 0 <= j < bits@.len() ==> (#[trigger] bits@[j] as nat) < pow256(16),
                forall|j: int| 0 <= j < i ==> #[trigger] out@[j] == from_twos(bits@[j] as nat, 16) as i128,
            decreases bits@.len() - i,
        {
            out.push(bits_to_signed(bits[i], 16) as i128);
            i = i + 1;
        }
        Ok(out)
    }

    /// Writes an array leaf of `I128` elements.
    pub fn new_i128_array(file: &mut FileWrapper, values: &[i128]) -> (r: Result<(), LDBError>)
        ensures
            appended(
                *old(file),
                *final(file),
                r,
                array_leaf(LazyType::I128, values@.map_values(|v: i128| to_twos(v as int, 16))),
            ),
    {
        proof {
            lemma_pow256_values();
        }
        let mut bits: Vec<u128> = Vec::new();
        let mut i: usize = 0;
        while i < values.len()
            invariant
                i <= values@.len(),
                bits@.len() == i,
                pow256(16) == 0x100000000000000000000000000000000,
                forall|j: int| 0 <= j < i ==> #[trigger] bits@[j] as nat == to_twos(values@[j] as int, 16),
            decreases values@.len() - i,
        {
            bits.push(signed_to_bits(values[i] as i128, 16));
            i = i + 1;
        }
        assert(bits@.map_values(|b: u128| b as nat) =~= values@.map_values(|v: i128| to_twos(v as int, 16)));
        LazyData::new_array(file, LazyType::I128, bits.as_slice())
    }
}

} // verus!
