use vstd::prelude::*;
use vstd::utf8::{decode_utf8, encode_utf8, encode_utf8_decode_utf8, encode_utf8_valid_utf8, valid_utf8};

use super::array::{array_leaf, array_ok, array_payload, chunk};
use super::leaf;
use crate::be::{
    be_bytes, be_value, from_twos, lemma_be_bytes_len, lemma_be_round_trip, lemma_twos_round_trip,
    pow256, signed_fits, to_twos, valid_width,
};
use crate::lazy_type::{is_signed, is_unsigned, kind_of_tag, width_of, LazyType};

verus! {

/// Round trip of an unsigned leaf: the leaf that `new_u*` writes for `v` loads
/// as its kind, with a payload of the kind's width whose value is `v`.
pub proof fn lemma_unsigned_round_trip(kind: LazyType, v: nat)
    requires
        is_unsigned(kind),
        v < pow256(width_of(kind)),
    ensures
        ({
            let b = leaf(kind, be_bytes(v, width_of(kind)));
            &&& b.len() > 0
            &&& kind_of_tag(b[0]) == Some(kind)
            &&& b.drop_first().len() == width_of(kind)
            &&& be_value(b.drop_first()) == v
        }),
{
    lemma_be_round_trip(v, width_of(kind));
    let b = leaf(kind, be_bytes(v, width_of(kind)));
    assert(b.drop_first() =~= be_bytes(v, width_of(kind)));
}

/// Round trip of a signed leaf: the leaf that `new_i*` writes for `v` loads as
/// its kind, with a payload of the kind's width that reads back as `v`.
pub proof fn lemma_signed_round_trip(kind: LazyType, v: int)
    requires
        is_signed(kind),
        signed_fits(v, width_of(kind)),
    ensures
        ({
            let b = leaf(kind, be_bytes(to_twos(v, width_of(kind)), width_of(kind)));
            &&& b.len() > 0
            &&& kind_of_tag(b[0]) == Some(kind)
            &&& b.drop_first().len() == width_of(kind)
            &&& from_twos(be_value(b.drop_first()), width_of(kind)) == v
        }),
{
    let n = width_of(kind);
    lemma_twos_round_trip(v, n);
    lemma_be_round_trip(to_twos(v, n), n);
    let b = leaf(kind, be_bytes(to_twos(v, n), n));
    assert(b.drop_first() =~= be_bytes(to_twos(v, n), n));
}

/// Round trip of a text leaf (`String` or `Link`): the payload is valid UTF-8
/// and decodes to the text written.
pub proof fn lemma_text_round_trip(kind: LazyType, s: Seq<char>)
    requires
        kind == LazyType::String || kind == LazyType::Link,
    ensures
        ({
            let b = leaf(kind, encode_utf8(s));
            &&& b.len() > 0
            &&& kind_of_tag(b[0]) == Some(kind)
            &&& valid_utf8(b.drop_first())
            &&& decode_utf8(b.drop_first()) == s
        }),
{
    encode_utf8_valid_utf8(s);
    encode_utf8_decode_utf8(s);
    let b = leaf(kind, encode_utf8(s));
    assert(b.drop_first() =~= encode_utf8(s));
}

/// Round trip of the leaves without a numeric payload: `Binary` keeps its bytes
/// as they are, and `Void`, `True` and `False` have nothing after the tag.
pub proof fn lemma_plain_round_trip(kind: LazyType, p: Seq<u8>)
    requires
        kind == LazyType::Binary || ((kind == LazyType::Void || kind == LazyType::True || kind
            == LazyType::False) && p.len() == 0),
    ensures
        ({
            let b = leaf(kind, p);
            &&& b.len() > 0
            &&& kind_of_tag(b[0]) == Some(kind)
            &&& b.drop_first() == p
        }),
{
    assert(leaf(kind, p).drop_first() =~= p);
}

proof fn lemma_array_payload_chunks(bits: Seq<nat>, n: nat)
    requires
        n > 0,
    ensures
        array_payload(bits, n).len() == bits.len() * n,
        forall|j: int|
            0 <= j < bits.len() ==> #[trigger] chunk(array_payload(bits, n), j, n) == be_bytes(
                bits[j],
                n,
            ),
    decreases bits.len(),
{
    if bits.len() > 0 {
        let pre = bits.drop_last();
        lemma_array_payload_chunks(pre, n);
        lemma_be_bytes_len(bits.last(), n);
        let a = array_payload(pre, n);
        let all = array_payload(bits, n);
        assert(all == a + be_bytes(bits.last(), n));
        assert(a.len() + n == bits.len() * n) by (nonlinear_arith)
            requires a.len() == pre.len() * n, pre.len() + 1 == bits.len();
        assert forall|j: int| 0 <= j < bits.len() implies #[trigger] chunk(all, j, n) == be_bytes(
            bits[j],
            n,
        ) by {
            if j < pre.len() {
                assert(j * n + n <= a.len()) by (nonlinear_arith)
                    requires j < pre.len(), a.len() == pre.len() * n, j >= 0;
                assert(0 <= j * n) by (nonlinear_arith)
                    requires j >= 0, n > 0;
                assert(chunk(all, j, n) =~= chunk(a, j, n));
                assert(pre[j] == bits[j]);
            } else {
                assert(j * n == a.len()) by (nonlinear_arith)
                    requires j == pre.len(), a.len() == pre.len() * n;
                assert(chunk(all, j, n) =~= be_bytes(bits.last(), n));
            }
        }
    }
}

/// Round trip of an array leaf: the leaf that `new_*_array` writes holds a
/// well-formed array of its element kind, with one element per value written,
/// each reading back as the value.
pub proof fn lemma_array_round_trip(elem: LazyType, bits: Seq<nat>)
    requires
        valid_width(width_of(elem)),
        forall|j: int| 0 <= j < bits.len() ==> #[trigger] bits[j] < pow256(width_of(elem)),
    ensures
        ({
            let b = array_leaf(elem, bits);
            let p = b.drop_first();
            &&& b.len() > 0
            &&& kind_of_tag(b[0]) == Some(LazyType::Array)
            &&& array_ok(LazyType::Array, p, elem)
            &&& p.len() - 1 == bits.len() * width_of(elem)
            &&& forall|j: int|
                0 <= j < bits.len() ==> be_value(#[trigger] chunk(p.drop_first(), j, width_of(elem)))
                    == bits[j]
        }),
{
    let n = width_of(elem);
    lemma_array_payload_chunks(bits, n);
    let b = array_leaf(elem, bits);
    let p = b.drop_first();
    assert(p.drop_first() =~= array_payload(bits, n));
    assert(((bits.len() * n) as int) % (n as int) == 0) by (nonlinear_arith)
        requires n > 0;
    assert forall|j: int| 0 <= j < bits.len() implies be_value(
        #[trigger] chunk(p.drop_first(), j, n),
    ) == bits[j] by {
        lemma_be_round_trip(bits[j], n);
    }
}

} // verus!
