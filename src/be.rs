use vstd::prelude::*;

verus! {

/// 256 to the power `n`: one more than the largest value that `n` bytes hold.
pub open spec fn pow256(n: nat) -> nat
    decreases n,
{
    if n == 0 { 1 } else { 256 * pow256((n - 1) as nat) }
}

/// The widths in bytes of the fixed-width numeric kinds.
pub open spec fn valid_width(n: nat) -> bool {
    n == 1 || n == 2 || n == 4 || n == 8 || n == 16
}

/// The unsigned value of a big-endian byte sequence.
pub open spec fn be_value(s: Seq<u8>) -> nat
    decreases s.len(),
{
    if s.len() == 0 { 0 } else { be_value(s.drop_last()) * 256 + s.last() as nat }
}

/// The low `n` bytes of `v`, most significant first.
pub open spec fn be_bytes(v: nat, n: nat) -> Seq<u8>
    decreases n,
{
    if n == 0 { seq![] } else { be_bytes(v / 256, (n - 1) as nat).push((v % 256) as u8) }
}

/// The two's complement bits of `v` on `n` bytes.
pub open spec fn to_twos(v: int, n: nat) -> nat {
    if v >= 0 { v as nat } else { (v + pow256(n)) as nat }
}

/// The signed value of the `n`-byte two's complement bits `u`.
pub open spec fn from_twos(u: nat, n: nat) -> int {
    if u < pow256(n) / 2 { u as int } else { u - pow256(n) }
}

/// The range of an `n`-byte signed integer.
pub open spec fn signed_fits(v: int, n: nat) -> bool {
    -((pow256(n) / 2) as int) <= v < (pow256(n) / 2) as int
}

pub proof fn lemma_pow256_positive(n: nat)
    ensures
        pow256(n) >= 1,
    decreases n,
{
    if n > 0 {
        lemma_pow256_positive((n - 1) as nat);
    }
}

pub proof fn lemma_pow256_values()
    ensures
        pow256(1) == 0x100,
        pow256(2) == 0x1_0000,
        pow256(4) == 0x1_0000_0000,
        pow256(8) == 0x1_0000_0000_0000_0000,
        pow256(15) == 0x1_00_0000_0000_0000_0000_0000_0000_0000,
        pow256(16) == 0x1_0000_0000_0000_0000_0000_0000_0000_0000,
{
    reveal_with_fuel(pow256, 17);
}

pub proof fn lemma_pow256_monotone(a: nat, b: nat)
    requires
        a <= b,
    ensures
        pow256(a) <= pow256(b),
    decreases b,
{
    if a < b {
        lemma_pow256_monotone(a, (b - 1) as nat);
        lemma_pow256_positive((b - 1) as nat);
    }
}

pub proof fn lemma_be_bytes_len(v: nat, n: nat)
    ensures
        be_bytes(v, n).len() == n,
    decreases n,
{
    if n > 0 {
        lemma_be_bytes_len(v / 256, (n - 1) as nat);
    }
}

pub proof fn lemma_be_value_bound(s: Seq<u8>)
    ensures
        be_value(s) < pow256(s.len()),
    decreases s.len(),
{
    if s.len() > 0 {
        lemma_be_value_bound(s.drop_last());
        let a = be_value(s.drop_last());
        let p = pow256((s.len() - 1) as nat);
        let b = s.last() as nat;
        assert(a * 256 + b < 256 * p) by (nonlinear_arith)
            requires a < p, b < 256;
    }
}

/// Reading back the `n` big-endian bytes of a value that fits in them gives the value.
pub proof fn lemma_be_round_trip(v: nat, n: nat)
    requires
        v < pow256(n),
    ensures
        be_value(be_bytes(v, n)) == v,
        be_bytes(v, n).len() == n,
    decreases n,
{
    lemma_be_bytes_len(v, n);
    if n > 0 {
        let p = pow256((n - 1) as nat);
        assert(v / 256 < p) by (nonlinear_arith)
            requires v < 256 * p;
        lemma_be_round_trip(v / 256, (n - 1) as nat);
        let s = be_bytes(v, n);
        assert(s.drop_last() =~= be_bytes(v / 256, (n - 1) as nat));
    }
}

/// Two's complement on `n` bytes is undone by reading the bits back as signed.
pub proof fn lemma_twos_round_trip(v: int, n: nat)
    requires
        n >= 1,
        signed_fits(v, n),
    ensures
        to_twos(v, n) < pow256(n),
        from_twos(to_twos(v, n), n) == v,
{
    lemma_pow256_positive((n - 1) as nat);
}

/// The two's complement bits of a value read back as signed lie in the signed range.
pub proof fn lemma_from_twos_fits(u: nat, n: nat)
    requires
        n >= 1,
        u < pow256(n),
    ensures
        signed_fits(from_twos(u, n), n),
{
    lemma_pow256_positive((n - 1) as nat);
}

/// `pow256(n) - 1` for a valid width.
fn max_of_width(n: usize) -> (r: u128)
    requires
        valid_width(n as nat),
    ensures
        r == pow256(n as nat) - 1,
{
    proof {
        lemma_pow256_values();
    }
    if n == 1 {
        0xff
    } else if n == 2 {
        0xffff
    } else if n == 4 {
        0xffff_ffff
    } else if n == 8 {
        0xffff_ffff_ffff_ffff
    } else {
        0xffff_ffff_ffff_ffff_ffff_ffff_ffff_ffff
    }
}

/// Appends the low `n` bytes of `v` to `out`, most significant first.
pub fn push_be(out: &mut Vec<u8>, v: u128, n: usize)
    requires
        n <= 16,
    ensures
        final(out)@ == old(out)@ + be_bytes(v as nat, n as nat),
    decreases n,
{
    if n > 0 {
        push_be(out, v / 256, n - 1);
        out.push((v % 256) as u8);
        assert(final(out)@ =~= old(out)@ + be_bytes(v as nat, n as nat));
    } else {
        assert(final(out)@ =~= old(out)@ + be_bytes(v as nat, n as nat));
    }
}

/// The unsigned value of the `n` big-endian bytes of `s` that start at `start`.
pub fn read_be(s: &[u8], start: usize, n: usize) -> (r: u128)
    requires
        n <= 16,
        start + n <= s@.len(),
    ensures
        r == be_value(s@.subrange(start as int, start + n)),
        (r as nat) < pow256(n as nat),
{
    let ghost part = s@.subrange(start as int, start + n);
    let len = s.len();
    let mut acc: u128 = 0;
    let mut i: usize = 0;
    while i < n
        invariant
            i <= n <= 16,
            start + n <= len,
            len == s@.len(),
            part == s@.subrange(start as int, start + n),
            acc == be_value(part.subrange(0, i as int)),
        decreases n - i,
    {
        proof {
            let pre = part.subrange(0, i as int);
            lemma_be_value_bound(pre);
            lemma_pow256_monotone(i as nat, 15);
            lemma_pow256_values();
            assert(part.subrange(0, i + 1).drop_last() =~= pre);
        }
        acc = acc * 256 + s[start + i] as u128;
        i = i + 1;
    }
    assert(part.subrange(0, i as int) =~= part);
    proof {
        lemma_be_value_bound(part);
    }
    acc
}

/// The two's complement bits of `v` on `n` bytes.
pub fn signed_to_bits(v: i128, n: usize) -> (r: u128)
    requires
        valid_width(n as nat),
        signed_fits(v as int, n as nat),
    ensures
        r as nat == to_twos(v as int, n as nat),
        (r as nat) < pow256(n as nat),
{
    proof {
        lemma_twos_round_trip(v as int, n as nat);
        lemma_pow256_values();
    }
    if v >= 0 {
        v as u128
    } else {
        let m = max_of_width(n);
        let d = (-(v + 1)) as u128;
        m - d
    }
}

/// The signed value of the `n`-byte two's complement bits `u`.
pub fn bits_to_signed(u: u128, n: usize) -> (r: i128)
    requires
        valid_width(n as nat),
        (u as nat) < pow256(n as nat),
    ensures
        r as int == from_twos(u as nat, n as nat),
        signed_fits(r as int, n as nat),
{
    proof {
        lemma_from_twos_fits(u as nat, n as nat);
        lemma_pow256_values();
    }
    let m = max_of_width(n);
    let half = m / 2 + 1;
    if u < half {
        u as i128
    } else {
        let d = (m - u) as i128;
        -d - 1
    }
}

} // verus!
