//! Fixed-width big-endian byte encodings and small byte utilities.
//!
//! The escrow identifier is a digest over a packed byte string, so the
//! packing must be injective: two distinct parameter sets must never
//! pack to the same bytes. The lemmas here establish that for the
//! fixed-width integer encodings and for concatenation of fixed-width
//! fields.

use vstd::prelude::*;
use vstd::arithmetic::div_mod::{lemma_fundamental_div_mod, lemma_multiply_divide_lt};

verus! {

/// `256 ^ n`: the number of byte strings of length `n`.
pub open spec fn pow256(n: nat) -> nat
    decreases n,
{
    if n == 0 {
        1
    } else {
        256 * pow256((n - 1) as nat)
    }
}

/// The big-endian encoding of `x mod 256^n` in exactly `n` bytes.
pub open spec fn be_bytes(x: nat, n: nat) -> Seq<u8>
    decreases n,
{
    if n == 0 {
        Seq::empty()
    } else {
        be_bytes(x / 256, (n - 1) as nat).push((x % 256) as u8)
    }
}

/// The value a big-endian byte string denotes.
pub open spec fn be_to_nat(s: Seq<u8>) -> nat
    decreases s.len(),
{
    if s.len() == 0 {
        0
    } else {
        (be_to_nat(s.drop_last()) * 256 + s.last()) as nat
    }
}

/// A big-endian encoding always has exactly the requested width.
pub proof fn lemma_be_bytes_len(x: nat, n: nat)
    ensures
        be_bytes(x, n).len() == n,
    decreases n,
{
    if n > 0 {
        lemma_be_bytes_len(x / 256, (n - 1) as nat);
    }
}

/// Decoding inverts encoding for values that fit the width.
pub proof fn lemma_be_bytes_round_trip(x: nat, n: nat)
    requires
        x < pow256(n),
    ensures
        be_to_nat(be_bytes(x, n)) == x,
    decreases n,
{
    if n == 0 {
        assert(x == 0);
    } else {
        let q = x / 256;
        let r = x % 256;
        lemma_fundamental_div_mod(x as int, 256);
        assert(q < pow256((n - 1) as nat)) by {
            lemma_multiply_divide_lt(x as int, 256, pow256((n - 1) as nat) as int);
        }
        lemma_be_bytes_round_trip(q, (n - 1) as nat);
        lemma_be_bytes_len(q, (n - 1) as nat);
        let s = be_bytes(x, n);
        assert(s.drop_last() =~= be_bytes(q, (n - 1) as nat));
        assert(s.last() == r as u8);
    }
}

/// Two values below `256^n` with the same `n`-byte encoding are equal.
pub proof fn lemma_be_bytes_injective(x: nat, y: nat, n: nat)
    requires
        x < pow256(n),
        y < pow256(n),
        be_bytes(x, n) == be_bytes(y, n),
    ensures
        x == y,
{
    lemma_be_bytes_round_trip(x, n);
    lemma_be_bytes_round_trip(y, n);
}

/// Splitting a concatenation of two fields of known equal widths.
pub proof fn lemma_concat_parts(a1: Seq<u8>, b1: Seq<u8>, a2: Seq<u8>, b2: Seq<u8>)
    requires
        a1.len() == a2.len(),
        a1 + b1 == a2 + b2,
    ensures
        a1 == a2,
        b1 == b2,
{
    assert((a1 + b1).len() == a1.len() + b1.len());
    assert((a2 + b2).len() == a2.len() + b2.len());
    assert forall|i: int| 0 <= i < a1.len() implies a1[i] == a2[i] by {
        assert((a1 + b1)[i] == a1[i]);
        assert((a2 + b2)[i] == a2[i]);
    }
    assert(a1 =~= a2);
    assert forall|i: int| 0 <= i < b1.len() implies b1[i] == b2[i] by {
        assert((a1 + b1)[a1.len() + i] == b1[i]);
        assert((a2 + b2)[a2.len() + i] == b2[i]);
    }
    assert(b1 =~= b2);
}

/// Writes `x` as exactly `n` big-endian bytes (the low `n` bytes of `x`).
pub fn to_be_bytes_fixed(x: u128, n: usize) -> (r: Vec<u8>)
    ensures
        r@ == be_bytes(x as nat, n as nat),
        r@.len() == n,
{
    let mut out: Vec<u8> = Vec::new();
    let mut j: usize = 0;
    while j < n
        invariant
            j <= n,
            out@.len() == j,
            forall|k: int| 0 <= k < j ==> out@[k] == 0u8,
        decreases n - j,
    {
        out.push(0u8);
        j += 1;
    }
    let mut cur: u128 = x;
    let mut i: usize = n;
    proof {
        lemma_be_bytes_len(x as nat, n as nat);
        assert(out@.subrange(n as int, n as int) =~= Seq::<u8>::empty());
        assert(be_bytes(cur as nat, 0) + out@.subrange(n as int, n as int) =~= be_bytes(
            x as nat,
            n as nat,
        ).subrange(n as int, n as int));
        assert(be_bytes(x as nat, n as nat).subrange(0, n as int) =~= be_bytes(x as nat, n as nat));
    }
    while i > 0
        invariant
            i <= n,
            out@.len() == n,
            be_bytes(x as nat, n as nat).subrange(i as int, n as int) == out@.subrange(
                i as int,
                n as int,
            ),
            be_bytes(x as nat, n as nat) == be_bytes(cur as nat, i as nat) + out@.subrange(
                i as int,
                n as int,
            ),
        decreases i,
    {
        let ghost prev_out = out@;
        let ghost prev_cur = cur as nat;
        let b: u8 = (cur % 256) as u8;
        i -= 1;
        out[i] = b;
        cur = cur / 256;
        proof {
            lemma_be_bytes_len(cur as nat, i as nat);
            assert(be_bytes(prev_cur, (i + 1) as nat) == be_bytes(cur as nat, i as nat).push(b));
            assert(out@.subrange(i as int, out@.len() as int) =~= seq![b] + prev_out.subrange(
                i + 1,
                n as int,
            ));
            assert(be_bytes(cur as nat, i as nat).push(b) + prev_out.subrange(i + 1, n as int)
                =~= be_bytes(cur as nat, i as nat) + out@.subrange(i as int, n as int));
            assert(be_bytes(x as nat, n as nat).subrange(i as int, n as int) =~= be_bytes(
                x as nat,
                n as nat,
            ).subrange(i + 1, n as int).insert(0, b)) by {
                lemma_be_bytes_len(x as nat, n as nat);
                lemma_be_bytes_len(cur as nat, i as nat);
                assert(be_bytes(x as nat, n as nat) == be_bytes(cur as nat, i as nat).push(b)
                    + prev_out.subrange(i + 1, n as int));
            }
            assert(be_bytes(x as nat, n as nat).subrange(i as int, n as int) =~= out@.subrange(
                i as int,
                n as int,
            ));
        }
    }
    proof {
        assert(out@.subrange(0, n as int) =~= out@);
        assert(be_bytes(cur as nat, 0) + out@ =~= out@);
    }
    out
}

/// Byte-for-byte equality of two byte vectors.
pub fn bytes_eq(a: &Vec<u8>, b: &Vec<u8>) -> (r: bool)
    ensures
        r == (a@ == b@),
{
    if a.len() != b.len() {
        assert(a@ != b@);
        return false;
    }
    let mut i: usize = 0;
    while i < a.len()
        invariant
            i <= a.len(),
            a@.len() == b@.len(),
            forall|k: int| 0 <= k < i ==> a@[k] == b@[k],
        decreases a.len() - i,
    {
        if a[i] != b[i] {
            assert(a@ != b@);
            return false;
        }
        i += 1;
    }
    assert(a@ =~= b@);
    true
}

/// A fresh vector holding the same bytes.
pub fn copy_bytes(v: &Vec<u8>) -> (r: Vec<u8>)
    ensures
        r@ == v@,
{
    let mut out: Vec<u8> = Vec::new();
    let mut i: usize = 0;
    while i < v.len()
        invariant
            i <= v.len(),
            out@ == v@.subrange(0, i as int),
        decreases v.len() - i,
    {
        out.push(v[i]);
        proof {
            assert(out@ =~= v@.subrange(0, i + 1));
        }
        i += 1;
    }
    proof {
        assert(v@.subrange(0, v@.len() as int) =~= v@);
    }
    out
}

/// Appends all of `src` to `dst`.
pub fn push_all(dst: &mut Vec<u8>, src: &Vec<u8>)
    ensures
        final(dst)@ == old(dst)@ + src@,
{
    let mut i: usize = 0;
    while i < src.len()
        invariant
            i <= src.len(),
            dst@ == old(dst)@ + src@.subrange(0, i as int),
        decreases src.len() - i,
    {
        dst.push(src[i]);
        proof {
            assert(old(dst)@ + src@.subrange(0, i as int) + seq![src@[i as int]] =~= old(dst)@
                + src@.subrange(0, i + 1));
        }
        i += 1;
    }
    proof {
        assert(old(dst)@ + src@.subrange(0, src@.len() as int) =~= old(dst)@ + src@);
    }
}

} // verus!
