use vstd::prelude::*;

verus! {

/// Number of bytes in the little-endian encoding of a `u64`.
pub const U64_LENGTH: usize = 8;

/// The number that `bytes` encode in little-endian order: `bytes[0]` is the
/// least significant byte.
pub open spec fn le_value(bytes: Seq<u8>) -> nat
    decreases bytes.len(),
{
    if bytes.len() == 0 {
        0
    } else {
        (bytes[0] + 256 * le_value(bytes.drop_first())) as nat
    }
}

/// `256` to the power `n`.
pub open spec fn pow256(n: nat) -> nat
    decreases n,
{
    if n == 0 {
        1
    } else {
        256 * pow256((n - 1) as nat)
    }
}

/// The `n` bytes of `v` in little-endian order: byte `i` is the `i`-th
/// base-256 digit of `v`, so the first byte is `v % 256`.
pub open spec fn le_bytes(v: nat, n: nat) -> Seq<u8>
    decreases n,
{
    if n == 0 {
        Seq::empty()
    } else {
        seq![(v % 256) as u8] + le_bytes(v / 256, (n - 1) as nat)
    }
}

/// Every `u64` fits in eight bytes.
pub proof fn lemma_u64_fits_eight_bytes(v: u64)
    ensures
        v < pow256(8),
{
    reveal_with_fuel(pow256, 9);
    assert(pow256(8) == 18446744073709551616);
}

/// Writing a number below `256^n` as `n` little-endian bytes and reading the
/// bytes back gives the number.
pub proof fn lemma_le_roundtrip(v: nat, n: nat)
    requires
        v < pow256(n),
    ensures
        le_bytes(v, n).len() == n,
        le_value(le_bytes(v, n)) == v,
    decreases n,
{
    if n == 0 {
    } else {
        let p = pow256((n - 1) as nat);
        assert(v / 256 < p && v == v % 256 + 256 * (v / 256)) by (nonlinear_arith)
            requires
                v < 256 * p,
        ;
        lemma_le_roundtrip(v / 256, (n - 1) as nat);
        let b = le_bytes(v, n);
        assert(b.drop_first() =~= le_bytes(v / 256, (n - 1) as nat));
    }
}

/// Reads the eight bytes at `start..start + 8` as a little-endian `u64`.
pub fn read_u64_le(bytes: &[u8], start: usize) -> (res: u64)
    requires
        start + U64_LENGTH <= bytes@.len(),
    ensures
        res == le_value(bytes@.subrange(start as int, start + 8)),
{
    let s = Ghost(bytes@.subrange(start as int, start + 8));
    let b0 = bytes[start] as u64;
    let b1 = bytes[start + 1] as u64;
    let b2 = bytes[start + 2] as u64;
    let b3 = bytes[start + 3] as u64;
    let b4 = bytes[start + 4] as u64;
    let b5 = bytes[start + 5] as u64;
    let b6 = bytes[start + 6] as u64;
    let b7 = bytes[start + 7] as u64;
    proof {
        let s7 = s@.subrange(7, 8);
        let s6 = s@.subrange(6, 8);
        let s5 = s@.subrange(5, 8);
        let s4 = s@.subrange(4, 8);
        let s3 = s@.subrange(3, 8);
        let s2 = s@.subrange(2, 8);
        let s1 = s@.subrange(1, 8);
        assert(s7.drop_first() =~= Seq::<u8>::empty());
        assert(s6.drop_first() =~= s7);
        assert(s5.drop_first() =~= s6);
        assert(s4.drop_first() =~= s5);
        assert(s3.drop_first() =~= s4);
        assert(s2.drop_first() =~= s3);
        assert(s1.drop_first() =~= s2);
        assert(s@.drop_first() =~= s1);
        assert(le_value(Seq::<u8>::empty()) == 0);
        assert(le_value(s7) == b7);
        assert(le_value(s6) == b6 + 256 * b7);
        assert(le_value(s5) == b5 + 256 * (b6 + 256 * b7));
        assert(le_value(s4) == b4 + 256 * (b5 + 256 * (b6 + 256 * b7)));
        assert(le_value(s3) == b3 + 256 * (b4 + 256 * (b5 + 256 * (b6 + 256 * b7))));
        assert(le_value(s2) == b2 + 256 * (b3 + 256 * (b4 + 256 * (b5 + 256 * (b6 + 256
            * b7)))));
        assert(le_value(s1) == b1 + 256 * (b2 + 256 * (b3 + 256 * (b4 + 256 * (b5 + 256 * (
        b6 + 256 * b7))))));
        assert(le_value(s@) == b0 + 256 * (b1 + 256 * (b2 + 256 * (b3 + 256 * (b4 + 256 * (
        b5 + 256 * (b6 + 256 * b7)))))));
    }
    b0 + 256 * (b1 + 256 * (b2 + 256 * (b3 + 256 * (b4 + 256 * (b5 + 256 * (b6 + 256 * b7))))))
}

} // verus!
