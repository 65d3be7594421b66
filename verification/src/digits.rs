use vstd::prelude::*;

verus! {

// ---------------------------------------------------------------------------
// Powers of the two digit bases.
// ---------------------------------------------------------------------------

/// 16 raised to `e`.
pub open spec fn p16(e: nat) -> nat
    decreases e,
{
    if e == 0 {
        1
    } else {
        16 * p16((e - 1) as nat)
    }
}

/// 256 raised to `e`.
pub open spec fn p256(e: nat) -> nat
    decreases e,
{
    if e == 0 {
        1
    } else {
        256 * p256((e - 1) as nat)
    }
}

pub proof fn lemma_p16_pos(e: nat)
    ensures
        p16(e) >= 1,
    decreases e,
{
    if e > 0 {
        lemma_p16_pos((e - 1) as nat);
    }
}

pub proof fn lemma_p256_pos(e: nat)
    ensures
        p256(e) >= 1,
    decreases e,
{
    if e > 0 {
        lemma_p256_pos((e - 1) as nat);
    }
}

pub proof fn lemma_p16_mono(a: nat, b: nat)
    requires
        a <= b,
    ensures
        p16(a) <= p16(b),
    decreases b,
{
    if a < b {
        lemma_p16_mono(a, (b - 1) as nat);
        lemma_p16_pos((b - 1) as nat);
    }
}

/// A power of 256 is the power of 16 with twice the exponent.
pub proof fn lemma_p256_is_p16(e: nat)
    ensures
        p256(e) == p16(2 * e),
    decreases e,
{
    if e > 0 {
        lemma_p256_is_p16((e - 1) as nat);
        assert(2 * e - 2 == 2 * ((e - 1) as nat));
        assert(p16(2 * e) == 16 * p16((2 * e - 1) as nat));
        assert(p16((2 * e - 1) as nat) == 16 * p16((2 * e - 2) as nat));
    }
}

// ---------------------------------------------------------------------------
// Base-16 digits and their values.
// ---------------------------------------------------------------------------

/// Whether the byte is an ASCII base-16 digit.
pub open spec fn is_hex_digit(c: u8) -> bool {
    (48 <= c <= 57) || (97 <= c <= 102) || (65 <= c <= 70)
}

/// The value of an ASCII base-16 digit.
pub open spec fn hex_digit_val(c: u8) -> u8 {
    if 48 <= c <= 57 {
        (c - 48) as u8
    } else if 97 <= c <= 102 {
        (c - 87) as u8
    } else if 65 <= c <= 70 {
        (c - 55) as u8
    } else {
        0
    }
}

/// Every entry is a base-16 digit.
pub open spec fn nibs_ok(s: Seq<u8>) -> bool {
    forall|i: int| 0 <= i < s.len() ==> s[i] < 16
}

/// Numeric value of a base-16 digit sequence, most significant digit first.
pub open spec fn nib_val(s: Seq<u8>) -> nat
    decreases s.len(),
{
    if s.len() == 0 {
        0
    } else {
        (nib_val(s.drop_last()) * 16 + s.last()) as nat
    }
}

/// Numeric value of a byte sequence, least significant byte first.
pub open spec fn le_val(s: Seq<u8>) -> nat
    decreases s.len(),
{
    if s.len() == 0 {
        0
    } else {
        (le_val(s.drop_last()) + s.last() * p256((s.len() - 1) as nat)) as nat
    }
}

pub proof fn lemma_le_val_bound(s: Seq<u8>)
    ensures
        le_val(s) < p256(s.len()),
    decreases s.len(),
{
    if s.len() > 0 {
        lemma_le_val_bound(s.drop_last());
        lemma_p256_pos((s.len() - 1) as nat);
        assert(s.last() * p256((s.len() - 1) as nat) <= 255 * p256((s.len() - 1) as nat))
            by (nonlinear_arith)
            requires
                s.last() <= 255,
        ;
    }
}

/// Splitting off the most significant digit.
pub proof fn lemma_nib_val_first(s: Seq<u8>)
    requires
        s.len() > 0,
    ensures
        nib_val(s) == s[0] * p16((s.len() - 1) as nat) + nib_val(s.skip(1)),
    decreases s.len(),
{
    if s.len() == 1 {
        assert(s.skip(1) =~= Seq::<u8>::empty());
        assert(s.drop_last() =~= Seq::<u8>::empty());
        assert(nib_val(s.skip(1)) == 0);
        assert(nib_val(s) == s.last());
        assert(s.last() == s[0]);
        assert(p16(0) == 1);
        assert(nib_val(s) == s[0] * p16((s.len() - 1) as nat) + nib_val(s.skip(1)));
    } else {
        lemma_nib_val_first(s.drop_last());
        assert(s.drop_last()[0] == s[0]);
        assert(s.drop_last().skip(1) =~= s.skip(1).drop_last());
        assert(s.skip(1).last() == s.last());
        let m = (s.len() - 2) as nat;
        assert(nib_val(s.drop_last()) == s[0] * p16(m) + nib_val(s.skip(1).drop_last()));
        assert(nib_val(s) == nib_val(s.drop_last()) * 16 + s.last());
        assert(nib_val(s.skip(1)) == nib_val(s.skip(1).drop_last()) * 16 + s.skip(1).last());
        assert((s[0] * p16(m) + nib_val(s.skip(1).drop_last())) * 16 == s[0] * (16 * p16(m))
            + nib_val(s.skip(1).drop_last()) * 16) by (nonlinear_arith);
        assert(16 * p16(m) == p16((s.len() - 1) as nat));
        assert(nib_val(s) == s[0] * p16((s.len() - 1) as nat) + nib_val(s.skip(1).drop_last()) * 16
            + s.last());
    }
}

/// Leading zero digits do not change the value.
pub proof fn lemma_nib_val_skip_zeros(s: Seq<u8>, k: int)
    requires
        0 <= k <= s.len(),
        forall|i: int| 0 <= i < k ==> s[i] == 0,
    ensures
        nib_val(s) == nib_val(s.skip(k)),
    decreases k,
{
    if k > 0 {
        lemma_nib_val_first(s);
        assert(s.skip(1).skip(k - 1) =~= s.skip(k));
        lemma_nib_val_skip_zeros(s.skip(1), k - 1);
    } else {
        assert(s.skip(0) =~= s);
    }
}

// ---------------------------------------------------------------------------
// Packing nibbles (most significant first) into little-endian bytes.
// ---------------------------------------------------------------------------

/// The little-endian byte sequence holding the same number as the base-16
/// digit sequence `n` (most significant digit first, even length).
pub open spec fn le_pack(n: Seq<u8>) -> Seq<u8> {
    Seq::new(n.len() / 2, |k: int| (16 * n[n.len() - 2 - 2 * k] + n[n.len() - 1 - 2 * k]) as u8)
}

/// Packing preserves the numeric value.
pub proof fn lemma_le_pack_val(n: Seq<u8>)
    requires
        nibs_ok(n),
        n.len() % 2 == 0,
    ensures
        le_pack(n).len() == n.len() / 2,
        le_val(le_pack(n)) == nib_val(n),
    decreases n.len(),
{
    if n.len() > 0 {
        let l = n.len() as int;
        let rest = n.skip(2);
        assert(le_pack(n).drop_last() =~= le_pack(rest));
        lemma_le_pack_val(rest);
        let e = (le_pack(n).len() - 1) as nat;
        assert(le_pack(n).last() == 16 * n[0] + n[1]);
        assert(le_val(le_pack(n)) == nib_val(rest) + (16 * n[0] + n[1]) * p256(e));
        lemma_nib_val_first(n);
        lemma_nib_val_first(n.skip(1));
        assert(n.skip(1).skip(1) =~= rest);
        assert(n.skip(1)[0] == n[1]);
        assert(nib_val(n) == n[0] * p16((l - 1) as nat) + n[1] * p16((l - 2) as nat) + nib_val(
            rest,
        ));
        lemma_p256_is_p16(e);
        assert(2 * e == l - 2);
        assert(p16((l - 1) as nat) == 16 * p16((l - 2) as nat));
        assert((16 * n[0] + n[1]) * p16((l - 2) as nat) == n[0] * (16 * p16((l - 2) as nat)) + n[1]
            * p16((l - 2) as nat)) by (nonlinear_arith);
    }
}

// ---------------------------------------------------------------------------
// Comparing little-endian byte sequences by value.
// ---------------------------------------------------------------------------

/// Dropping the most significant byte of a prefix.
pub proof fn lemma_le_val_take_step(s: Seq<u8>, i: int)
    requires
        0 < i <= s.len(),
    ensures
        le_val(s.take(i)) == le_val(s.take(i - 1)) + s[i - 1] * p256((i - 1) as nat),
{
    assert(s.take(i).drop_last() =~= s.take(i - 1));
    assert(s.take(i).last() == s[i - 1]);
}

/// Whether the first `i` bytes of `a` hold a strictly smaller number than the
/// first `i` bytes of `c`, both read as little-endian.
fn le_lt_upto(a: &Vec<u8>, c: &Vec<u8>, i: usize) -> (r: bool)
    requires
        a@.len() == c@.len(),
        i <= a@.len(),
    ensures
        r == (le_val(a@.take(i as int)) < le_val(c@.take(i as int))),
    decreases i,
{
    if i == 0 {
        assert(a@.take(0) =~= Seq::<u8>::empty());
        assert(c@.take(0) =~= Seq::<u8>::empty());
        false
    } else {
        let hi = i - 1;
        let av = a[hi];
        let cv = c[hi];
        proof {
            lemma_le_val_take_step(a@, i as int);
            lemma_le_val_take_step(c@, i as int);
            lemma_le_val_bound(a@.take(hi as int));
            lemma_le_val_bound(c@.take(hi as int));
            lemma_p256_pos(hi as nat);
        }
        if av < cv {
            proof {
                let p = p256(hi as nat);
                assert(le_val(a@.take(hi as int)) + av * p < le_val(c@.take(hi as int)) + cv * p)
                    by (nonlinear_arith)
                    requires
                        av < cv,
                        le_val(a@.take(hi as int)) < p,
                        p >= 1,
                ;
            }
            true
        } else if av > cv {
            proof {
                let p = p256(hi as nat);
                assert(le_val(c@.take(hi as int)) + cv * p < le_val(a@.take(hi as int)) + av * p)
                    by (nonlinear_arith)
                    requires
                        cv < av,
                        le_val(c@.take(hi as int)) < p,
                        p >= 1,
                ;
            }
            false
        } else {
            le_lt_upto(a, c, hi)
        }
    }
}

/// Whether `a` holds a strictly smaller number than `c`, both read as
/// little-endian byte strings of equal width.
pub fn le_bytes_lt(a: &Vec<u8>, c: &Vec<u8>) -> (r: bool)
    requires
        a@.len() == c@.len(),
    ensures
        r == (le_val(a@) < le_val(c@)),
{
    let n = a.len();
    let r = le_lt_upto(a, c, n);
    proof {
        assert(a@.take(n as int) =~= a@);
        assert(c@.take(n as int) =~= c@);
    }
    r
}

} // verus!
