use vstd::prelude::*;

use crate::digits::{
    hex_digit_val, is_hex_digit, le_bytes_lt, le_pack, le_val, lemma_le_pack_val, lemma_le_val_bound, lemma_le_val_take_step,
    lemma_nib_val_first, lemma_nib_val_skip_zeros, lemma_p16_mono, lemma_p16_pos,
    lemma_p256_is_p16, nib_val, nibs_ok, p16, p256,
};

verus! {

// ---------------------------------------------------------------------------
// The two field constants the pipelines check witnesses against.
// ---------------------------------------------------------------------------

/// The order of the prime subgroup that exponents of the fixed generator live
/// in, as a 32-byte little-endian string. Read in hex (most significant byte
/// last) it is 60c89ce5c263405370a08b6d0302b0bab3eedb83920ee0a677297dc392126f1.
pub open spec fn fs_order_le() -> Seq<u8> {
    seq![
        0xf1u8, 0x26, 0x21, 0x39, 0xdc, 0x97, 0x72, 0x67,
        0x0a, 0xee, 0x20, 0x39, 0xb8, 0xed, 0x3e, 0xab,
        0x0b, 0x2b, 0x30, 0xd0, 0xb6, 0x08, 0x0a, 0x37,
        0x05, 0x34, 0x26, 0x5c, 0xce, 0x89, 0x0c, 0x06,
    ]
}

/// The characteristic of the proof system's scalar field, as a 32-byte
/// little-endian string. Read in hex it is
/// 30644e72e131a029b85045b68181585d2833e84879b9709143e1f593f0000001.
pub open spec fn fr_modulus_le() -> Seq<u8> {
    seq![
        0x01u8, 0x00, 0x00, 0xf0, 0x93, 0xf5, 0xe1, 0x43,
        0x91, 0x70, 0xb9, 0x79, 0x48, 0xe8, 0x33, 0x28,
        0x5d, 0x58, 0x81, 0x81, 0xb6, 0x45, 0x50, 0xb8,
        0x29, 0xa0, 0x31, 0xe1, 0x72, 0x4e, 0x64, 0x30,
    ]
}

/// The subgroup order as a number.
pub open spec fn fs_order() -> nat {
    le_val(fs_order_le())
}

/// The scalar-field characteristic as a number.
pub open spec fn fr_modulus() -> nat {
    le_val(fr_modulus_le())
}

/// The little-endian constant `fs_order_le()` holds exactly the number
/// 0x60c89ce5c263405370a08b6d0302b0bab3eedb83920ee0a677297dc392126f1.
pub proof fn lemma_fs_order_value()
    ensures
        fs_order() == 0x60c89ce5c263405370a08b6d0302b0bab3eedb83920ee0a677297dc392126f1,
{
    let s = fs_order_le();
    assert(s.take(0) =~= Seq::<u8>::empty());
    assert(p256(0) == 1);
    assert(p256(1) == 0x100);
    assert(p256(2) == 0x10000);
    assert(p256(3) == 0x1000000);
    assert(p256(4) == 0x100000000);
    assert(p256(5) == 0x10000000000);
    assert(p256(6) == 0x1000000000000);
    assert(p256(7) == 0x100000000000000);
    assert(p256(8) == 0x10000000000000000);
    assert(p256(9) == 0x1000000000000000000);
    assert(p256(10) == 0x100000000000000000000);
    assert(p256(11) == 0x10000000000000000000000);
    assert(p256(12) == 0x1000000000000000000000000);
    assert(p256(13) == 0x100000000000000000000000000);
    assert(p256(14) == 0x10000000000000000000000000000);
    assert(p256(15) == 0x1000000000000000000000000000000);
    assert(p256(16) == 0x100000000000000000000000000000000);
    assert(p256(17) == 0x10000000000000000000000000000000000);
    assert(p256(18) == 0x1000000000000000000000000000000000000);
    assert(p256(19) == 0x100000000000000000000000000000000000000);
    assert(p256(20) == 0x10000000000000000000000000000000000000000);
    assert(p256(21) == 0x1000000000000000000000000000000000000000000);
    assert(p256(22) == 0x100000000000000000000000000000000000000000000);
    assert(p256(23) == 0x10000000000000000000000000000000000000000000000);
    assert(p256(24) == 0x1000000000000000000000000000000000000000000000000);
    assert(p256(25) == 0x100000000000000000000000000000000000000000000000000);
    assert(p256(26) == 0x10000000000000000000000000000000000000000000000000000);
    assert(p256(27) == 0x1000000000000000000000000000000000000000000000000000000);
    assert(p256(28) == 0x100000000000000000000000000000000000000000000000000000000);
    assert(p256(29) == 0x10000000000000000000000000000000000000000000000000000000000);
    assert(p256(30) == 0x1000000000000000000000000000000000000000000000000000000000000);
    assert(p256(31) == 0x100000000000000000000000000000000000000000000000000000000000000);
    lemma_le_val_take_step(s, 1);
    assert(le_val(s.take(1)) == 0xf1);
    lemma_le_val_take_step(s, 2);
    assert(le_val(s.take(2)) == 0x26f1);
    lemma_le_val_take_step(s, 3);
    assert(le_val(s.take(3)) == 0x2126f1);
    lemma_le_val_take_step(s, 4);
    assert(le_val(s.take(4)) == 0x392126f1);
    lemma_le_val_take_step(s, 5);
    assert(le_val(s.take(5)) == 0xdc392126f1);
    lemma_le_val_take_step(s, 6);
    assert(le_val(s.take(6)) == 0x97dc392126f1);
    lemma_le_val_take_step(s, 7);
    assert(le_val(s.take(7)) == 0x7297dc392126f1);
    lemma_le_val_take_step(s, 8);
    assert(le_val(s.take(8)) == 0x677297dc392126f1);
    lemma_le_val_take_step(s, 9);
    assert(le_val(s.take(9)) == 0xa677297dc392126f1);
    lemma_le_val_take_step(s, 10);
    assert(le_val(s.take(10)) == 0xee0a677297dc392126f1);
    lemma_le_val_take_step(s, 11);
    assert(le_val(s.take(11)) == 0x20ee0a677297dc392126f1);
    lemma_le_val_take_step(s, 12);
    assert(le_val(s.take(12)) == 0x3920ee0a677297dc392126f1);
    lemma_le_val_take_step(s, 13);
    assert(le_val(s.take(13)) == 0xb83920ee0a677297dc392126f1);
    lemma_le_val_take_step(s, 14);
    assert(le_val(s.take(14)) == 0xedb83920ee0a677297dc392126f1);
    lemma_le_val_take_step(s, 15);
    assert(le_val(s.take(15)) == 0x3eedb83920ee0a677297dc392126f1);
    lemma_le_val_take_step(s, 16);
    assert(le_val(s.take(16)) == 0xab3eedb83920ee0a677297dc392126f1);
    lemma_le_val_take_step(s, 17);
    assert(le_val(s.take(17)) == 0xbab3eedb83920ee0a677297dc392126f1);
    lemma_le_val_take_step(s, 18);
    assert(le_val(s.take(18)) == 0x2b0bab3eedb83920ee0a677297dc392126f1);
    lemma_le_val_take_step(s, 19);
    assert(le_val(s.take(19)) == 0x302b0bab3eedb83920ee0a677297dc392126f1);
    lemma_le_val_take_step(s, 20);
    assert(le_val(s.take(20)) == 0xd0302b0bab3eedb83920ee0a677297dc392126f1);
    lemma_le_val_take_step(s, 21);
    assert(le_val(s.take(21)) == 0xb6d0302b0bab3eedb83920ee0a677297dc392126f1);
    lemma_le_val_take_step(s, 22);
    assert(le_val(s.take(22)) == 0x8b6d0302b0bab3eedb83920ee0a677297dc392126f1);
    lemma_le_val_take_step(s, 23);
    assert(le_val(s.take(23)) == 0xa08b6d0302b0bab3eedb83920ee0a677297dc392126f1);
    lemma_le_val_take_step(s, 24);
    assert(le_val(s.take(24)) == 0x370a08b6d0302b0bab3eedb83920ee0a677297dc392126f1);
    lemma_le_val_take_step(s, 25);
    assert(le_val(s.take(25)) == 0x5370a08b6d0302b0bab3eedb83920ee0a677297dc392126f1);
    lemma_le_val_take_step(s, 26);
    assert(le_val(s.take(26)) == 0x3405370a08b6d0302b0bab3eedb83920ee0a677297dc392126f1);
    lemma_le_val_take_step(s, 27);
    assert(le_val(s.take(27)) == 0x263405370a08b6d0302b0bab3eedb83920ee0a677297dc392126f1);
    lemma_le_val_take_step(s, 28);
    assert(le_val(s.take(28)) == 0x5c263405370a08b6d0302b0bab3eedb83920ee0a677297dc392126f1);
    lemma_le_val_take_step(s, 29);
    assert(le_val(s.take(29)) == 0xce5c263405370a08b6d0302b0bab3eedb83920ee0a677297dc392126f1);
    lemma_le_val_take_step(s, 30);
    assert(le_val(s.take(30)) == 0x89ce5c263405370a08b6d0302b0bab3eedb83920ee0a677297dc392126f1);
    lemma_le_val_take_step(s, 31);
    assert(le_val(s.take(31)) == 0xc89ce5c263405370a08b6d0302b0bab3eedb83920ee0a677297dc392126f1);
    lemma_le_val_take_step(s, 32);
    assert(le_val(s.take(32)) == 0x60c89ce5c263405370a08b6d0302b0bab3eedb83920ee0a677297dc392126f1);
    assert(s.take(32) =~= s);
}

/// The little-endian constant `fr_modulus_le()` holds exactly the number
/// 0x30644e72e131a029b85045b68181585d2833e84879b9709143e1f593f0000001.
pub proof fn lemma_fr_modulus_value()
    ensures
        fr_modulus() == 0x30644e72e131a029b85045b68181585d2833e84879b9709143e1f593f0000001,
{
    let s = fr_modulus_le();
    assert(s.take(0) =~= Seq::<u8>::empty());
    assert(p256(0) == 1);
    assert(p256(1) == 0x100);
    assert(p256(2) == 0x10000);
    assert(p256(3) == 0x1000000);
    assert(p256(4) == 0x100000000);
    assert(p256(5) == 0x10000000000);
    assert(p256(6) == 0x1000000000000);
    assert(p256(7) == 0x100000000000000);
    assert(p256(8) == 0x10000000000000000);
    assert(p256(9) == 0x1000000000000000000);
    assert(p256(10) == 0x100000000000000000000);
    assert(p256(11) == 0x10000000000000000000000);
    assert(p256(12) == 0x1000000000000000000000000);
    assert(p256(13) == 0x100000000000000000000000000);
    assert(p256(14) == 0x10000000000000000000000000000);
    assert(p256(15) == 0x1000000000000000000000000000000);
    assert(p256(16) == 0x100000000000000000000000000000000);
    assert(p256(17) == 0x10000000000000000000000000000000000);
    assert(p256(18) == 0x1000000000000000000000000000000000000);
    assert(p256(19) == 0x100000000000000000000000000000000000000);
    assert(p256(20) == 0x10000000000000000000000000000000000000000);
    assert(p256(21) == 0x1000000000000000000000000000000000000000000);
    assert(p256(22) == 0x100000000000000000000000000000000000000000000);
    assert(p256(23) == 0x10000000000000000000000000000000000000000000000);
    assert(p256(24) == 0x1000000000000000000000000000000000000000000000000);
    assert(p256(25) == 0x100000000000000000000000000000000000000000000000000);
    assert(p256(26) == 0x10000000000000000000000000000000000000000000000000000);
    assert(p256(27) == 0x1000000000000000000000000000000000000000000000000000000);
    assert(p256(28) == 0x100000000000000000000000000000000000000000000000000000000);
    assert(p256(29) == 0x10000000000000000000000000000000000000000000000000000000000);
    assert(p256(30) == 0x1000000000000000000000000000000000000000000000000000000000000);
    assert(p256(31) == 0x100000000000000000000000000000000000000000000000000000000000000);
    lemma_le_val_take_step(s, 1);
    assert(le_val(s.take(1)) == 0x1);
    lemma_le_val_take_step(s, 2);
    assert(le_val(s.take(2)) == 0x1);
    lemma_le_val_take_step(s, 3);
    assert(le_val(s.take(3)) == 0x1);
    lemma_le_val_take_step(s, 4);
    assert(le_val(s.take(4)) == 0xf0000001);
    lemma_le_val_take_step(s, 5);
    assert(le_val(s.take(5)) == 0x93f0000001);
    lemma_le_val_take_step(s, 6);
    assert(le_val(s.take(6)) == 0xf593f0000001);
    lemma_le_val_take_step(s, 7);
    assert(le_val(s.take(7)) == 0xe1f593f0000001);
    lemma_le_val_take_step(s, 8);
    assert(le_val(s.take(8)) == 0x43e1f593f0000001);
    lemma_le_val_take_step(s, 9);
    assert(le_val(s.take(9)) == 0x9143e1f593f0000001);
    lemma_le_val_take_step(s, 10);
    assert(le_val(s.take(10)) == 0x709143e1f593f0000001);
    lemma_le_val_take_step(s, 11);
    assert(le_val(s.take(11)) == 0xb9709143e1f593f0000001);
    lemma_le_val_take_step(s, 12);
    assert(le_val(s.take(12)) == 0x79b9709143e1f593f0000001);
    lemma_le_val_take_step(s, 13);
    assert(le_val(s.take(13)) == 0x4879b9709143e1f593f0000001);
    lemma_le_val_take_step(s, 14);
    assert(le_val(s.take(14)) == 0xe84879b9709143e1f593f0000001);
    lemma_le_val_take_step(s, 15);
    assert(le_val(s.take(15)) == 0x33e84879b9709143e1f593f0000001);
    lemma_le_val_take_step(s, 16);
    assert(le_val(s.take(16)) == 0x2833e84879b9709143e1f593f0000001);
    lemma_le_val_take_step(s, 17);
    assert(le_val(s.take(17)) == 0x5d2833e84879b9709143e1f593f0000001);
    lemma_le_val_take_step(s, 18);
    assert(le_val(s.take(18)) == 0x585d2833e84879b9709143e1f593f0000001);
    lemma_le_val_take_step(s, 19);
    assert(le_val(s.take(19)) == 0x81585d2833e84879b9709143e1f593f0000001);
    lemma_le_val_take_step(s, 20);
    assert(le_val(s.take(20)) == 0x8181585d2833e84879b9709143e1f593f0000001);
    lemma_le_val_take_step(s, 21);
    assert(le_val(s.take(21)) == 0xb68181585d2833e84879b9709143e1f593f0000001);
    lemma_le_val_take_step(s, 22);
    assert(le_val(s.take(22)) == 0x45b68181585d2833e84879b9709143e1f593f0000001);
    lemma_le_val_take_step(s, 23);
    assert(le_val(s.take(23)) == 0x5045b68181585d2833e84879b9709143e1f593f0000001);
    lemma_le_val_take_step(s, 24);
    assert(le_val(s.take(24)) == 0xb85045b68181585d2833e84879b9709143e1f593f0000001);
    lemma_le_val_take_step(s, 25);
    assert(le_val(s.take(25)) == 0x29b85045b68181585d2833e84879b9709143e1f593f0000001);
    lemma_le_val_take_step(s, 26);
    assert(le_val(s.take(26)) == 0xa029b85045b68181585d2833e84879b9709143e1f593f0000001);
    lemma_le_val_take_step(s, 27);
    assert(le_val(s.take(27)) == 0x31a029b85045b68181585d2833e84879b9709143e1f593f0000001);
    lemma_le_val_take_step(s, 28);
    assert(le_val(s.take(28)) == 0xe131a029b85045b68181585d2833e84879b9709143e1f593f0000001);
    lemma_le_val_take_step(s, 29);
    assert(le_val(s.take(29)) == 0x72e131a029b85045b68181585d2833e84879b9709143e1f593f0000001);
    lemma_le_val_take_step(s, 30);
    assert(le_val(s.take(30)) == 0x4e72e131a029b85045b68181585d2833e84879b9709143e1f593f0000001);
    lemma_le_val_take_step(s, 31);
    assert(le_val(s.take(31)) == 0x644e72e131a029b85045b68181585d2833e84879b9709143e1f593f0000001);
    lemma_le_val_take_step(s, 32);
    assert(le_val(s.take(32)) == 0x30644e72e131a029b85045b68181585d2833e84879b9709143e1f593f0000001);
    assert(s.take(32) =~= s);
}

/// The subgroup order as an owned byte vector.
fn fs_order_le_vec() -> (r: Vec<u8>)
    ensures
        r@ == fs_order_le(),
{
    let mut r: Vec<u8> = Vec::new();
    r.push(0xf1); r.push(0x26); r.push(0x21); r.push(0x39);
    r.push(0xdc); r.push(0x97); r.push(0x72); r.push(0x67);
    r.push(0x0a); r.push(0xee); r.push(0x20); r.push(0x39);
    r.push(0xb8); r.push(0xed); r.push(0x3e); r.push(0xab);
    r.push(0x0b); r.push(0x2b); r.push(0x30); r.push(0xd0);
    r.push(0xb6); r.push(0x08); r.push(0x0a); r.push(0x37);
    r.push(0x05); r.push(0x34); r.push(0x26); r.push(0x5c);
    r.push(0xce); r.push(0x89); r.push(0x0c); r.push(0x06);
    proof {
        assert(r@ =~= fs_order_le());
    }
    r
}

/// The scalar-field characteristic as an owned byte vector.
pub(crate) fn fr_modulus_le_vec() -> (r: Vec<u8>)
    ensures
        r@ == fr_modulus_le(),
{
    let mut r: Vec<u8> = Vec::new();
    r.push(0x01); r.push(0x00); r.push(0x00); r.push(0xf0);
    r.push(0x93); r.push(0xf5); r.push(0xe1); r.push(0x43);
    r.push(0x91); r.push(0x70); r.push(0xb9); r.push(0x79);
    r.push(0x48); r.push(0xe8); r.push(0x33); r.push(0x28);
    r.push(0x5d); r.push(0x58); r.push(0x81); r.push(0x81);
    r.push(0xb6); r.push(0x45); r.push(0x50); r.push(0xb8);
    r.push(0x29); r.push(0xa0); r.push(0x31); r.push(0xe1);
    r.push(0x72); r.push(0x4e); r.push(0x64); r.push(0x30);
    proof {
        assert(r@ =~= fr_modulus_le());
    }
    r
}

// ---------------------------------------------------------------------------
// Scalar values: 32 little-endian bytes.
// ---------------------------------------------------------------------------

/// An element of the proof system's scalar field, held as its canonical
/// 32-byte little-endian representation.
#[derive(Debug)]
pub struct ScalarValue {
    pub le: Vec<u8>,
}

impl ScalarValue {
    /// Exactly 32 bytes wide.
    pub open spec fn wf(&self) -> bool {
        self.le@.len() == 32
    }

    /// The number this scalar holds.
    pub open spec fn val(&self) -> nat {
        le_val(self.le@)
    }

    /// An owned copy of the same scalar.
    pub fn duplicate(&self) -> (r: ScalarValue)
        ensures
            r.le@ == self.le@,
    {
        let mut le: Vec<u8> = Vec::new();
        let mut i: usize = 0;
        while i < self.le.len()
            invariant
                i <= self.le@.len(),
                le@ == self.le@.take(i as int),
            decreases self.le@.len() - i,
        {
            le.push(self.le[i]);
            proof {
                assert(le@ =~= self.le@.take(i + 1));
            }
            i += 1;
        }
        proof {
            assert(self.le@.take(self.le@.len() as int) =~= self.le@);
        }
        ScalarValue { le }
    }
}

/// Bit `i` of the number held by the little-endian byte string `s`.
pub open spec fn scalar_bit(s: Seq<u8>, i: int) -> bool {
    ((s[i / 8] as u32) >> ((i % 8) as u32)) & 1 == 1
}

/// The `nbits` least significant bits of `x`, least significant first: the
/// order in which the circuits consume them.
pub fn le_bits(x: &ScalarValue, nbits: usize) -> (r: Vec<bool>)
    requires
        x.wf(),
        nbits <= 256,
    ensures
        r@.len() == nbits,
        forall|i: int| 0 <= i < nbits ==> r@[i] == scalar_bit(x.le@, i),
{
    let mut r: Vec<bool> = Vec::new();
    let mut i: usize = 0;
    while i < nbits
        invariant
            x.wf(),
            nbits <= 256,
            i <= nbits,
            r@.len() == i,
            forall|j: int| 0 <= j < i ==> r@[j] == scalar_bit(x.le@, j),
        decreases nbits - i,
    {
        let byte = x.le[i / 8];
        let bit = ((byte as u32) >> ((i % 8) as u32)) & 1 == 1;
        r.push(bit);
        i += 1;
    }
    r
}

/// The bit decomposition the discrete-log circuit allocates: the 251 low bits
/// of the witness (the subgroup's bit width), least significant first. An
/// absent witness — the shape-only synthesis that setup runs — yields the
/// all-false string of the same width.
pub fn dl_bits(x: Option<&ScalarValue>) -> (r: Vec<bool>)
    requires
        match x {
            Some(v) => v.wf(),
            None => true,
        },
    ensures
        r@.len() == 251,
        match x {
            Some(v) => forall|i: int| 0 <= i < 251 ==> r@[i] == scalar_bit(v.le@, i),
            None => forall|i: int| 0 <= i < 251 ==> r@[i] == false,
        },
{
    match x {
        Some(v) => le_bits(v, 251),
        None => {
            let mut r: Vec<bool> = Vec::new();
            let mut i: usize = 0;
            while i < 251
                invariant
                    i <= 251,
                    r@.len() == i,
                    forall|j: int| 0 <= j < i ==> r@[j] == false,
                decreases 251 - i,
            {
                r.push(false);
                i += 1;
            }
            r
        },
    }
}

// ---------------------------------------------------------------------------
// Parsing a witness written as a base-16 integer.
// ---------------------------------------------------------------------------

/// Whether the text denotes a negative number: a leading minus sign is taken
/// as such only when not immediately followed by a plus sign.
pub open spec fn is_neg(s: Seq<u8>) -> bool {
    s.len() >= 1 && s[0] == 45 && !(s.len() >= 2 && s[1] == 43)
}

/// The magnitude part of the text: one leading minus or plus sign is dropped,
/// unless a plus sign follows it.
pub open spec fn mag_str(s: Seq<u8>) -> Seq<u8> {
    if is_neg(s) {
        s.skip(1)
    } else if s.len() >= 1 && s[0] == 43 && !(s.len() >= 2 && s[1] == 43) {
        s.skip(1)
    } else {
        s
    }
}

/// Whether the magnitude is a well-formed base-16 numeral: non-empty, not
/// starting with an underscore, and made of base-16 digits with interior
/// underscores allowed.
pub open spec fn hex_numeral_ok(m: Seq<u8>) -> bool {
    &&& m.len() >= 1
    &&& m[0] != 95
    &&& forall|i: int| 0 <= i < m.len() ==> is_hex_digit(#[trigger] m[i]) || m[i] == 95
}

/// The digit values of a magnitude, most significant first, underscores
/// skipped.
pub open spec fn hex_digits_of(m: Seq<u8>) -> Seq<u8>
    decreases m.len(),
{
    if m.len() == 0 {
        Seq::empty()
    } else if m.last() == 95 {
        hex_digits_of(m.drop_last())
    } else {
        hex_digits_of(m.drop_last()).push(hex_digit_val(m.last()))
    }
}

/// Whether the whole witness text parses as a base-16 integer.
pub open spec fn witness_ok(s: Seq<u8>) -> bool {
    hex_numeral_ok(mag_str(s))
}

/// The magnitude of the witness as a number.
pub open spec fn witness_val(s: Seq<u8>) -> nat {
    nib_val(hex_digits_of(mag_str(s)))
}

pub proof fn lemma_hex_digits_bounded(m: Seq<u8>)
    ensures
        nibs_ok(hex_digits_of(m)),
    decreases m.len(),
{
    if m.len() > 0 {
        lemma_hex_digits_bounded(m.drop_last());
    }
}

/// A parsed witness: its sign and its base-16 digit values, most significant
/// first.
pub struct ParsedInt {
    pub neg: bool,
    pub digits: Vec<u8>,
}

/// Parses the text of a witness as the prove pipeline accepts it: an optional
/// sign, then base-16 digits with interior underscores.
pub fn parse_hex_int(b: &Vec<u8>) -> (r: Option<ParsedInt>)
    ensures
        match r {
            Some(p) => {
                &&& witness_ok(b@)
                &&& p.neg == is_neg(b@)
                &&& p.digits@ == hex_digits_of(mag_str(b@))
            },
            None => !witness_ok(b@),
        },
{
    let n = b.len();
    let mut start: usize = 0;
    let mut neg = false;
    if n >= 1 && b[0] == 45 && !(n >= 2 && b[1] == 43) {
        neg = true;
        start = 1;
    } else if n >= 1 && b[0] == 43 && !(n >= 2 && b[1] == 43) {
        start = 1;
    }
    proof {
        assert(mag_str(b@) =~= b@.skip(start as int));
        assert(neg == is_neg(b@));
    }
    if start >= n {
        return None;
    }
    if b[start] == 95 {
        return None;
    }
    let mut digits: Vec<u8> = Vec::new();
    let mut i: usize = start;
    while i < n
        invariant
            start <= i <= n,
            n == b@.len(),
            start < n,
            b@[start as int] != 95,
            neg == is_neg(b@),
            mag_str(b@) =~= b@.skip(start as int),
            digits@ == hex_digits_of(b@.subrange(start as int, i as int)),
            forall|j: int|
                start <= j < i ==> is_hex_digit(#[trigger] b@[j]) || b@[j] == 95,
        decreases n - i,
    {
        let c = b[i];
        let ghost pre = b@.subrange(start as int, i as int);
        let ghost post = b@.subrange(start as int, i + 1);
        proof {
            assert(post.drop_last() =~= pre);
            assert(post.last() == b@[i as int]);
        }
        if c == 95 {
            // an interior underscore is skipped
        } else if 48 <= c && c <= 57 {
            digits.push(c - 48);
        } else if 97 <= c && c <= 102 {
            digits.push(c - 87);
        } else if 65 <= c && c <= 70 {
            digits.push(c - 55);
        } else {
            proof {
                let m = mag_str(b@);
                assert(m[i - start] == b@[i as int]);
                assert(!hex_numeral_ok(m));
            }
            return None;
        }
        i += 1;
    }
    proof {
        assert(b@.subrange(start as int, n as int) =~= mag_str(b@));
        let m = mag_str(b@);
        assert(forall|j: int| 0 <= j < m.len() ==> m[j] == b@[start + j]);
        assert(hex_numeral_ok(m));
    }
    Some(ParsedInt { neg, digits })
}

// ---------------------------------------------------------------------------
// From digits to a range-checked 32-byte scalar.
// ---------------------------------------------------------------------------

/// Drops leading zero digits.
fn strip_leading_zeros(d: &Vec<u8>) -> (r: Vec<u8>)
    ensures
        r@.len() <= d@.len(),
        nib_val(r@) == nib_val(d@),
        r@.len() > 0 ==> r@[0] != 0,
        nibs_ok(d@) ==> nibs_ok(r@),
{
    let n = d.len();
    let mut z: usize = 0;
    while z < n && d[z] == 0
        invariant
            z <= n,
            n == d@.len(),
            forall|j: int| 0 <= j < z ==> d@[j] == 0,
        decreases n - z,
    {
        z += 1;
    }
    let mut r: Vec<u8> = Vec::new();
    let mut i: usize = z;
    while i < n
        invariant
            z <= i <= n,
            n == d@.len(),
            r@ == d@.subrange(z as int, i as int),
        decreases n - i,
    {
        r.push(d[i]);
        proof {
            assert(r@ =~= d@.subrange(z as int, i + 1));
        }
        i += 1;
    }
    proof {
        assert(r@ =~= d@.skip(z as int));
        lemma_nib_val_skip_zeros(d@, z as int);
        if nibs_ok(d@) {
            assert(forall|j: int| 0 <= j < r@.len() ==> r@[j] == d@[z + j]);
            assert(nibs_ok(r@));
        }
    }
    r
}

/// Pads a digit string with leading zeros to exactly 64 digits.
fn pad_to_64(d: &Vec<u8>) -> (r: Vec<u8>)
    requires
        d@.len() <= 64,
    ensures
        r@.len() == 64,
        nib_val(r@) == nib_val(d@),
        nibs_ok(d@) ==> nibs_ok(r@),
{
    let n = d.len();
    let pad = 64 - n;
    let mut r: Vec<u8> = Vec::new();
    let mut i: usize = 0;
    while i < pad
        invariant
            i <= pad,
            r@.len() == i,
            forall|j: int| 0 <= j < i ==> r@[j] == 0,
        decreases pad - i,
    {
        r.push(0);
        i += 1;
    }
    let mut k: usize = 0;
    while k < n
        invariant
            k <= n,
            n == d@.len(),
            pad == 64 - n,
            r@.len() == pad + k,
            forall|j: int| 0 <= j < pad ==> r@[j] == 0,
            r@.skip(pad as int) =~= d@.take(k as int),
        decreases n - k,
    {
        r.push(d[k]);
        proof {
            assert(r@.skip(pad as int) =~= d@.take(k + 1));
        }
        k += 1;
    }
    proof {
        assert(d@.take(n as int) =~= d@);
        lemma_nib_val_skip_zeros(r@, pad as int);
        if nibs_ok(d@) {
            assert(forall|j: int| pad <= j < r@.len() ==> r@[j] == d@[j - pad]);
            assert(nibs_ok(r@));
        }
    }
    r
}

/// Packs exactly 64 base-16 digits (most significant first) into the 32-byte
/// little-endian string holding the same number.
fn pack_le(d: &Vec<u8>) -> (r: Vec<u8>)
    requires
        d@.len() == 64,
        nibs_ok(d@),
    ensures
        r@.len() == 32,
        le_val(r@) == nib_val(d@),
{
    let mut r: Vec<u8> = Vec::new();
    let mut k: usize = 0;
    while k < 32
        invariant
            k <= 32,
            d@.len() == 64,
            nibs_ok(d@),
            r@ =~= le_pack(d@).take(k as int),
        decreases 32 - k,
    {
        let hi = d[62 - 2 * k];
        let lo = d[63 - 2 * k];
        assert(hi < 16 && lo < 16);
        r.push(16 * hi + lo);
        proof {
            assert(r@ =~= le_pack(d@).take(k + 1));
        }
        k += 1;
    }
    proof {
        assert(r@ =~= le_pack(d@));
        lemma_le_pack_val(d@);
    }
    r
}

/// Turns parsed digits into the 32-byte scalar they denote, reporting whether
/// the value is strictly below the given 32-byte bound.
fn digits_to_scalar(digits: &Vec<u8>, bound: &Vec<u8>) -> (r: Option<ScalarValue>)
    requires
        nibs_ok(digits@),
        bound@.len() == 32,
    ensures
        match r {
            Some(x) => {
                &&& x.wf()
                &&& x.val() == nib_val(digits@)
                &&& nib_val(digits@) < le_val(bound@)
            },
            None => nib_val(digits@) >= le_val(bound@),
        },
{
    let norm = strip_leading_zeros(digits);
    if norm.len() > 64 {
        proof {
            lemma_nib_val_first(norm@);
            lemma_p16_pos((norm@.len() - 1) as nat);
            lemma_p16_mono(64, (norm@.len() - 1) as nat);
            assert(norm@[0] >= 1);
            assert(norm@[0] * p16((norm@.len() - 1) as nat) >= 1 * p16((norm@.len() - 1) as nat))
                by (nonlinear_arith)
                requires
                    norm@[0] >= 1,
                    p16((norm@.len() - 1) as nat) >= 1,
            ;
            lemma_le_val_bound(bound@);
            lemma_p256_is_p16(32);
        }
        return None;
    }
    let padded = pad_to_64(&norm);
    let le = pack_le(&padded);
    let below = le_bytes_lt(&le, bound);
    if below {
        Some(ScalarValue { le })
    } else {
        None
    }
}

/// The outcome of witness validation for the discrete-log statement, in the
/// order the pipeline tests things: the text must parse, the magnitude must
/// lie strictly below the subgroup order, and a negative witness (other than
/// a negative zero) names no field element.
pub open spec fn dl_witness_err(s: Seq<u8>) -> Option<crate::err::ProofError> {
    if !witness_ok(s) {
        Some(crate::err::ProofError::WitnessParse)
    } else if !is_neg(s) && witness_val(s) >= fs_order() {
        Some(crate::err::ProofError::SubgroupRange)
    } else if is_neg(s) && witness_val(s) > 0 {
        Some(crate::err::ProofError::WitnessNegative)
    } else {
        None
    }
}

/// Validates the discrete-log witness text and returns the scalar it denotes.
pub fn parse_dl_witness(b: &Vec<u8>) -> (r: Result<ScalarValue, crate::err::ProofError>)
    ensures
        match r {
            Ok(x) => {
                &&& dl_witness_err(b@) is None
                &&& x.wf()
                &&& x.val() == witness_val(b@)
                &&& x.val() < fs_order()
            },
            Err(e) => dl_witness_err(b@) == Some(e),
        },
{
    let parsed = match parse_hex_int(b) {
        None => {
            return Err(crate::err::ProofError::WitnessParse);
        },
        Some(p) => p,
    };
    proof {
        lemma_hex_digits_bounded(mag_str(b@));
    }
    let order = fs_order_le_vec();
    let scalar = digits_to_scalar(&parsed.digits, &order);
    if !parsed.neg {
        match scalar {
            Some(x) => Ok(x),
            None => Err(crate::err::ProofError::SubgroupRange),
        }
    } else {
        // A negative witness passes the range test (it is below the order) but
        // denotes a field element only when it is zero.
        match scalar {
            Some(x) => {
                if is_zero_scalar(&x) {
                    Ok(x)
                } else {
                    Err(crate::err::ProofError::WitnessNegative)
                }
            },
            None => {
                proof {
                    lemma_le_val_pos(fs_order_le(), 0);
                }
                Err(crate::err::ProofError::WitnessNegative)
            },
        }
    }
}

/// Whether the 32-byte scalar is zero.
fn is_zero_scalar(x: &ScalarValue) -> (r: bool)
    requires
        x.wf(),
    ensures
        r == (x.val() == 0),
{
    let mut i: usize = 0;
    let mut all_zero = true;
    while i < 32
        invariant
            x.wf(),
            i <= 32,
            all_zero ==> (forall|j: int| 0 <= j < i ==> x.le@[j] == 0),
            !all_zero ==> le_val(x.le@) > 0,
        decreases 32 - i,
    {
        if x.le[i] != 0 {
            proof {
                lemma_le_val_pos(x.le@, i as int);
            }
            all_zero = false;
        }
        i += 1;
    }
    proof {
        if all_zero {
            lemma_le_val_zero(x.le@);
        }
    }
    all_zero
}

/// A byte string with some nonzero byte holds a nonzero number.
proof fn lemma_le_val_pos(s: Seq<u8>, i: int)
    requires
        0 <= i < s.len(),
        s[i] != 0,
    ensures
        le_val(s) > 0,
    decreases s.len(),
{
    if i == s.len() - 1 {
        crate::digits::lemma_p256_pos((s.len() - 1) as nat);
        assert(s.last() * p256((s.len() - 1) as nat) >= 1 * p256((s.len() - 1) as nat))
            by (nonlinear_arith)
            requires
                s.last() >= 1,
                p256((s.len() - 1) as nat) >= 1,
        ;
    } else {
        lemma_le_val_pos(s.drop_last(), i);
    }
}

/// An all-zero byte string holds zero.
proof fn lemma_le_val_zero(s: Seq<u8>)
    requires
        forall|j: int| 0 <= j < s.len() ==> s[j] == 0,
    ensures
        le_val(s) == 0,
    decreases s.len(),
{
    if s.len() > 0 {
        lemma_le_val_zero(s.drop_last());
    }
}

/// The outcome of witness validation for the tree statement: the text must
/// parse, a negative witness (other than a negative zero) names no field
/// element, and the leaf must lie strictly below the field characteristic.
pub open spec fn tree_witness_err(s: Seq<u8>) -> Option<crate::err::ProofError> {
    if !witness_ok(s) {
        Some(crate::err::ProofError::WitnessParse)
    } else if is_neg(s) && witness_val(s) > 0 {
        Some(crate::err::ProofError::WitnessNegative)
    } else if !is_neg(s) && witness_val(s) >= fr_modulus() {
        Some(crate::err::ProofError::FieldRange)
    } else {
        None
    }
}

/// Validates the tree-leaf witness text and returns the scalar it denotes.
pub fn parse_tree_witness(b: &Vec<u8>) -> (r: Result<ScalarValue, crate::err::ProofError>)
    ensures
        match r {
            Ok(x) => {
                &&& tree_witness_err(b@) is None
                &&& x.wf()
                &&& x.val() == witness_val(b@)
                &&& x.val() < fr_modulus()
            },
            Err(e) => tree_witness_err(b@) == Some(e),
        },
{
    let parsed = match parse_hex_int(b) {
        None => {
            return Err(crate::err::ProofError::WitnessParse);
        },
        Some(p) => p,
    };
    proof {
        lemma_hex_digits_bounded(mag_str(b@));
    }
    let modulus = fr_modulus_le_vec();
    let scalar = digits_to_scalar(&parsed.digits, &modulus);
    if parsed.neg {
        match scalar {
            Some(x) => {
                if is_zero_scalar(&x) {
                    Ok(x)
                } else {
                    Err(crate::err::ProofError::WitnessNegative)
                }
            },
            None => {
                proof {
                    lemma_le_val_pos(fr_modulus_le(), 0);
                }
                Err(crate::err::ProofError::WitnessNegative)
            },
        }
    } else {
        match scalar {
            Some(x) => Ok(x),
            None => Err(crate::err::ProofError::FieldRange),
        }
    }
}

} // verus!
