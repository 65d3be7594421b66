use vstd::prelude::*;

use crate::digits::le_val;
use crate::scalar::{fr_modulus, fs_order};
use sapling_crypto_ce::babyjubjub::{edwards::Point, fs::FsRepr, fs::Fs, FixedGenerators, JubjubBn256, JubjubParams, Unknown};
use sapling_crypto_ce::baby_pedersen_hash::{pedersen_hash, Personalization};
use pairing_ce::bn256::Bn256;
use pairing_ce::ff::{PrimeField, PrimeFieldRepr};

verus! {

#[verifier::external_type_specification]
#[verifier::external_body]
pub struct ExJubjubBn256(JubjubBn256);

/// The compressed encoding of the fixed generator raised to the scalar that
/// the 32 little-endian bytes hold.
pub uninterp spec fn dl_point_bytes(x: Seq<u8>) -> Seq<u8>;

/// The canonical 32-byte little-endian representation of the first coordinate
/// of the algebraic hash of a bit string, domain-separated by a round index.
pub uninterp spec fn pedersen_x(round: int, bits: Seq<bool>) -> Seq<u8>;

/// What a 32-byte string decodes to as a compressed curve point: the
/// canonical little-endian representations of the point's two coordinates,
/// or nothing when the bytes name no point.
pub uninterp spec fn point_xy_of(b: Seq<u8>) -> Option<(Seq<u8>, Seq<u8>)>;

/// Relies on JubjubBn256::new: the fixed table of curve constants and
/// generators that every operation of this library works over.
#[verifier::external_body]
pub(crate) fn new_jubjub() -> JubjubBn256 {
    JubjubBn256::new()
}

/// Relies on sapling's generator table, Point::mul and Point::write: the
/// 32-byte compressed encoding of g^x for the proof-generation-key generator
/// g, a function of the scalar alone. The scalar must lie below the subgroup
/// order, so its canonical representation exists and multiplication is
/// defined.
#[verifier::external_body]
pub(crate) fn generator_mul_bytes(x: &Vec<u8>, params: &JubjubBn256) -> (r: Vec<u8>)
    requires
        x@.len() == 32,
        le_val(x@) < fs_order(),
    ensures
        r@ == dl_point_bytes(x@),
        r@.len() == 32,
{
    let mut repr = FsRepr::default();
    repr.read_le(&x[..]).unwrap();
    let xs = Fs::from_repr(repr).unwrap();
    let g = params.generator(FixedGenerators::ProofGenerationKey);
    let h = g.mul(xs, params);
    let mut v = vec![];
    h.write(&mut v).unwrap();
    v
}

/// Relies on sapling's baby_pedersen_hash and on into_repr being canonical:
/// the first coordinate of the hash of the bit string, domain-separated by
/// the round index, as 32 little-endian bytes; a function of the round and
/// the bits alone. The hash's generator table covers bit strings of the
/// widths the tree circuit feeds it, and its domain separation admits round
/// indices below 62.
#[verifier::external_body]
pub(crate) fn pedersen_hash_x(round: u8, bits: &Vec<bool>, params: &JubjubBn256) -> (r: Vec<u8>)
    requires
        round < 62,
        bits@.len() <= 508,
    ensures
        r@ == pedersen_x(round as int, bits@),
        r@.len() == 32,
{
    let point = pedersen_hash::<Bn256, _>(
        Personalization::MerkleTree(round as usize),
        bits.iter().cloned(),
        params,
    );
    let x = point.into_xy().0;
    let mut v = vec![];
    x.into_repr().write_le(&mut v).unwrap();
    v
}

/// Relies on sapling's edwards::Point::read and into_xy: whether 32 bytes
/// decode to a point of the embedded curve is a function of the bytes alone,
/// and the coordinates of a decoded point have canonical representations
/// below the field characteristic.
#[verifier::external_body]
pub(crate) fn point_read_xy(b: &Vec<u8>, params: &JubjubBn256) -> (r: Option<(Vec<u8>, Vec<u8>)>)
    ensures
        match r {
            Some(xy) => {
                &&& point_xy_of(b@) == Some((xy.0@, xy.1@))
                &&& xy.0@.len() == 32
                &&& xy.1@.len() == 32
                &&& le_val(xy.0@) < fr_modulus()
                &&& le_val(xy.1@) < fr_modulus()
            },
            None => point_xy_of(b@) is None,
        },
{
    match Point::<Bn256, Unknown>::read(&b[..], params) {
        Err(_) => None,
        Ok(p) => {
            let (x, y) = p.into_xy();
            let mut xv = vec![];
            x.into_repr().write_le(&mut xv).unwrap();
            let mut yv = vec![];
            y.into_repr().write_le(&mut yv).unwrap();
            Some((xv, yv))
        },
    }
}

} // verus!
