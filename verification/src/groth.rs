use vstd::prelude::*;

use crate::digits::le_val;
use crate::scalar::fr_modulus;
use bellman_ce::groth16::{prepare_verifying_key, verify_proof, Parameters, Proof};
use pairing_ce::bn256::{Bn256, Fr, FrRepr};
use pairing_ce::ff::{PrimeField, PrimeFieldRepr};

verus! {

/// A decoded proving/verifying key pair. The wrapped bellman value is opaque
/// to the contracts; the unverified circuit driver reaches it through the
/// public field.
#[verifier::external_body]
pub struct GrothParams {
    pub inner: Parameters<Bn256>,
}

/// A decoded proof.
#[verifier::external_body]
pub struct GrothProof {
    pub inner: Proof<Bn256>,
}

/// Whether a byte string decodes to a proving/verifying key pair.
pub uninterp spec fn params_decode_ok(b: Seq<u8>) -> bool;

/// Whether a byte string decodes to a proof.
pub uninterp spec fn proof_decode_ok(b: Seq<u8>) -> bool;

/// The outcome of the pairing check for the verifying key the parameter bytes
/// decode to, the proof the proof bytes decode to, and the given public-input
/// vector (each input a canonical 32-byte little-endian scalar): Some carries
/// the check's boolean answer, None a proof/key shape mismatch.
pub uninterp spec fn groth_verify_res(
    params: Seq<u8>,
    pr: Seq<u8>,
    inputs: Seq<Seq<u8>>,
) -> Option<bool>;

/// Relies on bellman's groth16 Parameters::read with point checking on:
/// whether a byte string is accepted is a function of the bytes alone.
#[verifier::external_body]
pub(crate) fn read_params(b: &Vec<u8>) -> (r: Option<GrothParams>)
    ensures
        r is Some <==> params_decode_ok(b@),
{
    match Parameters::read(&b[..], true) {
        Ok(p) => Some(GrothParams { inner: p }),
        Err(_) => None,
    }
}

/// Relies on bellman's groth16 Proof::read: whether a byte string is accepted
/// is a function of the bytes alone.
#[verifier::external_body]
pub(crate) fn read_proof(b: &Vec<u8>) -> (r: Option<GrothProof>)
    ensures
        r is Some <==> proof_decode_ok(b@),
{
    match Proof::read(&b[..]) {
        Ok(p) => Some(GrothProof { inner: p }),
        Err(_) => None,
    }
}

/// Relies on bellman's groth16 Parameters::read, prepare_verifying_key,
/// Proof::read and verify_proof, all deterministic: the pairing check of the
/// decoded proof under the decoded verifying key against one public input.
/// Some carries the check's answer, None the input-count mismatch; the whole
/// outcome is a function of the bytes alone. The bytes must decode — the
/// callers test that first, artifact by artifact — and the input must be a
/// canonical scalar representation, so nothing here panics.
#[verifier::external_body]
pub(crate) fn verify_groth1(params_bytes: &Vec<u8>, proof_bytes: &Vec<u8>, x: &Vec<u8>) -> (r:
    Option<bool>)
    requires
        params_decode_ok(params_bytes@),
        proof_decode_ok(proof_bytes@),
        x@.len() == 32,
        le_val(x@) < fr_modulus(),
    ensures
        r == groth_verify_res(params_bytes@, proof_bytes@, seq![x@]),
{
    let de = Parameters::<Bn256>::read(&params_bytes[..], true).unwrap();
    let pvk = prepare_verifying_key(&de.vk);
    let pr = Proof::read(&proof_bytes[..]).unwrap();
    let mut xr = FrRepr::default();
    xr.read_le(&x[..]).unwrap();
    let xf = Fr::from_repr(xr).unwrap();
    verify_proof(&pvk, &pr, &[xf]).ok()
}

/// Relies on the same four bellman functions: the pairing check against two
/// public inputs, in order. Some carries the check's answer, None the
/// input-count mismatch; the whole outcome is a function of the bytes alone.
#[verifier::external_body]
pub(crate) fn verify_groth2(
    params_bytes: &Vec<u8>,
    proof_bytes: &Vec<u8>,
    x: &Vec<u8>,
    y: &Vec<u8>,
) -> (r: Option<bool>)
    requires
        params_decode_ok(params_bytes@),
        proof_decode_ok(proof_bytes@),
        x@.len() == 32,
        y@.len() == 32,
        le_val(x@) < fr_modulus(),
        le_val(y@) < fr_modulus(),
    ensures
        r == groth_verify_res(params_bytes@, proof_bytes@, seq![x@, y@]),
{
    let de = Parameters::<Bn256>::read(&params_bytes[..], true).unwrap();
    let pvk = prepare_verifying_key(&de.vk);
    let pr = Proof::read(&proof_bytes[..]).unwrap();
    let mut xr = FrRepr::default();
    xr.read_le(&x[..]).unwrap();
    let xf = Fr::from_repr(xr).unwrap();
    let mut yr = FrRepr::default();
    yr.read_le(&y[..]).unwrap();
    let yf = Fr::from_repr(yr).unwrap();
    verify_proof(&pvk, &pr, &[xf, yf]).ok()
}

} // verus!
