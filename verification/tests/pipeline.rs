//! End-to-end scenarios over the real proof system. The circuit definitions
//! mirror the unverified driver's: tests cannot link it, so they carry their
//! own copies and exercise the library through them.

use bellman_ce::groth16::{create_random_proof, generate_random_parameters};
use bellman_ce::{Circuit, ConstraintSystem, SynthesisError};
use pairing_ce::bn256::{Bn256, Fr, FrRepr};
use pairing_ce::ff::{BitIterator, Field, PrimeField, PrimeFieldRepr};
use rand::{ChaChaRng, SeedableRng};
use sapling_crypto_ce::babyjubjub::{FixedGenerators, JubjubBn256, JubjubParams};
use sapling_crypto_ce::circuit::{
    baby_ecc::fixed_base_multiplication,
    baby_pedersen_hash,
    boolean::{self, AllocatedBit, Boolean},
    num,
};

use web_proof::err::ProofError;
use web_proof::scalar::{dl_bits, ScalarValue};
use web_proof::{prove_request, prove_response, prove_tree_request, prove_tree_response, verify, verify_tree};

struct DlCircuit<'a> {
    params: &'a JubjubBn256,
    bits: Vec<bool>,
}

impl<'a> Circuit<Bn256> for DlCircuit<'a> {
    fn synthesize<CS: ConstraintSystem<Bn256>>(self, cs: &mut CS) -> Result<(), SynthesisError> {
        let x_bits = self
            .bits
            .iter()
            .enumerate()
            .map(|(i, b)| {
                AllocatedBit::alloc(cs.namespace(|| format!("scalar bit {}", i)), Some(*b)).unwrap()
            })
            .map(Boolean::from)
            .collect::<Vec<_>>();
        let h = fixed_base_multiplication(
            cs.namespace(|| "multiplication"),
            FixedGenerators::ProofGenerationKey,
            &x_bits,
            self.params,
        )?;
        h.inputize(cs)?;
        Ok(())
    }
}

struct TreeStmtCircuit<'a> {
    params: &'a JubjubBn256,
    leaf: Option<Fr>,
    depth: u8,
}

impl<'a> Circuit<Bn256> for TreeStmtCircuit<'a> {
    fn synthesize<CS: ConstraintSystem<Bn256>>(self, cs: &mut CS) -> Result<(), SynthesisError> {
        let mut cur = num::AllocatedNum::alloc(cs.namespace(|| "leaf"), || {
            Ok(match self.leaf {
                Some(x) => x,
                None => Fr::zero(),
            })
        })?;
        for i in 0..self.depth {
            let cs = &mut cs.namespace(|| format!("merkle tree hash {}", i));
            let cur_is_right = boolean::Boolean::from(AllocatedBit::alloc(
                cs.namespace(|| "position bit"),
                Some(false),
            )?);
            let path_element =
                num::AllocatedNum::alloc(cs.namespace(|| "path element"), || Ok(Fr::zero()))?;
            let (xl, xr) = num::AllocatedNum::conditionally_reverse(
                cs.namespace(|| "conditional reversal of preimage"),
                &cur,
                &path_element,
                &cur_is_right,
            )?;
            let mut preimage = vec![];
            preimage.extend(xl.into_bits_le(cs.namespace(|| "xl into bits"))?);
            preimage.extend(xr.into_bits_le(cs.namespace(|| "xr into bits"))?);
            cur = baby_pedersen_hash::pedersen_hash(
                cs.namespace(|| "computation of pedersen hash"),
                baby_pedersen_hash::Personalization::MerkleTree(i as usize),
                &preimage,
                self.params,
            )?
            .get_x()
            .clone();
        }
        cur.inputize(cs)?;
        Ok(())
    }
}

fn dl_generate(seed: &[u32]) -> String {
    let rng = &mut ChaChaRng::from_seed(seed);
    let j_params = JubjubBn256::new();
    let params = generate_random_parameters::<Bn256, _, _>(
        DlCircuit { params: &j_params, bits: dl_bits(None) },
        rng,
    )
    .unwrap();
    let mut v = vec![];
    params.write(&mut v).unwrap();
    hex::encode(&v)
}

fn dl_prove(seed: &[u32], params: &str, x_hex: &str) -> (String, String) {
    let req = prove_request(params, x_hex).unwrap();
    let rng = &mut ChaChaRng::from_seed(seed);
    let j_params = JubjubBn256::new();
    let proof = create_random_proof(
        DlCircuit { params: &j_params, bits: dl_bits(Some(&req.x)) },
        &req.params.inner,
        rng,
    )
    .unwrap();
    let mut v = vec![];
    proof.write(&mut v).unwrap();
    let out = prove_response(&req.x, &v, 0);
    (out.proof, out.h)
}

fn tree_generate(seed: &[u32], depth: u8) -> String {
    let rng = &mut ChaChaRng::from_seed(seed);
    let j_params = JubjubBn256::new();
    let params = generate_random_parameters::<Bn256, _, _>(
        TreeStmtCircuit { params: &j_params, leaf: None, depth },
        rng,
    )
    .unwrap();
    let mut v = vec![];
    params.write(&mut v).unwrap();
    hex::encode(&v)
}

fn fr_of(x: &ScalarValue) -> Fr {
    let mut repr = FrRepr::default();
    repr.read_le(&x.le[..]).unwrap();
    Fr::from_repr(repr).unwrap()
}

fn tree_prove(seed: &[u32], params: &str, x_hex: &str, depth: u8) -> (String, String) {
    let req = prove_tree_request(params, x_hex).unwrap();
    let rng = &mut ChaChaRng::from_seed(seed);
    let j_params = JubjubBn256::new();
    let proof = create_random_proof(
        TreeStmtCircuit { params: &j_params, leaf: Some(fr_of(&req.leaf)), depth },
        &req.params.inner,
        rng,
    )
    .unwrap();
    let mut v = vec![];
    proof.write(&mut v).unwrap();
    let out = prove_tree_response(&req.leaf, depth, &v, 0);
    (out.proof, out.h)
}

#[test]
fn dl_scenario_end_to_end() {
    // Parameters from seed [1,2,3,4], witness 5: the proof must verify
    // against the returned public output, and fail against the output of a
    // different witness.
    let params = dl_generate(&[1, 2, 3, 4]);
    let (proof, h) = dl_prove(&[1, 2, 3, 4], &params, "5");
    let ok = verify(&params, &proof, &h).unwrap();
    assert!(ok.result);
    // Verifying is stateless: the same inputs answer the same way.
    assert_eq!(verify(&params, &proof, &h).unwrap().result, ok.result);

    let x6 = web_proof::scalar::parse_dl_witness(&"6".as_bytes().to_vec()).unwrap();
    let h6 = prove_response(&x6, &vec![], 0).h;
    assert_ne!(h, h6);
    let wrong = verify(&params, &proof, &h6).unwrap();
    assert!(!wrong.result);

    // A public output that is not a curve point fails to decode; one of the
    // wrong shape for the key is a structural mismatch; a truncated proof and
    // odd-length hex are decode errors of their own.
    let not_a_point = "ff".repeat(32);
    assert_eq!(verify(&params, &proof, &not_a_point).err().unwrap(), ProofError::PointDecode);
    let one_scalar = format!("01{}", "00".repeat(31));
    assert_eq!(verify_tree(&params, &proof, &one_scalar).err().unwrap(), ProofError::Mismatch);
    assert_eq!(verify(&params, &proof[..proof.len() - 2].to_string(), &h).err().unwrap(), ProofError::ProofDecode);
    assert_eq!(verify(&params, &proof[..proof.len() - 1].to_string(), &h).err().unwrap(), ProofError::HexProof);
}

#[test]
fn tree_root_matches_external_hash_chain() {
    // The prove pipeline's public output at depth 10 equals the root computed
    // here directly with the hash primitive: leaf 5 hashed ten times against
    // the zero sibling with round-indexed domain separation.
    let req_leaf = web_proof::scalar::parse_tree_witness(&"5".as_bytes().to_vec()).unwrap();
    let out = prove_tree_response(&req_leaf, 10, &vec![], 0);

    let j_params = JubjubBn256::new();
    let mut cur = Fr::from_str("5").unwrap();
    for i in 0..10usize {
        let lhs = cur;
        let rhs = Fr::zero();
        let mut lhs: Vec<bool> = BitIterator::new(lhs.into_repr()).collect();
        let mut rhs: Vec<bool> = BitIterator::new(rhs.into_repr()).collect();
        lhs.reverse();
        rhs.reverse();
        cur = sapling_crypto_ce::baby_pedersen_hash::pedersen_hash::<Bn256, _>(
            sapling_crypto_ce::baby_pedersen_hash::Personalization::MerkleTree(i),
            lhs.into_iter()
                .take(Fr::NUM_BITS as usize)
                .chain(rhs.into_iter().take(Fr::NUM_BITS as usize)),
            &j_params,
        )
        .into_xy()
        .0;
    }
    let mut v = vec![];
    cur.into_repr().write_le(&mut v).unwrap();
    assert_eq!(out.h, hex::encode(&v));
}

/// The same hex text with one digit replaced by a different one.
fn perturb(s: &str, pos: usize) -> String {
    let mut b: Vec<u8> = s.as_bytes().to_vec();
    b[pos] = if b[pos] == b'0' { b'1' } else { b'0' };
    String::from_utf8(b).unwrap()
}

#[test]
fn dl_determinism() {
    // Identical seed, parameters and witness produce byte-identical proof and
    // public-output encodings.
    let params = dl_generate(&[9, 9, 9, 9]);
    let (proof_a, h_a) = dl_prove(&[4, 3, 2, 1], &params, "2a");
    let (proof_b, h_b) = dl_prove(&[4, 3, 2, 1], &params, "2a");
    assert_eq!(proof_a, proof_b);
    assert_eq!(h_a, h_b);
    // A different seed blinds the proof differently but attests to the same
    // public output.
    let (proof_c, h_c) = dl_prove(&[5, 6, 7, 8], &params, "2a");
    assert_ne!(proof_a, proof_c);
    assert_eq!(h_a, h_c);
}

#[test]
fn dl_rejects_perturbed_encodings() {
    // A single corrupted digit of the proof, the public output or the
    // parameters must never verify as true.
    let params = dl_generate(&[1, 2, 3, 4]);
    let (proof, h) = dl_prove(&[1, 2, 3, 4], &params, "5");
    assert!(verify(&params, &proof, &h).unwrap().result);

    for pos in [0, proof.len() / 2, proof.len() - 1] {
        let bad = perturb(&proof, pos);
        match verify(&params, &bad, &h) {
            Ok(kg) => assert!(!kg.result, "perturbed proof at {} verified", pos),
            Err(_) => {},
        }
    }
    for pos in [0, h.len() / 2, h.len() - 1] {
        let bad = perturb(&h, pos);
        match verify(&params, &proof, &bad) {
            Ok(kg) => assert!(!kg.result, "perturbed output at {} verified", pos),
            Err(_) => {},
        }
    }
    let bad_params = perturb(&params, params.len() / 2);
    match verify(&bad_params, &proof, &h) {
        Ok(kg) => assert!(!kg.result, "perturbed parameters verified"),
        Err(_) => {},
    }
}

#[test]
fn tree_scenario_end_to_end() {
    // A small tree: the proof verifies against the pipeline's root and fails
    // against the root of a different leaf.
    let params = tree_generate(&[1, 2, 3, 4], 2);
    let (proof, h) = tree_prove(&[1, 2, 3, 4], &params, "5", 2);
    assert!(verify_tree(&params, &proof, &h).unwrap().result);

    let leaf6 = web_proof::scalar::parse_tree_witness(&"6".as_bytes().to_vec()).unwrap();
    let h6 = prove_tree_response(&leaf6, 2, &vec![], 0).h;
    assert_ne!(h, h6);
    assert!(!verify_tree(&params, &proof, &h6).unwrap().result);

    // Public-output scalars that are too short or not below the field
    // characteristic fail to decode before the pairing check.
    assert_eq!(verify_tree(&params, &proof, "0011").err().unwrap(), ProofError::ScalarDecode);
    let too_big = "ff".repeat(32);
    assert_eq!(verify_tree(&params, &proof, &too_big).err().unwrap(), ProofError::ScalarDecode);
    // Bytes beyond the scalar's fixed width are ignored, as a fixed-width
    // read leaves them unconsumed.
    let padded = format!("{}ab", h);
    assert!(verify_tree(&params, &proof, &padded).unwrap().result);
}

#[test]
fn tree_depth_zero_root_is_leaf() {
    // With no hash rounds the public root is the leaf itself.
    let leaf = web_proof::scalar::parse_tree_witness(&"a7".as_bytes().to_vec()).unwrap();
    let out = prove_tree_response(&leaf, 0, &vec![], 0);
    assert_eq!(out.h, format!("a7{}", "00".repeat(31)));
}

#[test]
fn tree_depth_mismatch_fails() {
    // A proof built for one round count never verifies against a key
    // generated for another.
    let params_one = tree_generate(&[1, 2, 3, 4], 1);
    let params_two = tree_generate(&[1, 2, 3, 4], 2);
    let (proof, h) = tree_prove(&[1, 2, 3, 4], &params_one, "5", 1);
    match verify_tree(&params_two, &proof, &h) {
        Ok(kg) => assert!(!kg.result, "proof verified against the wrong depth"),
        Err(_) => {},
    }
}

#[test]
fn dl_public_output_matches_generator_power() {
    // The pipeline's public output is the generator raised to the witness,
    // computed here directly from the curve library.
    let x = web_proof::scalar::parse_dl_witness(&"5".as_bytes().to_vec()).unwrap();
    let h = prove_response(&x, &vec![], 0).h;

    let j_params = JubjubBn256::new();
    let g = j_params.generator(FixedGenerators::ProofGenerationKey);
    let xs = sapling_crypto_ce::babyjubjub::fs::Fs::from_str("5").unwrap();
    let p = g.mul(xs, &j_params);
    let mut v = vec![];
    p.write(&mut v).unwrap();
    assert_eq!(h, hex::encode(&v));
}
