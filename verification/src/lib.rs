use vstd::prelude::*;
use vstd::string::StringSliceAdditionalSpecFns;

pub mod digits;
pub mod err;
pub mod groth;
pub mod hexcodec;
pub mod jubjub;
pub mod scalar;
pub mod stopwatch;

use crate::digits::le_val;
use crate::err::ProofError;
use crate::groth::{
    groth_verify_res, params_decode_ok, proof_decode_ok, read_params, read_proof, verify_groth1,
    verify_groth2, GrothParams,
};
use crate::hexcodec::{bytes_of_hex, hex_chars_of, hex_decode, hex_encode, is_hex};
use crate::jubjub::{
    dl_point_bytes, generator_mul_bytes, new_jubjub, pedersen_hash_x, pedersen_x, point_read_xy,
    point_xy_of,
};
use crate::scalar::{
    dl_witness_err, fr_modulus, fr_modulus_le_vec, fs_order, le_bits, parse_dl_witness,
    parse_tree_witness, scalar_bit, tree_witness_err, witness_val, ScalarValue,
};
use crate::stopwatch::Stopwatch;

verus! {

/// Result of a parameter-generation call: the hex-encoded proving/verifying
/// key pair and the wall-clock duration of the setup step.
#[derive(Debug)]
pub struct KGGenerate {
    pub params: String,
    pub millis: u128,
}

/// Result of a prove call: the hex-encoded proof, the hex-encoded public
/// output the proof attests to, and the wall-clock duration.
#[derive(Debug)]
pub struct KGProof {
    pub proof: String,
    pub h: String,
    pub millis: u128,
}

/// Result of a verify call: the outcome of the pairing check and the
/// wall-clock duration.
#[derive(Debug)]
pub struct KGVerify {
    pub result: bool,
    pub millis: u128,
}

/// The bytes of a text input.
fn str_bytes_vec(s: &str) -> (r: Vec<u8>)
    ensures
        r@ == s.spec_bytes(),
{
    vstd::slice::slice_to_vec(s.as_bytes())
}

/// A text is empty exactly when its bytes are.
proof fn lemma_str_empty_bytes(s: &str)
    ensures
        (s@.len() == 0) <==> (s.spec_bytes().len() == 0),
{
    if s@.len() != 0 {
        assert(s.spec_bytes() == vstd::utf8::encode_scalar(s@[0] as u32) + vstd::utf8::encode_utf8(
            s@.drop_first(),
        ));
        assert(vstd::utf8::encode_scalar(s@[0] as u32).len() >= 1);
    }
}

// ---------------------------------------------------------------------------
// The tree statement's root computation.
// ---------------------------------------------------------------------------

/// The bit string hashed in one tree round: the 254 low bits of the running
/// value as the left child, then the 254 low bits of the zero sibling.
pub open spec fn tree_preimage(cur: Seq<u8>) -> Seq<bool> {
    Seq::new(254, |i: int| scalar_bit(cur, i)) + Seq::new(254, |i: int| false)
}

/// The public root of the tree statement: the leaf hashed `d` times against
/// the zero sibling, always as the left child, with the round index
/// separating hash domains.
pub open spec fn tree_root_spec(leaf: Seq<u8>, d: nat) -> Seq<u8>
    decreases d,
{
    if d == 0 {
        leaf
    } else {
        pedersen_x((d - 1) as int, tree_preimage(tree_root_spec(leaf, (d - 1) as nat)))
    }
}

/// Recomputes the tree statement's public root outside the circuit, by
/// iterating the round-indexed hash over the leaf and the zero sibling.
pub fn tree_root(leaf: &ScalarValue, depth: u8) -> (r: ScalarValue)
    requires
        leaf.wf(),
        depth <= 62,
    ensures
        r.wf(),
        r.le@ == tree_root_spec(leaf.le@, depth as nat),
{
    let params = new_jubjub();
    let mut cur = leaf.duplicate();
    let mut i: u8 = 0;
    while i < depth
        invariant
            i <= depth,
            depth <= 62,
            cur.le@.len() == 32,
            cur.le@ == tree_root_spec(leaf.le@, i as nat),
        decreases depth - i,
    {
        let mut bits = le_bits(&cur, 254);
        let mut j: usize = 0;
        while j < 254
            invariant
                j <= 254,
                bits@.len() == 254 + j,
                forall|k: int| 0 <= k < 254 ==> bits@[k] == scalar_bit(cur.le@, k),
                forall|k: int| 254 <= k < bits@.len() ==> bits@[k] == false,
            decreases 254 - j,
        {
            bits.push(false);
            j += 1;
        }
        proof {
            assert(bits@ =~= tree_preimage(cur.le@));
        }
        let le = pedersen_hash_x(i, &bits, &params);
        cur = ScalarValue { le };
        i += 1;
    }
    cur
}

// ---------------------------------------------------------------------------
// Setup pipeline.
// ---------------------------------------------------------------------------

/// Packages freshly generated parameters: their serialized bytes are
/// hex-encoded and returned with the setup duration. Serves both statements.
pub fn generate_response(params_bytes: &Vec<u8>, millis: u128) -> (r: KGGenerate)
    ensures
        r.params@ == hex_chars_of(params_bytes@),
        r.millis == millis,
{
    KGGenerate { params: hex_encode(params_bytes), millis }
}

// ---------------------------------------------------------------------------
// Prove pipeline.
// ---------------------------------------------------------------------------

/// A validated discrete-log prove call: the decoded proving parameters and
/// the range-checked witness.
pub struct DlProveRequest {
    pub params: GrothParams,
    pub x: ScalarValue,
}

/// A validated tree prove call: the decoded proving parameters and the
/// range-checked leaf.
pub struct TreeProveRequest {
    pub params: GrothParams,
    pub leaf: ScalarValue,
}

/// Which error a discrete-log prove call reports, if any, in the order the
/// checks run: present parameters, hex parameters, decodable parameters, then
/// witness validation.
pub open spec fn dl_prove_err(p: Seq<u8>, x: Seq<u8>) -> Option<ProofError> {
    if p.len() == 0 {
        Some(ProofError::EmptyParams)
    } else if !is_hex(p) {
        Some(ProofError::HexParams)
    } else if !params_decode_ok(bytes_of_hex(p)) {
        Some(ProofError::ParamsDecode)
    } else {
        dl_witness_err(x)
    }
}

/// Which error a tree prove call reports, if any, in the same order.
pub open spec fn tree_prove_err(p: Seq<u8>, x: Seq<u8>) -> Option<ProofError> {
    if p.len() == 0 {
        Some(ProofError::EmptyParams)
    } else if !is_hex(p) {
        Some(ProofError::HexParams)
    } else if !params_decode_ok(bytes_of_hex(p)) {
        Some(ProofError::ParamsDecode)
    } else {
        tree_witness_err(x)
    }
}

/// Validates a discrete-log prove call: the parameters must be present, hex
/// and decodable, and the witness must parse and lie strictly below the
/// subgroup order.
pub fn prove_request(params: &str, x_hex: &str) -> (r: Result<DlProveRequest, ProofError>)
    ensures
        match r {
            Ok(req) => {
                &&& dl_prove_err(params.spec_bytes(), x_hex.spec_bytes()) is None
                &&& req.x.wf()
                &&& req.x.val() == witness_val(x_hex.spec_bytes())
                &&& req.x.val() < fs_order()
            },
            Err(e) => dl_prove_err(params.spec_bytes(), x_hex.spec_bytes()) == Some(e),
        },
{
    proof {
        lemma_str_empty_bytes(params);
    }
    if params.is_empty() {
        return Err(ProofError::EmptyParams);
    }
    let pb = match hex_decode(params) {
        None => {
            return Err(ProofError::HexParams);
        },
        Some(v) => v,
    };
    let gp = match read_params(&pb) {
        None => {
            return Err(ProofError::ParamsDecode);
        },
        Some(g) => g,
    };
    let xb = str_bytes_vec(x_hex);
    match parse_dl_witness(&xb) {
        Err(e) => Err(e),
        Ok(x) => Ok(DlProveRequest { params: gp, x }),
    }
}

/// Validates a tree prove call: the parameters must be present, hex and
/// decodable, and the leaf must parse and lie strictly below the field
/// characteristic.
pub fn prove_tree_request(params: &str, x_hex: &str) -> (r: Result<TreeProveRequest, ProofError>)
    ensures
        match r {
            Ok(req) => {
                &&& tree_prove_err(params.spec_bytes(), x_hex.spec_bytes()) is None
                &&& req.leaf.wf()
                &&& req.leaf.val() == witness_val(x_hex.spec_bytes())
                &&& req.leaf.val() < fr_modulus()
            },
            Err(e) => tree_prove_err(params.spec_bytes(), x_hex.spec_bytes()) == Some(e),
        },
{
    proof {
        lemma_str_empty_bytes(params);
    }
    if params.is_empty() {
        return Err(ProofError::EmptyParams);
    }
    let pb = match hex_decode(params) {
        None => {
            return Err(ProofError::HexParams);
        },
        Some(v) => v,
    };
    let gp = match read_params(&pb) {
        None => {
            return Err(ProofError::ParamsDecode);
        },
        Some(g) => g,
    };
    let xb = str_bytes_vec(x_hex);
    match parse_tree_witness(&xb) {
        Err(e) => Err(e),
        Ok(leaf) => Ok(TreeProveRequest { params: gp, leaf }),
    }
}

/// Packages a discrete-log proof: the proof bytes are hex-encoded, and the
/// public output g^x is recomputed here, independently of the circuit.
pub fn prove_response(x: &ScalarValue, proof_bytes: &Vec<u8>, millis: u128) -> (r: KGProof)
    requires
        x.wf(),
        x.val() < fs_order(),
    ensures
        r.proof@ == hex_chars_of(proof_bytes@),
        r.h@ == hex_chars_of(dl_point_bytes(x.le@)),
        r.millis == millis,
{
    let params = new_jubjub();
    let h = generator_mul_bytes(&x.le, &params);
    KGProof { proof: hex_encode(proof_bytes), h: hex_encode(&h), millis }
}

/// Packages a tree proof: the proof bytes are hex-encoded, and the public
/// root is recomputed here, independently of the circuit.
pub fn prove_tree_response(leaf: &ScalarValue, depth: u8, proof_bytes: &Vec<u8>, millis: u128) -> (r:
    KGProof)
    requires
        leaf.wf(),
        depth <= 62,
    ensures
        r.proof@ == hex_chars_of(proof_bytes@),
        r.h@ == hex_chars_of(tree_root_spec(leaf.le@, depth as nat)),
        r.millis == millis,
{
    let root = tree_root(leaf, depth);
    KGProof { proof: hex_encode(proof_bytes), h: hex_encode(&root.le), millis }
}

// ---------------------------------------------------------------------------
// Verify pipeline.
// ---------------------------------------------------------------------------

/// Which error a discrete-log verify call reports before the pairing check,
/// if any, in the order the checks run.
pub open spec fn verify_err(p: Seq<u8>, pr: Seq<u8>, h: Seq<u8>) -> Option<ProofError> {
    if !is_hex(p) {
        Some(ProofError::HexParams)
    } else if !params_decode_ok(bytes_of_hex(p)) {
        Some(ProofError::ParamsDecode)
    } else if !is_hex(h) {
        Some(ProofError::HexPublic)
    } else if point_xy_of(bytes_of_hex(h)) is None {
        Some(ProofError::PointDecode)
    } else if !is_hex(pr) {
        Some(ProofError::HexProof)
    } else if !proof_decode_ok(bytes_of_hex(pr)) {
        Some(ProofError::ProofDecode)
    } else {
        None
    }
}

/// The public-input vector of a discrete-log verify call: the two coordinates
/// of the point the public-output bytes decode to, in order.
pub open spec fn dl_inputs(hb: Seq<u8>) -> Seq<Seq<u8>> {
    match point_xy_of(hb) {
        Some(xy) => seq![xy.0, xy.1],
        None => Seq::empty(),
    }
}

/// The outcome of a discrete-log verify call's pairing check, as a function
/// of the three text inputs' bytes alone: the check of the decoded proof
/// under the decoded key against the decoded point's two coordinates.
pub open spec fn dl_outcome(p: Seq<u8>, pr: Seq<u8>, h: Seq<u8>) -> Option<bool> {
    groth_verify_res(bytes_of_hex(p), bytes_of_hex(pr), dl_inputs(bytes_of_hex(h)))
}

/// Checks a discrete-log proof against a verifying key and a public point,
/// all hex-encoded. Every outcome is pinned down: the errors before the
/// pairing check exactly, in order, and the returned boolean as the pairing
/// check of the decoded artifacts — a function of the three inputs alone, so
/// equal inputs always answer equally.
pub fn verify(params: &str, proof_hex: &str, h: &str) -> (r: Result<KGVerify, ProofError>)
    ensures
        match r {
            Ok(kg) => {
                &&& verify_err(params.spec_bytes(), proof_hex.spec_bytes(), h.spec_bytes())
                    is None
                &&& Some(kg.result) == dl_outcome(
                    params.spec_bytes(),
                    proof_hex.spec_bytes(),
                    h.spec_bytes(),
                )
            },
            Err(e) => {
                ||| verify_err(params.spec_bytes(), proof_hex.spec_bytes(), h.spec_bytes())
                    == Some(e)
                ||| (verify_err(params.spec_bytes(), proof_hex.spec_bytes(), h.spec_bytes())
                    is None && e == ProofError::Mismatch && dl_outcome(
                    params.spec_bytes(),
                    proof_hex.spec_bytes(),
                    h.spec_bytes(),
                ) is None)
            },
        },
{
    let jj = new_jubjub();
    let pb = match hex_decode(params) {
        None => {
            return Err(ProofError::HexParams);
        },
        Some(v) => v,
    };
    // The early per-artifact reads pin which input fails and in which order;
    // the pairing check itself is one trusted step over the raw bytes.
    if read_params(&pb).is_none() {
        return Err(ProofError::ParamsDecode);
    }
    let hb = match hex_decode(h) {
        None => {
            return Err(ProofError::HexPublic);
        },
        Some(v) => v,
    };
    let xy = match point_read_xy(&hb, &jj) {
        None => {
            return Err(ProofError::PointDecode);
        },
        Some(xy) => xy,
    };
    let sw = Stopwatch::start();
    let prb = match hex_decode(proof_hex) {
        None => {
            return Err(ProofError::HexProof);
        },
        Some(v) => v,
    };
    if read_proof(&prb).is_none() {
        return Err(ProofError::ProofDecode);
    }
    match verify_groth2(&pb, &prb, &xy.0, &xy.1) {
        Some(result) => Ok(KGVerify { result, millis: sw.finish() }),
        None => Err(ProofError::Mismatch),
    }
}

/// Which error a tree verify call reports before the pairing check, if any,
/// in the order the checks run. The public output must decode to at least 32
/// bytes whose low 32 hold a number below the field characteristic.
pub open spec fn verify_tree_err(p: Seq<u8>, pr: Seq<u8>, h: Seq<u8>) -> Option<ProofError> {
    if !is_hex(p) {
        Some(ProofError::HexParams)
    } else if !params_decode_ok(bytes_of_hex(p)) {
        Some(ProofError::ParamsDecode)
    } else if !is_hex(h) {
        Some(ProofError::HexPublic)
    } else if bytes_of_hex(h).len() < 32 {
        Some(ProofError::ScalarDecode)
    } else if le_val(bytes_of_hex(h).take(32)) >= fr_modulus() {
        Some(ProofError::ScalarDecode)
    } else if !is_hex(pr) {
        Some(ProofError::HexProof)
    } else if !proof_decode_ok(bytes_of_hex(pr)) {
        Some(ProofError::ProofDecode)
    } else {
        None
    }
}

/// The public-input vector of a tree verify call: the one root scalar held in
/// the low 32 bytes of the decoded public output.
pub open spec fn tree_inputs(hb: Seq<u8>) -> Seq<Seq<u8>> {
    seq![hb.take(32)]
}

/// The outcome of a tree verify call's pairing check, as a function of the
/// three text inputs' bytes alone: the check of the decoded proof under the
/// decoded key against the one-element vector holding the decoded root.
pub open spec fn tree_outcome(p: Seq<u8>, pr: Seq<u8>, h: Seq<u8>) -> Option<bool> {
    groth_verify_res(bytes_of_hex(p), bytes_of_hex(pr), tree_inputs(bytes_of_hex(h)))
}

/// Checks a tree proof against a verifying key and a public root scalar, all
/// hex-encoded. Every outcome is pinned down: the errors before the pairing
/// check exactly, in order, and the returned boolean as the pairing check of
/// the decoded artifacts — a function of the three inputs alone, so equal
/// inputs always answer equally.
pub fn verify_tree(params: &str, proof_hex: &str, h: &str) -> (r: Result<KGVerify, ProofError>)
    ensures
        match r {
            Ok(kg) => {
                &&& verify_tree_err(params.spec_bytes(), proof_hex.spec_bytes(), h.spec_bytes())
                    is None
                &&& Some(kg.result) == tree_outcome(
                    params.spec_bytes(),
                    proof_hex.spec_bytes(),
                    h.spec_bytes(),
                )
            },
            Err(e) => {
                ||| verify_tree_err(params.spec_bytes(), proof_hex.spec_bytes(), h.spec_bytes())
                    == Some(e)
                ||| (verify_tree_err(params.spec_bytes(), proof_hex.spec_bytes(), h.spec_bytes())
                    is None && e == ProofError::Mismatch && tree_outcome(
                    params.spec_bytes(),
                    proof_hex.spec_bytes(),
                    h.spec_bytes(),
                ) is None)
            },
        },
{
    let pb = match hex_decode(params) {
        None => {
            return Err(ProofError::HexParams);
        },
        Some(v) => v,
    };
    // The early per-artifact reads pin which input fails and in which order;
    // the pairing check itself is one trusted step over the raw bytes.
    if read_params(&pb).is_none() {
        return Err(ProofError::ParamsDecode);
    }
    let sw = Stopwatch::start();
    let mut hb = match hex_decode(h) {
        None => {
            return Err(ProofError::HexPublic);
        },
        Some(v) => v,
    };
    if hb.len() < 32 {
        return Err(ProofError::ScalarDecode);
    }
    hb.truncate(32);
    let modulus = fr_modulus_le_vec();
    if !crate::digits::le_bytes_lt(&hb, &modulus) {
        return Err(ProofError::ScalarDecode);
    }
    let prb = match hex_decode(proof_hex) {
        None => {
            return Err(ProofError::HexProof);
        },
        Some(v) => v,
    };
    if read_proof(&prb).is_none() {
        return Err(ProofError::ProofDecode);
    }
    match verify_groth1(&pb, &prb, &hb) {
        Some(result) => Ok(KGVerify { result, millis: sw.finish() }),
        None => Err(ProofError::Mismatch),
    }
}

} // verus!
