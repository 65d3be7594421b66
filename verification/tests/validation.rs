//! Input validation, parsing and encoding behavior that needs no proof system.

use web_proof::err::ProofError;
use web_proof::scalar::{dl_bits, parse_dl_witness, parse_tree_witness};
use web_proof::stopwatch::Stopwatch;
use web_proof::{generate_response, prove_request, prove_tree_request, verify, verify_tree};

fn bytes(s: &str) -> Vec<u8> {
    s.as_bytes().to_vec()
}

#[test]
fn witness_simple_value() {
    let x = parse_dl_witness(&bytes("5")).unwrap();
    assert_eq!(x.le.len(), 32);
    assert_eq!(x.le[0], 5);
    assert!(x.le[1..].iter().all(|&b| b == 0));
}

#[test]
fn witness_two_digit_value() {
    let x = parse_dl_witness(&bytes("a7")).unwrap();
    assert_eq!(x.le[0], 0xa7);
    assert!(x.le[1..].iter().all(|&b| b == 0));
}

#[test]
fn witness_case_and_underscores() {
    let a = parse_dl_witness(&bytes("deadBEEF")).unwrap();
    let b = parse_dl_witness(&bytes("dead_beef")).unwrap();
    assert_eq!(a.le, b.le);
    assert_eq!(a.le[0], 0xef);
    assert_eq!(a.le[3], 0xde);
}

#[test]
fn witness_leading_zeros_and_plus() {
    let a = parse_dl_witness(&bytes("0005")).unwrap();
    let b = parse_dl_witness(&bytes("+5")).unwrap();
    assert_eq!(a.le, b.le);
}

#[test]
fn witness_negative_zero_is_zero() {
    let x = parse_dl_witness(&bytes("-0")).unwrap();
    assert!(x.le.iter().all(|&b| b == 0));
}

#[test]
fn witness_negative_rejected() {
    let e = parse_dl_witness(&bytes("-5")).unwrap_err();
    assert_eq!(e, ProofError::WitnessNegative);
    assert_eq!(e.message(), "couldn't parse Fr");
}

#[test]
fn witness_malformed_rejected() {
    for bad in ["", "-", "+", "0x5", "5g", "_5", "-_5", "++5", "-+5", "+-5", "é"] {
        let e = parse_dl_witness(&bytes(bad)).unwrap_err();
        assert_eq!(e, ProofError::WitnessParse, "input {:?}", bad);
    }
}

#[test]
fn witness_range_boundary() {
    // The subgroup order itself is rejected with the boundary in the message.
    let order = "60c89ce5c263405370a08b6d0302b0bab3eedb83920ee0a677297dc392126f1";
    let e = parse_dl_witness(&bytes(order)).unwrap_err();
    assert_eq!(e, ProofError::SubgroupRange);
    assert_eq!(
        e.message(),
        "x should be less than 60c89ce5c263405370a08b6d0302b0bab3eedb83920ee0a677297dc392126f1"
    );
    // One below the order is accepted.
    let below = "60c89ce5c263405370a08b6d0302b0bab3eedb83920ee0a677297dc392126f0";
    assert!(parse_dl_witness(&bytes(below)).is_ok());
    // A much wider magnitude is rejected the same way.
    let wide = "ff".repeat(40);
    let e = parse_dl_witness(&bytes(&wide)).unwrap_err();
    assert_eq!(e, ProofError::SubgroupRange);
    // Leading zeros do not change the value that is compared.
    let padded = format!("000{}", order);
    let e = parse_dl_witness(&bytes(&padded)).unwrap_err();
    assert_eq!(e, ProofError::SubgroupRange);
}

#[test]
fn tree_witness_range_boundary() {
    // The tree leaf is checked against the field characteristic instead.
    let modulus = "30644e72e131a029b85045b68181585d2833e84879b9709143e1f593f0000001";
    let e = parse_tree_witness(&bytes(modulus)).unwrap_err();
    assert_eq!(e, ProofError::FieldRange);
    let below = "30644e72e131a029b85045b68181585d2833e84879b9709143e1f593f0000000";
    let x = parse_tree_witness(&bytes(below)).unwrap();
    assert_eq!(x.le[31], 0x30);
    // A discrete-log witness of that size is already over the subgroup order.
    let e = parse_dl_witness(&bytes(below)).unwrap_err();
    assert_eq!(e, ProofError::SubgroupRange);
    // Negative leaves are rejected as unparseable field elements.
    let e = parse_tree_witness(&bytes("-5")).unwrap_err();
    assert_eq!(e, ProofError::WitnessNegative);
}

#[test]
fn empty_params_guard() {
    // An empty parameters string is its own error, distinct from a decode
    // failure, for both statements.
    let e = prove_request("", "5").err().unwrap();
    assert_eq!(e, ProofError::EmptyParams);
    assert_eq!(e.message(), "Params are empty. Did you generate or load params?");
    let e = prove_tree_request("", "5").err().unwrap();
    assert_eq!(e, ProofError::EmptyParams);
    // Junk that is not hex is a hex error; hex that is not a key pair is a
    // decode error.
    assert_eq!(prove_request("zz", "5").err().unwrap(), ProofError::HexParams);
    assert_eq!(prove_request("0102", "5").err().unwrap(), ProofError::ParamsDecode);
    assert_ne!(ProofError::EmptyParams.message(), ProofError::ParamsDecode.message());
    assert_ne!(ProofError::EmptyParams.message(), ProofError::HexParams.message());
}

#[test]
fn verify_rejects_malformed_inputs() {
    // Errors are decodable per artifact, in the order the pipeline reads them.
    assert_eq!(verify("zz", "00", "00").err().unwrap(), ProofError::HexParams);
    assert_eq!(verify("01", "00", "00").err().unwrap(), ProofError::ParamsDecode);
    assert_eq!(verify_tree("zz", "00", "00").err().unwrap(), ProofError::HexParams);
    assert_eq!(verify_tree("0102", "00", "00").err().unwrap(), ProofError::ParamsDecode);
}

#[test]
fn hex_encoding_is_lowercase_pairs() {
    let out = generate_response(&vec![0xab, 0x01, 0xFF, 0x00], 7);
    assert_eq!(out.params, "ab01ff00");
    assert_eq!(out.millis, 7);
    let empty = generate_response(&vec![], 3);
    assert_eq!(empty.params, "");
}

#[test]
fn dl_bits_low_bits_first() {
    let x = parse_dl_witness(&bytes("5")).unwrap();
    let bits = dl_bits(Some(&x));
    assert_eq!(bits.len(), 251);
    assert!(bits[0]);
    assert!(!bits[1]);
    assert!(bits[2]);
    assert!(bits[3..].iter().all(|&b| !b));
    let shape = dl_bits(None);
    assert_eq!(shape.len(), 251);
    assert!(shape.iter().all(|&b| !b));
}

#[test]
fn stopwatch_runs() {
    let sw = Stopwatch::start();
    let mut acc: u64 = 1;
    for i in 1..1000u64 {
        acc = acc.wrapping_mul(i);
    }
    assert!(acc != 0 || acc == 0);
    let _millis = sw.finish();
}
