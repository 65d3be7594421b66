use vstd::prelude::*;

verus! {

/// The error taxonomy of the proving and verifying pipelines.
///
/// Input-validation failures, decode failures (one variant per artifact so a
/// caller can tell which input was corrupt) and structural mismatches are kept
/// apart, so callers can branch on the kind and not on message text.
#[derive(Clone, Copy, Debug, PartialEq, Eq, Structural)]
pub enum ProofError {
    /// The proving-parameters string was empty: nothing was generated or loaded.
    EmptyParams,
    /// The proving/verifying parameters string was not valid hexadecimal.
    HexParams,
    /// The proof string was not valid hexadecimal.
    HexProof,
    /// The public-output string was not valid hexadecimal.
    HexPublic,
    /// The parameter bytes did not decode to a proving/verifying key pair.
    ParamsDecode,
    /// The proof bytes did not decode to a proof.
    ProofDecode,
    /// The public-output bytes did not decode to a curve point.
    PointDecode,
    /// The public-output bytes did not decode to a scalar field element.
    ScalarDecode,
    /// The witness text was not a well-formed base-16 integer.
    WitnessParse,
    /// The witness was a negative number, which no field element represents.
    WitnessNegative,
    /// The discrete-log witness was not below the subgroup order.
    SubgroupRange,
    /// The tree leaf witness was not below the scalar-field characteristic.
    FieldRange,
    /// The proof and verifying key disagree on the number of public inputs.
    Mismatch,
}

impl ProofError {
    /// The message a variant flattens to at the caller-facing boundary.
    pub open spec fn message_spec(self) -> Seq<char> {
        match self {
            ProofError::EmptyParams => "Params are empty. Did you generate or load params?"@,
            ProofError::HexParams => "couldn't decode hex of params"@,
            ProofError::HexProof => "couldn't decode hex of proof"@,
            ProofError::HexPublic => "couldn't decode hex of public output"@,
            ProofError::ParamsDecode => "couldn't decode params"@,
            ProofError::ProofDecode => "couldn't decode proof"@,
            ProofError::PointDecode => "couldn't decode public output point"@,
            ProofError::ScalarDecode => "couldn't decode public output scalar"@,
            ProofError::WitnessParse => "couldn't parse x as a hex integer"@,
            ProofError::WitnessNegative => "couldn't parse Fr"@,
            ProofError::SubgroupRange => (
                "x should be less than 60c89ce5c263405370a08b6d0302b0bab3eedb83920ee0a677297dc392126f1"@
            ),
            ProofError::FieldRange => (
                "x should be less than 30644e72e131a029b85045b68181585d2833e84879b9709143e1f593f0000001"@
            ),
            ProofError::Mismatch => "proof and verifying key are structurally incompatible"@,
        }
    }

    /// Flattens the error to its descriptive string.
    pub fn message(&self) -> (r: String)
        ensures
            r@ == self.message_spec(),
    {
        match self {
            ProofError::EmptyParams => "Params are empty. Did you generate or load params?".to_owned(),
            ProofError::HexParams => "couldn't decode hex of params".to_owned(),
            ProofError::HexProof => "couldn't decode hex of proof".to_owned(),
            ProofError::HexPublic => "couldn't decode hex of public output".to_owned(),
            ProofError::ParamsDecode => "couldn't decode params".to_owned(),
            ProofError::ProofDecode => "couldn't decode proof".to_owned(),
            ProofError::PointDecode => "couldn't decode public output point".to_owned(),
            ProofError::ScalarDecode => "couldn't decode public output scalar".to_owned(),
            ProofError::WitnessParse => "couldn't parse x as a hex integer".to_owned(),
            ProofError::WitnessNegative => "couldn't parse Fr".to_owned(),
            ProofError::SubgroupRange => (
                "x should be less than 60c89ce5c263405370a08b6d0302b0bab3eedb83920ee0a677297dc392126f1".to_owned()
            ),
            ProofError::FieldRange => (
                "x should be less than 30644e72e131a029b85045b68181585d2833e84879b9709143e1f593f0000001".to_owned()
            ),
            ProofError::Mismatch => "proof and verifying key are structurally incompatible".to_owned(),
        }
    }
}

} // verus!
