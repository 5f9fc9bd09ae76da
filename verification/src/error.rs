//! Errors of the resource machine.

use vstd::prelude::*;

use crate::traits::NullifierError;

verus! {

/// The errors that the resource machine's checks report.
#[derive(Debug, Clone, PartialEq, Eq)]
pub enum ArmError {
    ComplianceProofEmptyNullifierArray,
    ComplianceProofCreatedResourceNonceMismatch,
    InvalidDelta,
    ProofVerificationFailed,
    InstanceMismatch,
    InvalidProof,
    NullifierDuplication,
    CommitmentDuplication,
    DeltaProofVerificationFailed,
    InvalidSignature,
    MissingField(&'static str),
    ValueRefMismatch,
    LabelRefMismatch,
    InvalidCalldata(&'static str),
    GeneralError,
}

/// The displayed message of an error.
pub open spec fn error_message(e: ArmError) -> Seq<char> {
    match e {
        ArmError::ComplianceProofEmptyNullifierArray => "Empty nullifier array for compliance proof"@,
        ArmError::ComplianceProofCreatedResourceNonceMismatch =>
            "Nonce mismatch for a created resource in compliance proof"@,
        ArmError::InvalidDelta => "Invalid delta point (x, y do not lie on the curve)"@,
        ArmError::ProofVerificationFailed => "STARK proof verification failed"@,
        ArmError::InstanceMismatch => "Instance mismatch for proof verification"@,
        ArmError::InvalidProof => "Invalid proof supplied"@,
        ArmError::NullifierDuplication => "Nullifier appears in more than one action in the transaction"@,
        ArmError::CommitmentDuplication =>
            "Commitment appears in more than one action in the transaction"@,
        ArmError::DeltaProofVerificationFailed => "Delta proof verification failed"@,
        ArmError::InvalidSignature => "Authority signature verification failed"@,
        ArmError::MissingField(field) => "Missing witness field: "@ + field@,
        ArmError::ValueRefMismatch => "Resource value_ref binding mismatch"@,
        ArmError::LabelRefMismatch => "Resource label_ref mismatch"@,
        ArmError::InvalidCalldata(what) => "Invalid forwarder calldata: "@ + what@,
        ArmError::GeneralError => "RM Error"@,
    }
}

impl ArmError {
    /// The message of each error, as it is displayed.
    pub fn message(&self) -> (s: String)
        ensures
            s@ == error_message(*self),
    {
        match self {
            ArmError::ComplianceProofEmptyNullifierArray => String::from_str(
                "Empty nullifier array for compliance proof",
            ),
            ArmError::ComplianceProofCreatedResourceNonceMismatch => String::from_str(
                "Nonce mismatch for a created resource in compliance proof",
            ),
            ArmError::InvalidDelta => String::from_str(
                "Invalid delta point (x, y do not lie on the curve)",
            ),
            ArmError::ProofVerificationFailed => String::from_str("STARK proof verification failed"),
            ArmError::InstanceMismatch => String::from_str("Instance mismatch for proof verification"),
            ArmError::InvalidProof => String::from_str("Invalid proof supplied"),
            ArmError::NullifierDuplication => String::from_str(
                "Nullifier appears in more than one action in the transaction",
            ),
            ArmError::CommitmentDuplication => String::from_str(
                "Commitment appears in more than one action in the transaction",
            ),
            ArmError::DeltaProofVerificationFailed => String::from_str(
                "Delta proof verification failed",
            ),
            ArmError::InvalidSignature => String::from_str("Authority signature verification failed"),
            ArmError::MissingField(field) => {
                let mut s = String::from_str("Missing witness field: ");
                s.append(field);
                s
            },
            ArmError::ValueRefMismatch => String::from_str("Resource value_ref binding mismatch"),
            ArmError::LabelRefMismatch => String::from_str("Resource label_ref mismatch"),
            ArmError::InvalidCalldata(what) => {
                let mut s = String::from_str("Invalid forwarder calldata: ");
                s.append(what);
                s
            },
            ArmError::GeneralError => String::from_str("RM Error"),
        }
    }
}

impl From<NullifierError> for ArmError {
    fn from(e: NullifierError) -> (r: ArmError) {
        ArmError::GeneralError
    }
}

impl vstd::std_specs::convert::FromSpecImpl<NullifierError> for ArmError {
    open spec fn obeys_from_spec() -> bool {
        true
    }

    open spec fn from_spec(e: NullifierError) -> ArmError {
        ArmError::GeneralError
    }
}

} // verus!
