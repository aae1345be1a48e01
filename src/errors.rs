use crate::hashing::{hex_text, to_hex};
use vstd::prelude::*;
use vstd::string::StringExecFns;

verus! {

/// Why the settlement contract rejected a batch registration.
#[derive(Clone, Debug, PartialEq, Eq)]
pub enum TransactionSendError {
    NoProofSubmitters,
    NoFeePerProof,
    InsufficientFeeForAggregator,
    SubmissionInsufficientBalance,
    BatchAlreadySubmitted,
    InsufficientFunds,
    OnlyBatcherAllowed,
    Generic(String),
}

/// Whether the revert data starts with the four-byte selector `sel`.
pub open spec fn has_selector(data: Seq<u8>, sel: Seq<u8>) -> bool {
    data.len() >= 4 && data.subrange(0, 4) == sel
}

/// The rejection that revert data names by its leading selector; data with
/// another selector, or shorter than one, gives a generic rejection that
/// quotes the data in hexadecimal.
pub open spec fn revert_reason(data: Seq<u8>) -> TransactionSendError {
    if has_selector(data, seq![0xc4u8, 0x3au8, 0xc2u8, 0x90u8]) {
        TransactionSendError::NoProofSubmitters
    } else if has_selector(data, seq![0xa3u8, 0xa8u8, 0x65u8, 0x8au8]) {
        TransactionSendError::NoFeePerProof
    } else if has_selector(data, seq![0x78u8, 0x99u8, 0xecu8, 0x71u8]) {
        TransactionSendError::InsufficientFeeForAggregator
    } else if has_selector(data, seq![0x31u8, 0x02u8, 0xf1u8, 0x0cu8]) {
        TransactionSendError::BatchAlreadySubmitted
    } else if has_selector(data, seq![0x5cu8, 0x54u8, 0x30u8, 0x5eu8]) {
        TransactionSendError::InsufficientFunds
    } else if has_selector(data, seq![0x15u8, 0x2bu8, 0xc2u8, 0x88u8]) {
        TransactionSendError::OnlyBatcherAllowed
    } else if has_selector(data, seq![0x4fu8, 0x77u8, 0x9cu8, 0xebu8]) {
        TransactionSendError::SubmissionInsufficientBalance
    } else {
        TransactionSendError::Generic(arbitrary())
    }
}

/// Whether `data` starts with the selector `a b c d`.
fn starts_with(data: &[u8], a: u8, b: u8, c: u8, d: u8) -> (r: bool)
    ensures
        r == has_selector(data@, seq![a, b, c, d]),
{
    if data.len() < 4 {
        return false;
    }
    let r = data[0] == a && data[1] == b && data[2] == c && data[3] == d;
    assert(r == (data@.subrange(0, 4) =~= seq![a, b, c, d]));
    r
}

impl TransactionSendError {
    /// Reads the rejection out of the contract's revert data.
    pub fn from_revert_data(data: &[u8]) -> (r: TransactionSendError)
        ensures
            revert_reason(data@) matches TransactionSendError::Generic(_) ==> r matches TransactionSendError::Generic(m)
                && m@ == "Unknown bytestring error: 0x"@ + hex_text(data@),
            !(revert_reason(data@) matches TransactionSendError::Generic(_)) ==> r == revert_reason(data@),
    {
        if starts_with(data, 0xc4, 0x3a, 0xc2, 0x90) {
            TransactionSendError::NoProofSubmitters
        } else if starts_with(data, 0xa3, 0xa8, 0x65, 0x8a) {
            TransactionSendError::NoFeePerProof
        } else if starts_with(data, 0x78, 0x99, 0xec, 0x71) {
            TransactionSendError::InsufficientFeeForAggregator
        } else if starts_with(data, 0x31, 0x02, 0xf1, 0x0c) {
            TransactionSendError::BatchAlreadySubmitted
        } else if starts_with(data, 0x5c, 0x54, 0x30, 0x5e) {
            TransactionSendError::InsufficientFunds
        } else if starts_with(data, 0x15, 0x2b, 0xc2, 0x88) {
            TransactionSendError::OnlyBatcherAllowed
        } else if starts_with(data, 0x4f, 0x77, 0x9c, 0xeb) {
            TransactionSendError::SubmissionInsufficientBalance
        } else {
            let mut m = String::from_str("Unknown bytestring error: 0x");
            let hex = to_hex(data);
            m.append(hex.as_str());
            TransactionSendError::Generic(m)
        }
    }

    /// A human-readable description.
    pub fn message(&self) -> (r: String)
        ensures
            self matches TransactionSendError::Generic(e) ==> r@ == "Generic error: "@ + e@,
            self matches TransactionSendError::BatchAlreadySubmitted ==> r@ == "Batch already submitted"@,
    {
        match self {
            TransactionSendError::NoProofSubmitters => String::from_str("No proof submitter error"),
            TransactionSendError::NoFeePerProof => String::from_str("No fee per proof"),
            TransactionSendError::InsufficientFeeForAggregator => String::from_str(
                "Insufficient fee for aggregator",
            ),
            TransactionSendError::SubmissionInsufficientBalance => String::from_str(
                "Submission insufficient balance",
            ),
            TransactionSendError::BatchAlreadySubmitted => String::from_str("Batch already submitted"),
            TransactionSendError::InsufficientFunds => String::from_str("Insufficient funds"),
            TransactionSendError::OnlyBatcherAllowed => String::from_str("Only batcher allowed"),
            TransactionSendError::Generic(e) => {
                let mut m = String::from_str("Generic error: ");
                m.append(e.as_str());
                m
            },
        }
    }
}

} // verus!
