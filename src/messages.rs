use crate::types::{Address, BatchInclusionData, NoncedVerificationData};
use vstd::prelude::*;

verus! {

/// The version of the wire protocol that the gateway speaks.
pub const EXPECTED_PROTOCOL_VERSION: u16 = 4;

/// What a client sends.
#[derive(Clone, Debug)]
pub enum ClientMessage {
    /// A signed request to verify a proof.
    SubmitProof { verification_data: NoncedVerificationData, signature: Vec<u8> },
    /// A question for the next nonce the gateway expects from an address.
    GetNonceForAddress(Address),
}

/// The answer to a submitted request.
#[derive(Clone, Debug, PartialEq, Eq)]
pub enum ValidityResponseMessage {
    Valid,
    InvalidNonce,
    InvalidSignature,
    InvalidChainId,
    InvalidProof,
    InvalidMaxFee,
    InvalidReplacementMessage,
    AddToBatchError,
    ProofTooLarge,
    InsufficientBalance(Address),
    EthRpcError,
    InvalidPaymentServiceAddress(Address, Address),
}

/// Messages the gateway sends besides the answers to submissions.
#[derive(Clone, Debug)]
pub enum ResponseMessage {
    /// Sent once, first, on every connection.
    ProtocolVersion(u16),
    /// The request was included in a registered batch.
    BatchInclusionData(BatchInclusionData),
    /// Registering the batch with this root (in hexadecimal) failed.
    CreateNewTaskError(String),
    /// The queue was emptied; the request was dropped.
    BatchReset,
    /// The next nonce the gateway expects from the address asked about.
    Nonce(u128),
    /// The nonce could not be obtained.
    EthRpcError,
}

} // verus!
