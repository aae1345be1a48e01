use vstd::prelude::*;

verus! {

/// A 20-byte account address.
#[derive(Clone, Copy, Debug)]
pub struct Address {
    pub bytes: [u8; 20],
}

impl Address {
    /// The address bytes as a sequence.
    pub open spec fn view(&self) -> Seq<u8> {
        self.bytes@
    }
}

impl PartialEq for Address {
    fn eq(&self, other: &Address) -> (r: bool) {
        let mut i: usize = 0;
        while i < 20
            invariant
                i <= 20,
                forall|j: int| 0 <= j < i ==> self.bytes@[j] == other.bytes@[j],
            decreases 20 - i,
        {
            if self.bytes[i] != other.bytes[i] {
                return false;
            }
            i = i + 1;
        }
        assert(self.bytes@ =~= other.bytes@);
        true
    }
}

impl vstd::std_specs::cmp::PartialEqSpecImpl for Address {
    open spec fn obeys_eq_spec() -> bool {
        true
    }

    open spec fn eq_spec(&self, other: &Address) -> bool {
        self.bytes@ == other.bytes@
    }
}

impl Eq for Address {}

/// Whether two addresses hold the same bytes.
pub fn same_address(a: &Address, b: &Address) -> (r: bool)
    ensures
        r == (a@ == b@),
{
    a == b
}

/// The proof systems that a request may name.
#[derive(Clone, Copy, Debug, PartialEq, Eq, Structural)]
pub enum ProvingSystemId {
    GnarkPlonkBls12_381,
    GnarkPlonkBn254,
    Groth16Bn254,
    SP1,
    Halo2KZG,
    Halo2IPA,
    Risc0,
    Mina,
    MinaAccount,
}

impl ProvingSystemId {
    /// The one-byte tag of the proof system.
    pub open spec fn tag(self) -> u8 {
        match self {
            ProvingSystemId::GnarkPlonkBls12_381 => 0,
            ProvingSystemId::GnarkPlonkBn254 => 1,
            ProvingSystemId::Groth16Bn254 => 2,
            ProvingSystemId::SP1 => 3,
            ProvingSystemId::Halo2KZG => 4,
            ProvingSystemId::Halo2IPA => 5,
            ProvingSystemId::Risc0 => 6,
            ProvingSystemId::Mina => 7,
            ProvingSystemId::MinaAccount => 8,
        }
    }

    pub fn as_byte(&self) -> (r: u8)
        ensures
            r == self.tag(),
    {
        match self {
            ProvingSystemId::GnarkPlonkBls12_381 => 0,
            ProvingSystemId::GnarkPlonkBn254 => 1,
            ProvingSystemId::Groth16Bn254 => 2,
            ProvingSystemId::SP1 => 3,
            ProvingSystemId::Halo2KZG => 4,
            ProvingSystemId::Halo2IPA => 5,
            ProvingSystemId::Risc0 => 6,
            ProvingSystemId::Mina => 7,
            ProvingSystemId::MinaAccount => 8,
        }
    }
}

/// A request to verify one proof.
#[derive(Clone, Debug)]
pub struct VerificationData {
    pub proving_system: ProvingSystemId,
    pub proof: Vec<u8>,
    pub pub_input: Vec<u8>,
    pub verification_key: Vec<u8>,
    pub proof_generator_addr: Address,
}

/// A request with the fields that the submitter signs over it.
#[derive(Clone, Debug)]
pub struct NoncedVerificationData {
    pub verification_data: VerificationData,
    pub nonce: u128,
    pub max_fee: u128,
    pub chain_id: u128,
    pub payment_service_addr: Address,
}

/// The four digests that identify a request inside a batch.
#[derive(Clone, Copy, Debug)]
pub struct VerificationDataCommitment {
    pub proof_commitment: [u8; 32],
    pub pub_input_commitment: [u8; 32],
    pub proving_system_aux_data_commitment: [u8; 32],
    pub proof_generator_addr: [u8; 20],
}

/// What a submitter receives once its request is part of a registered batch.
#[derive(Clone, Debug)]
pub struct BatchInclusionData {
    pub batch_merkle_root: [u8; 32],
    pub index_in_batch: usize,
    pub merkle_path: Vec<[u8; 32]>,
    pub user_nonce: u128,
}

/// A request's commitment together with the proof of its inclusion in a batch.
#[derive(Clone, Debug)]
pub struct AlignedVerificationData {
    pub verification_data_commitment: VerificationDataCommitment,
    pub batch_merkle_root: [u8; 32],
    pub batch_inclusion_proof: Vec<[u8; 32]>,
    pub index_in_batch: usize,
}

} // verus!
