use crate::hashing::{bytes_equal, concat_bytes, keccak256, keccak_of};
use crate::merkle::{fold_path, hashes_view};
use crate::types::{
    BatchInclusionData, ProvingSystemId, VerificationData,
    VerificationDataCommitment,
};
use vstd::prelude::*;

verus! {

/// The commitment to a verification key under a proof system: the digest of
/// the key followed by the system's tag byte.
pub open spec fn vk_commitment(vk: Seq<u8>, system: ProvingSystemId) -> Seq<u8> {
    keccak_of(vk + seq![system.tag()])
}

/// The commitment to a request, as the four digests in their fixed order.
pub open spec fn commitment_of(d: VerificationData) -> (Seq<u8>, Seq<u8>, Seq<u8>, Seq<u8>) {
    (
        keccak_of(d.proof@),
        keccak_of(d.pub_input@),
        vk_commitment(d.verification_key@, d.proving_system),
        d.proof_generator_addr@,
    )
}

/// The views of a commitment's four parts.
pub open spec fn commitment_view(c: VerificationDataCommitment) -> (
    Seq<u8>,
    Seq<u8>,
    Seq<u8>,
    Seq<u8>,
) {
    (
        c.proof_commitment@,
        c.pub_input_commitment@,
        c.proving_system_aux_data_commitment@,
        c.proof_generator_addr@,
    )
}

/// The Merkle leaf of a commitment: the digest of its four parts concatenated.
pub open spec fn leaf_of(c: (Seq<u8>, Seq<u8>, Seq<u8>, Seq<u8>)) -> Seq<u8> {
    keccak_of(c.0 + c.1 + c.2 + c.3)
}

/// The commitment to a verification key for the given proof system.
pub fn get_vk_commitment(verification_key_bytes: &[u8], proving_system: ProvingSystemId) -> (r: [u8; 32])
    ensures
        r@ == vk_commitment(verification_key_bytes@, proving_system),
{
    let tag: [u8; 1] = [proving_system.as_byte()];
    let joined = concat_bytes(verification_key_bytes, tag.as_slice());
    assert(tag@ =~= seq![proving_system.tag()]);
    keccak256(joined.as_slice())
}

/// Computes the commitment to a request.
pub fn commit_request(d: &VerificationData) -> (c: VerificationDataCommitment)
    ensures
        commitment_view(c) == commitment_of(*d),
{
    let proof_commitment = keccak256(d.proof.as_slice());
    let pub_input_commitment = keccak256(d.pub_input.as_slice());
    let aux = get_vk_commitment(d.verification_key.as_slice(), d.proving_system);
    VerificationDataCommitment {
        proof_commitment,
        pub_input_commitment,
        proving_system_aux_data_commitment: aux,
        proof_generator_addr: d.proof_generator_addr.bytes,
    }
}

/// The Merkle leaf of a commitment.
pub fn leaf_hash(c: &VerificationDataCommitment) -> (r: [u8; 32])
    ensures
        r@ == leaf_of(commitment_view(*c)),
{
    let ab = concat_bytes(c.proof_commitment.as_slice(), c.pub_input_commitment.as_slice());
    let abc = concat_bytes(ab.as_slice(), c.proving_system_aux_data_commitment.as_slice());
    let abcd = concat_bytes(abc.as_slice(), c.proof_generator_addr.as_slice());
    keccak256(abcd.as_slice())
}

/// Commitments are a function of the request's contents: requests with equal
/// contents have equal commitments, and so equal leaves.
pub proof fn lemma_commitment_deterministic(a: VerificationData, b: VerificationData)
    requires
        a.proof@ == b.proof@,
        a.pub_input@ == b.pub_input@,
        a.verification_key@ == b.verification_key@,
        a.proving_system == b.proving_system,
        a.proof_generator_addr@ == b.proof_generator_addr@,
    ensures
        commitment_of(a) == commitment_of(b),
        leaf_of(commitment_of(a)) == leaf_of(commitment_of(b)),
{
}

/// Whether the inclusion data's path leads from the commitment's leaf to its root.
pub open spec fn fold_path_view(c: VerificationDataCommitment, d: BatchInclusionData) -> bool {
    fold_path(leaf_of(commitment_view(c)), d.index_in_batch as int, hashes_view(d.merkle_path@))
        == d.batch_merkle_root@
}

/// Whether the inclusion data proves that the commitment is a leaf of the batch.
pub fn verify_proof_inclusion(
    verification_data_commitment: &VerificationDataCommitment,
    batch_inclusion_data: &BatchInclusionData,
) -> (r: bool)
    ensures
        r == (fold_path(
            leaf_of(commitment_view(*verification_data_commitment)),
            batch_inclusion_data.index_in_batch as int,
            hashes_view(batch_inclusion_data.merkle_path@),
        ) == batch_inclusion_data.batch_merkle_root@),
{
    let leaf = leaf_hash(verification_data_commitment);
    let path = &batch_inclusion_data.merkle_path;
    let mut node = leaf;
    let mut idx: usize = batch_inclusion_data.index_in_batch;
    let mut k: usize = 0;
    assert(path@.subrange(0, path@.len() as int) =~= path@);
    while k < path.len()
        invariant
            k <= path@.len(),
            fold_path(node@, idx as int, hashes_view(path@.subrange(k as int, path@.len() as int)))
                == fold_path(
                leaf_of(commitment_view(*verification_data_commitment)),
                batch_inclusion_data.index_in_batch as int,
                hashes_view(path@),
            ),
        decreases path@.len() - k,
    {
        let ghost rest = hashes_view(path@.subrange(k as int, path@.len() as int));
        assert(rest.drop_first() =~= hashes_view(
            path@.subrange(k as int + 1, path@.len() as int),
        ));
        let joined = if idx % 2 == 0 {
            concat_bytes(node.as_slice(), path[k].as_slice())
        } else {
            concat_bytes(path[k].as_slice(), node.as_slice())
        };
        node = keccak256(joined.as_slice());
        idx = idx / 2;
        k = k + 1;
    }
    assert(hashes_view(path@.subrange(k as int, path@.len() as int)) =~= Seq::<Seq<u8>>::empty());
    bytes_equal(node.as_slice(), batch_inclusion_data.batch_merkle_root.as_slice())
}

} // verus!
