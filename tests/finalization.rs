use aligned_batcher::admission::AdmissionContext;
use aligned_batcher::batch_queue::BatcherError;
use aligned_batcher::batch_state::BatchState;
use aligned_batcher::commitment::verify_proof_inclusion;
use aligned_batcher::fees::{fee_per_proof, MIN_FEE_PER_PROOF};
use aligned_batcher::finalizer::{is_batch_ready, is_new_block, FinalizedBatch, FinalizerState};
use aligned_batcher::messages::ValidityResponseMessage;
use aligned_batcher::settlement::{next_send_action, Endpoint, SendAction, SendResult};
use aligned_batcher::types::{Address, NoncedVerificationData, ProvingSystemId, VerificationData};

const CHAIN: u128 = 17000;

fn addr(b: u8) -> Address {
    Address { bytes: [b; 20] }
}

fn request(sender: u8, nonce: u128, max_fee: u128) -> NoncedVerificationData {
    NoncedVerificationData {
        verification_data: VerificationData {
            proving_system: ProvingSystemId::Groth16Bn254,
            proof: vec![sender, nonce as u8, 7],
            pub_input: vec![1],
            verification_key: vec![2, 3],
            proof_generator_addr: addr(sender),
        },
        nonce,
        max_fee,
        chain_id: CHAIN,
        payment_service_addr: addr(0xee),
    }
}

fn ctx(sender: u8, handle: u64) -> AdmissionContext {
    AdmissionContext {
        chain_id: CHAIN,
        max_proof_size: 64,
        pre_verification_enabled: false,
        proof_is_valid: false,
        signer: Some(addr(sender)),
        balance_unlocked: false,
        user_balance: 1_000 * MIN_FEE_PER_PROOF,
        settlement_nonce: Some(0),
        reply_handle: handle,
        encoded_size: 100,
    }
}

fn accept(st: &mut BatchState, sender: u8, nonce: u128, fee: u128, handle: u64) {
    let r = st.handle_submission(request(sender, nonce, fee), vec![0; 65], ctx(sender, handle));
    assert_eq!(r.response, ValidityResponseMessage::Valid);
}

#[test]
fn happy_path_two_senders_four_entries() {
    let mut st = BatchState::new();
    let fee = 10 * MIN_FEE_PER_PROOF;
    accept(&mut st, 0xa, 0, fee, 1);
    accept(&mut st, 0xa, 1, fee, 2);
    accept(&mut st, 0xb, 0, fee, 3);
    accept(&mut st, 0xb, 1, fee, 4);
    assert!(is_batch_ready(st.batch_queue.len(), 4, 100, 90, 50, false));
    let gas_price: u128 = 1_000_000;
    assert!(fee_per_proof(4, gas_price).unwrap() < fee);
    let batch = st.take_batch(gas_price, 1_000_000).ok().unwrap();
    assert_eq!(batch.len(), 4);
    assert_eq!(st.batch_queue.len(), 0);
    assert_eq!(st.get_user_state(&addr(0xa)).unwrap().proofs_in_batch, 0);
    assert_eq!(st.get_user_state(&addr(0xa)).unwrap().last_max_fee_limit, u128::MAX);
    let commitments: Vec<_> = batch.iter().map(|e| e.verification_data_commitment).collect();
    let fb = FinalizedBatch::new(batch);
    assert_eq!(fb.padded_leaves.len(), 4);
    let responses = fb.inclusion_responses();
    assert_eq!(responses.len(), 4);
    let mut handles: Vec<u64> = responses.iter().map(|(h, _)| *h).collect();
    handles.sort();
    assert_eq!(handles, vec![1, 2, 3, 4]);
    let mut indexes: Vec<usize> = responses.iter().map(|(_, d)| d.index_in_batch).collect();
    indexes.sort();
    assert_eq!(indexes, vec![0, 1, 2, 3]);
    for (_, d) in responses.iter() {
        assert_eq!(d.batch_merkle_root, fb.root);
        assert!(verify_proof_inclusion(&commitments[d.index_in_batch], d));
    }
    // each sender hears of its nonces in ascending order
    let a_nonces: Vec<u128> = responses
        .iter()
        .filter(|(h, _)| *h == 1 || *h == 2)
        .map(|(_, d)| d.user_nonce)
        .collect();
    assert_eq!(a_nonces, vec![0, 1]);
}

#[test]
fn cost_infeasible_batch_is_deferred() {
    let mut st = BatchState::new();
    accept(&mut st, 0xc, 0, MIN_FEE_PER_PROOF, 1);
    // a single entry never triggers a finalization by itself
    assert!(!is_batch_ready(1, 1, 1_000, 0, 10, false));
    let high: u128 = 2_000_000;
    assert!(fee_per_proof(1, high).unwrap() > MIN_FEE_PER_PROOF);
    assert_eq!(st.take_batch(high, 1_000_000).err(), Some(BatcherError::BatchCostTooHigh));
    assert_eq!(st.batch_queue.len(), 1);
    let batch = st.take_batch(high / 2, 1_000_000).ok().unwrap();
    assert_eq!(batch.len(), 1);
    assert_eq!(st.batch_queue.len(), 0);
}

#[test]
fn batch_takes_highest_fees_and_keeps_the_rest() {
    let mut st = BatchState::new();
    accept(&mut st, 1, 0, 50 * MIN_FEE_PER_PROOF, 1);
    accept(&mut st, 2, 0, 40 * MIN_FEE_PER_PROOF, 2);
    accept(&mut st, 3, 0, MIN_FEE_PER_PROOF, 3);
    // at this gas price the fee per proof of three exceeds the lowest fee,
    // and that of two lies between the fees
    let gas_price: u128 = 10_000_000;
    assert!(fee_per_proof(3, gas_price).unwrap() > MIN_FEE_PER_PROOF);
    let batch = st.take_batch(gas_price, 1_000_000).ok().unwrap();
    let senders: Vec<u8> = batch.iter().map(|e| e.sender.bytes[0]).collect();
    assert_eq!(senders, vec![1, 2]);
    assert_eq!(st.batch_queue.len(), 1);
    assert_eq!(st.get_user_state(&addr(3)).unwrap().proofs_in_batch, 1);
}

#[test]
fn batch_respects_byte_limit() {
    let mut st = BatchState::new();
    accept(&mut st, 1, 0, 50 * MIN_FEE_PER_PROOF, 1);
    accept(&mut st, 2, 0, 50 * MIN_FEE_PER_PROOF, 2);
    accept(&mut st, 3, 0, 50 * MIN_FEE_PER_PROOF, 3);
    // every entry is 100 bytes; only two fit, but the third pays as much as
    // the batch would charge, so no batch qualifies
    assert_eq!(st.take_batch(1, 250).err(), Some(BatcherError::BatchCostTooHigh));
    let batch = st.take_batch(1, 300).ok().unwrap();
    assert_eq!(batch.len(), 3);
}

#[test]
fn settlement_revert_resets_everything() {
    let mut st = BatchState::new();
    accept(&mut st, 0xd, 0, 10 * MIN_FEE_PER_PROOF, 1);
    accept(&mut st, 0xe, 0, 10 * MIN_FEE_PER_PROOF, 2);
    let batch = st.take_batch(1_000_000, 1_000_000).ok().unwrap();
    let fb = FinalizedBatch::new(batch);
    assert_eq!(next_send_action(Endpoint::Primary, SendResult::Reverted), SendAction::StopReverted);
    let mut recipients = fb.failure_recipients();
    recipients.sort();
    assert_eq!(recipients, vec![1, 2]);
    assert_eq!(fb.root_hex().len(), 64);
    st.reset();
    assert_eq!(st.batch_queue.len(), 0);
    assert!(st.user_states.is_empty());
    // the next contact reads the nonce from the contract again
    let r = st.handle_submission(request(0xd, 1, MIN_FEE_PER_PROOF), vec![], AdmissionContext { settlement_nonce: Some(1), ..ctx(0xd, 5) });
    assert_eq!(r.response, ValidityResponseMessage::Valid);
}

#[test]
fn readiness_predicate() {
    assert!(!is_batch_ready(0, 0, 10, 0, 1, false));
    assert!(!is_batch_ready(5, 2, 10, 0, 1, true));
    assert!(is_batch_ready(2, 10, 10, 5, 5, false));
    assert!(!is_batch_ready(2, 10, 9, 5, 5, false));
    assert!(!is_batch_ready(2, 10, u64::MAX, u64::MAX, 5, false));
    assert!(is_new_block(4, 5));
    assert!(!is_new_block(5, 5));
}

#[test]
fn send_actions() {
    assert_eq!(next_send_action(Endpoint::Primary, SendResult::Sent), SendAction::AwaitInclusion);
    assert_eq!(next_send_action(Endpoint::Primary, SendResult::Failed), SendAction::SendToFallback);
    assert_eq!(next_send_action(Endpoint::Fallback, SendResult::Failed), SendAction::StopTransient);
    assert_eq!(next_send_action(Endpoint::Fallback, SendResult::Reverted), SendAction::StopReverted);
}

#[test]
fn finalizer_flag_blocks_overlapping_finalizations() {
    let mut f = FinalizerState::new(100);
    assert!(!f.try_begin(101, 1, 2, 10));
    assert!(!f.posting);
    assert!(f.try_begin(101, 2, 2, 10));
    assert!(f.posting);
    assert!(!f.try_begin(102, 50, 2, 10));
    f.batch_taken(101);
    f.finish();
    assert!(!f.posting);
    assert_eq!(f.last_finalized_block, 101);
    assert!(!f.try_begin(105, 2, 10, 10));
    assert!(f.try_begin(111, 2, 10, 10));
}
