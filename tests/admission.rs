use aligned_batcher::admission::{is_nonpaying, AdmissionContext, NonPayingConfig};
use aligned_batcher::batch_state::BatchState;
use aligned_batcher::fees::{DEFAULT_MAX_FEE_PER_PROOF, MIN_FEE_PER_PROOF};
use aligned_batcher::messages::{ResponseMessage, ValidityResponseMessage};
use aligned_batcher::types::{Address, NoncedVerificationData, ProvingSystemId, VerificationData};

const CHAIN: u128 = 17000;

fn addr(b: u8) -> Address {
    Address { bytes: [b; 20] }
}

fn request(sender: u8, nonce: u128, max_fee: u128) -> NoncedVerificationData {
    NoncedVerificationData {
        verification_data: VerificationData {
            proving_system: ProvingSystemId::SP1,
            proof: vec![sender, 1, 2, 3],
            pub_input: vec![4, 5],
            verification_key: vec![6],
            proof_generator_addr: addr(sender),
        },
        nonce,
        max_fee,
        chain_id: CHAIN,
        payment_service_addr: addr(0xee),
    }
}

fn ctx(sender: u8, balance: u128, settlement_nonce: Option<u128>, handle: u64) -> AdmissionContext {
    AdmissionContext {
        chain_id: CHAIN,
        max_proof_size: 64,
        pre_verification_enabled: true,
        proof_is_valid: true,
        signer: Some(addr(sender)),
        balance_unlocked: false,
        user_balance: balance,
        settlement_nonce,
        reply_handle: handle,
        encoded_size: 100,
    }
}

fn submit(st: &mut BatchState, sender: u8, nonce: u128, fee: u128, c: AdmissionContext) -> ValidityResponseMessage {
    st.handle_submission(request(sender, nonce, fee), vec![9; 65], c).response
}

#[test]
fn nonce_gap_is_rejected_then_expected_nonce_accepted() {
    let mut st = BatchState::new();
    let big = 1_000 * MIN_FEE_PER_PROOF;
    assert_eq!(submit(&mut st, 1, 2, MIN_FEE_PER_PROOF, ctx(1, big, Some(0), 1)), ValidityResponseMessage::InvalidNonce);
    assert_eq!(st.batch_queue.len(), 0);
    assert_eq!(submit(&mut st, 1, 0, MIN_FEE_PER_PROOF, ctx(1, big, Some(0), 1)), ValidityResponseMessage::Valid);
    assert_eq!(st.batch_queue.len(), 1);
    assert_eq!(st.get_user_state(&addr(1)).unwrap().nonce, 1);
}

#[test]
fn admitted_nonces_are_consecutive_from_settlement_nonce() {
    let mut st = BatchState::new();
    let big = 1_000 * MIN_FEE_PER_PROOF;
    for n in 7..11u128 {
        // the settlement nonce is only read for a sender without a record
        assert_eq!(submit(&mut st, 3, n, MIN_FEE_PER_PROOF, ctx(3, big, Some(7), n as u64)), ValidityResponseMessage::Valid);
        assert_eq!(st.get_user_state(&addr(3)).unwrap().nonce, n + 1);
    }
    assert_eq!(submit(&mut st, 3, 12, MIN_FEE_PER_PROOF, ctx(3, big, Some(7), 0)), ValidityResponseMessage::InvalidNonce);
    let nonces: Vec<u128> = st.batch_queue.entries().iter().map(|e| e.nonced_verification_data.nonce).collect();
    assert_eq!(nonces, vec![7, 8, 9, 10]);
}

#[test]
fn insufficient_balance_on_second_proof() {
    let mut st = BatchState::new();
    let c = ctx(2, MIN_FEE_PER_PROOF, Some(0), 1);
    assert_eq!(submit(&mut st, 2, 0, MIN_FEE_PER_PROOF, c), ValidityResponseMessage::Valid);
    assert_eq!(submit(&mut st, 2, 1, MIN_FEE_PER_PROOF, c), ValidityResponseMessage::InsufficientBalance(addr(2)));
    assert_eq!(st.batch_queue.len(), 1);
    assert_eq!(st.get_user_state(&addr(2)).unwrap().proofs_in_batch, 1);
}

#[test]
fn replacement_raises_fee_once() {
    let mut st = BatchState::new();
    let big = 1_000 * MIN_FEE_PER_PROOF;
    let f100 = 100 * MIN_FEE_PER_PROOF;
    let f150 = 150 * MIN_FEE_PER_PROOF;
    assert_eq!(submit(&mut st, 4, 5, f100, ctx(4, big, Some(5), 10)), ValidityResponseMessage::Valid);
    let r = st.handle_submission(request(4, 5, f150), vec![1; 65], ctx(4, big, None, 11));
    assert_eq!(r.response, ValidityResponseMessage::Valid);
    assert_eq!(r.replaced_handle, Some(10));
    assert_eq!(submit(&mut st, 4, 5, f150, ctx(4, big, None, 12)), ValidityResponseMessage::InvalidReplacementMessage);
    assert_eq!(st.batch_queue.len(), 1);
    let e = &st.batch_queue.entries()[0];
    assert_eq!(e.nonced_verification_data.nonce, 5);
    assert_eq!(e.nonced_verification_data.max_fee, f150);
    assert_eq!(e.reply_handle, 11);
    let u = st.get_user_state(&addr(4)).unwrap();
    assert_eq!(u.last_max_fee_limit, f150);
    assert_eq!(u.total_fees_in_queue, f150);
    assert_eq!(u.nonce, 6);
}

#[test]
fn replacement_of_unknown_nonce_is_invalid_nonce() {
    let mut st = BatchState::new();
    let big = 1_000 * MIN_FEE_PER_PROOF;
    assert_eq!(submit(&mut st, 4, 5, MIN_FEE_PER_PROOF, ctx(4, big, Some(5), 1)), ValidityResponseMessage::Valid);
    assert_eq!(submit(&mut st, 4, 3, 2 * MIN_FEE_PER_PROOF, ctx(4, big, None, 2)), ValidityResponseMessage::InvalidNonce);
}

#[test]
fn replacement_may_not_outpay_lower_nonce() {
    let mut st = BatchState::new();
    let big = 1_000 * MIN_FEE_PER_PROOF;
    assert_eq!(submit(&mut st, 5, 0, 200 * MIN_FEE_PER_PROOF, ctx(5, big, Some(0), 1)), ValidityResponseMessage::Valid);
    assert_eq!(submit(&mut st, 5, 1, 100 * MIN_FEE_PER_PROOF, ctx(5, big, None, 2)), ValidityResponseMessage::Valid);
    assert_eq!(submit(&mut st, 5, 1, 300 * MIN_FEE_PER_PROOF, ctx(5, big, None, 3)), ValidityResponseMessage::InvalidReplacementMessage);
    assert_eq!(submit(&mut st, 5, 1, 150 * MIN_FEE_PER_PROOF, ctx(5, big, None, 4)), ValidityResponseMessage::Valid);
}

#[test]
fn fresh_request_may_not_outpay_queued_ones() {
    let mut st = BatchState::new();
    let big = 1_000 * MIN_FEE_PER_PROOF;
    assert_eq!(submit(&mut st, 6, 0, 200 * MIN_FEE_PER_PROOF, ctx(6, big, Some(0), 1)), ValidityResponseMessage::Valid);
    assert_eq!(submit(&mut st, 6, 1, 100 * MIN_FEE_PER_PROOF, ctx(6, big, None, 2)), ValidityResponseMessage::Valid);
    assert_eq!(submit(&mut st, 6, 2, 300 * MIN_FEE_PER_PROOF, ctx(6, big, None, 3)), ValidityResponseMessage::InvalidMaxFee);
    // within one sender the lower nonce pays at least as much
    let entries = st.batch_queue.entries();
    for a in entries.iter() {
        for b in entries.iter() {
            if a.sender == b.sender && a.nonced_verification_data.nonce < b.nonced_verification_data.nonce {
                assert!(a.nonced_verification_data.max_fee >= b.nonced_verification_data.max_fee);
            }
        }
    }
}

#[test]
fn stateless_checks_in_order() {
    let mut st = BatchState::new();
    let big = 1_000 * MIN_FEE_PER_PROOF;
    let mut c = ctx(7, big, Some(0), 1);
    let mut d = request(7, 0, MIN_FEE_PER_PROOF);
    d.chain_id = 1;
    assert_eq!(st.handle_submission(d, vec![], c).response, ValidityResponseMessage::InvalidChainId);
    c.signer = None;
    assert_eq!(submit(&mut st, 7, 0, MIN_FEE_PER_PROOF, c), ValidityResponseMessage::InvalidSignature);
    c.signer = Some(addr(7));
    c.balance_unlocked = true;
    assert_eq!(submit(&mut st, 7, 0, MIN_FEE_PER_PROOF, c), ValidityResponseMessage::InsufficientBalance(addr(7)));
    c.balance_unlocked = false;
    c.max_proof_size = 3;
    assert_eq!(submit(&mut st, 7, 0, MIN_FEE_PER_PROOF, c), ValidityResponseMessage::ProofTooLarge);
    c.max_proof_size = 4;
    c.proof_is_valid = false;
    assert_eq!(submit(&mut st, 7, 0, MIN_FEE_PER_PROOF, c), ValidityResponseMessage::InvalidProof);
    c.pre_verification_enabled = false;
    assert_eq!(submit(&mut st, 7, 0, MIN_FEE_PER_PROOF - 1, c), ValidityResponseMessage::InvalidMaxFee);
    c.settlement_nonce = None;
    assert_eq!(submit(&mut st, 7, 0, MIN_FEE_PER_PROOF, c), ValidityResponseMessage::InvalidNonce);
    assert_eq!(st.batch_queue.len(), 0);
    assert!(st.get_user_state(&addr(7)).is_none());
}

#[test]
fn get_nonce_prefers_known_sender() {
    let mut st = BatchState::new();
    let big = 1_000 * MIN_FEE_PER_PROOF;
    assert!(matches!(st.handle_get_nonce(&addr(8), Some(3)), ResponseMessage::Nonce(3)));
    assert!(matches!(st.handle_get_nonce(&addr(8), None), ResponseMessage::EthRpcError));
    assert_eq!(submit(&mut st, 8, 3, MIN_FEE_PER_PROOF, ctx(8, big, Some(3), 1)), ValidityResponseMessage::Valid);
    assert!(matches!(st.handle_get_nonce(&addr(8), Some(3)), ResponseMessage::Nonce(4)));
}

#[test]
fn nonpaying_requests_use_the_replacement_account() {
    let config = Some(NonPayingConfig { address: addr(0x50), replacement: addr(0x51) });
    assert!(is_nonpaying(&config, &addr(0x50)));
    assert!(!is_nonpaying(&config, &addr(0x51)));
    assert!(!is_nonpaying(&None, &addr(0x50)));
    let mut st = BatchState::new();
    let big = 1_000 * DEFAULT_MAX_FEE_PER_PROOF;
    let vd = request(0x50, 0, 0).verification_data;
    let c = ctx(0x51, 0, Some(4), 1);
    assert_eq!(
        st.prepare_nonpaying_request(vd.clone(), &addr(0x51), c, addr(0xee)).err(),
        Some(ValidityResponseMessage::InsufficientBalance(addr(0x51)))
    );
    let c = ctx(0x51, big, Some(4), 1);
    let d = st.prepare_nonpaying_request(vd.clone(), &addr(0x51), c, addr(0xee)).unwrap();
    assert_eq!(d.nonce, 4);
    assert_eq!(d.max_fee, DEFAULT_MAX_FEE_PER_PROOF);
    assert_eq!(st.handle_submission(d, vec![], c).response, ValidityResponseMessage::Valid);
    let d2 = st.prepare_nonpaying_request(vd, &addr(0x51), ctx(0x51, big, None, 2), addr(0xee)).unwrap();
    assert_eq!(d2.nonce, 5);
}
