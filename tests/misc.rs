use aligned_batcher::batch_queue::BatcherError;
use aligned_batcher::merkle::MerkleTree;
use aligned_batcher::sdk::ReceiveState;
use aligned_batcher::commitment::commit_request;
use aligned_batcher::errors::TransactionSendError;
use aligned_batcher::messages::{ResponseMessage, ValidityResponseMessage};
use aligned_batcher::mina::{
    check_protocol_state_proof, check_protocol_state_pub, verify_protocol_state_proof_integrity,
};
use aligned_batcher::sdk::{
    get_biggest_nonce, handle_batcher_response, match_batcher_response_with_stored_verification_data,
    process_batcher_response, save_response, validity_error, SubmitError,
};
use aligned_batcher::task_sender::{Network, NetworkArg, NetworkNameArg};
use aligned_batcher::telemetry::{get_full_url, TraceMessageTask};
use aligned_batcher::types::{
    Address, AlignedVerificationData, BatchInclusionData, NoncedVerificationData, ProvingSystemId,
    VerificationData, VerificationDataCommitment,
};

#[test]
fn revert_selectors() {
    let with = |sel: [u8; 4]| TransactionSendError::from_revert_data(&[sel[0], sel[1], sel[2], sel[3], 0xff]);
    assert_eq!(with([0xc4, 0x3a, 0xc2, 0x90]), TransactionSendError::NoProofSubmitters);
    assert_eq!(with([0xa3, 0xa8, 0x65, 0x8a]), TransactionSendError::NoFeePerProof);
    assert_eq!(with([0x78, 0x99, 0xec, 0x71]), TransactionSendError::InsufficientFeeForAggregator);
    assert_eq!(with([0x31, 0x02, 0xf1, 0x0c]), TransactionSendError::BatchAlreadySubmitted);
    assert_eq!(with([0x5c, 0x54, 0x30, 0x5e]), TransactionSendError::InsufficientFunds);
    assert_eq!(with([0x15, 0x2b, 0xc2, 0x88]), TransactionSendError::OnlyBatcherAllowed);
    assert_eq!(with([0x4f, 0x77, 0x9c, 0xeb]), TransactionSendError::SubmissionInsufficientBalance);
    assert_eq!(
        TransactionSendError::from_revert_data(&[0x12, 0xab]),
        TransactionSendError::Generic("Unknown bytestring error: 0x12ab".to_string())
    );
    assert_eq!(
        TransactionSendError::Generic("x".to_string()).message(),
        "Generic error: x"
    );
    assert_eq!(TransactionSendError::BatchAlreadySubmitted.message(), "Batch already submitted");
}

fn protocol_state_pub(fill: u8) -> Vec<u8> {
    let mut v = vec![0u8; 32];
    v.extend(std::iter::repeat(fill).take(2060));
    v.extend(vec![0u8; 32]);
    v.extend(std::iter::repeat(b'A').take(2060));
    v
}

#[test]
fn protocol_state_checks() {
    assert!(check_protocol_state_proof(b"aGVsbG8_").is_ok());
    assert!(check_protocol_state_proof(b"a+b/").is_err());
    assert!(check_protocol_state_proof(&[0xff, 0xfe]).is_err());
    assert!(check_protocol_state_pub(&protocol_state_pub(b'A')).is_ok());
    assert!(check_protocol_state_pub(&protocol_state_pub(b'*')).is_err());
    assert!(check_protocol_state_pub(&[b'A'; 100]).is_err());
    assert!(verify_protocol_state_proof_integrity(b"aGVsbG8_", &protocol_state_pub(b'A')));
    assert!(!verify_protocol_state_proof_integrity(b"a+b/", &protocol_state_pub(b'A')));
}

fn sample_commitment() -> VerificationDataCommitment {
    VerificationDataCommitment {
        proof_commitment: [0x01; 32],
        pub_input_commitment: [0x02; 32],
        proving_system_aux_data_commitment: [0x03; 32],
        proof_generator_addr: [0x04; 20],
    }
}

#[test]
fn saved_response_names_and_json() {
    let mut root = [0u8; 32];
    root[0] = 0xab;
    root[1] = 0xcd;
    root[2] = 0x01;
    root[3] = 0x23;
    root[4] = 0x45;
    let a = AlignedVerificationData {
        verification_data_commitment: sample_commitment(),
        batch_merkle_root: root,
        batch_inclusion_proof: vec![[0x0f; 32], [0xf0; 32]],
        index_in_batch: 42,
    };
    let r = save_response(&a);
    assert_eq!(r.cbor_file_name, "abcd0123_42.cbor");
    assert_eq!(r.json_file_name, "abcd0123_42.json");
    let expected = format!(
        "{{\n  \"batch_merkle_root\": \"{}\",\n  \"merkle_proof\": \"{}{}\",\n  \"program_id_commitment\": \"{}\",\n  \"proof_commitment\": \"{}\",\n  \"proof_generator_addr\": \"{}\",\n  \"pub_input_commitment\": \"{}\",\n  \"verification_data_batch_index\": 42\n}}",
        hex::encode(root),
        "0f".repeat(32),
        "f0".repeat(32),
        "03".repeat(32),
        "01".repeat(32),
        "04".repeat(20),
        "02".repeat(32),
    );
    assert_eq!(r.json, expected);
    let zero = AlignedVerificationData { index_in_batch: 0, batch_inclusion_proof: vec![], ..a };
    assert_eq!(save_response(&zero).cbor_file_name, "abcd0123_0.cbor");
}

fn nonced(nonce: u128, proof: u8) -> NoncedVerificationData {
    NoncedVerificationData {
        verification_data: VerificationData {
            proving_system: ProvingSystemId::Mina,
            proof: vec![proof],
            pub_input: vec![],
            verification_key: vec![],
            proof_generator_addr: Address { bytes: [1; 20] },
        },
        nonce,
        max_fee: 1,
        chain_id: 1,
        payment_service_addr: Address { bytes: [2; 20] },
    }
}

#[test]
fn matching_responses_to_sent_requests() {
    let mut sent: Vec<Result<NoncedVerificationData, SubmitError>> =
        vec![Ok(nonced(2, 20)), Err(SubmitError::InvalidNonce), Ok(nonced(1, 10)), Ok(nonced(0, 0))];
    assert_eq!(get_biggest_nonce(&sent), 2);
    assert_eq!(get_biggest_nonce(&vec![]), 0);
    let data = |n: u128| BatchInclusionData { batch_merkle_root: [0; 32], index_in_batch: 0, merkle_path: vec![], user_nonce: n };
    let c = match_batcher_response_with_stored_verification_data(&data(1), &mut sent).unwrap();
    assert_eq!(c.proof_commitment, commit_request(&nonced(1, 10).verification_data).proof_commitment);
    assert_eq!(sent.len(), 3);
    assert_eq!(
        match_batcher_response_with_stored_verification_data(&data(1), &mut sent).err(),
        Some(SubmitError::InvalidProofInclusionData)
    );
    assert_eq!(sent.len(), 3);
}

#[test]
fn processing_checks_the_path() {
    let c = sample_commitment();
    let leaf = aligned_batcher::commitment::leaf_hash(&c);
    let d = BatchInclusionData { batch_merkle_root: leaf, index_in_batch: 0, merkle_path: vec![], user_nonce: 0 };
    let a = process_batcher_response(&d, &c).unwrap();
    assert_eq!(a.batch_merkle_root, leaf);
    let bad = BatchInclusionData { batch_merkle_root: [0; 32], ..d };
    assert_eq!(process_batcher_response(&bad, &c).err(), Some(SubmitError::InvalidProofInclusionData));
}

#[test]
fn gateway_answers_as_client_errors() {
    assert_eq!(validity_error(ValidityResponseMessage::Valid), None);
    assert_eq!(validity_error(ValidityResponseMessage::InvalidNonce), Some(SubmitError::InvalidNonce));
    assert!(matches!(handle_batcher_response(ResponseMessage::BatchReset), Err(SubmitError::ProofQueueFlushed)));
    match handle_batcher_response(ResponseMessage::CreateNewTaskError("ab".to_string())) {
        Err(SubmitError::BatchSubmissionFailed(m)) => assert_eq!(m, "Could not create task with merkle root ab"),
        _ => panic!("expected a submission failure"),
    }
}

#[test]
fn network_names_and_options() {
    assert_eq!(NetworkNameArg::from_str("holesky-stage"), Ok(NetworkNameArg::HoleskyStage));
    assert_eq!(NetworkNameArg::from_str("devnet"), Ok(NetworkNameArg::Devnet));
    assert!(NetworkNameArg::from_str("moon").is_err());
    let named = NetworkArg {
        network: Some(NetworkNameArg::Mainnet),
        aligned_service_manager_address: None,
        batcher_payment_service_address: None,
        batcher_url: None,
    };
    assert_eq!(named.into_network(), Network::Mainnet);
    let custom = NetworkArg {
        network: Some(NetworkNameArg::Devnet),
        aligned_service_manager_address: Some("m".to_string()),
        batcher_payment_service_address: Some("p".to_string()),
        batcher_url: Some("u".to_string()),
    };
    assert_eq!(custom.into_network(), Network::Custom("m".to_string(), "p".to_string(), "u".to_string()));
}

#[test]
fn telemetry_texts() {
    assert_eq!(get_full_url("http://t", "initBatcherTaskTrace"), "http://t/api/initBatcherTaskTrace");
    assert_eq!(TraceMessageTask::new("ab").merkle_root, "0xab");
}

#[test]
fn burst_nonces_count_up() {
    let items: Vec<VerificationData> = (0..3u8).map(|i| nonced(0, i).verification_data).collect();
    let burst = aligned_batcher::sdk::nonced_burst(&items, 7, 5, Address { bytes: [3; 20] }, 10);
    let nonces: Vec<u128> = burst.iter().map(|d| d.nonce).collect();
    assert_eq!(nonces, vec![10, 11, 12]);
    assert!(burst.iter().all(|d| d.max_fee == 7 && d.chain_id == 5));
    assert_eq!(burst[2].verification_data.proof, vec![2]);
}

#[test]
fn receiving_a_burst() {
    let sent = vec![Ok(nonced(1, 1)), Ok(nonced(0, 0))];
    let comms: Vec<_> = (0..2u8).map(|i| commit_request(&nonced(i as u128, i).verification_data)).collect();
    let leaves: Vec<[u8; 32]> = comms.iter().map(aligned_batcher::commitment::leaf_hash).collect();
    let tree = MerkleTree::build(&leaves);
    let answer = |i: usize| {
        ResponseMessage::BatchInclusionData(BatchInclusionData {
            batch_merkle_root: tree.root(),
            index_in_batch: i,
            merkle_path: tree.path(i),
            user_nonce: i as u128,
        })
    };
    let mut rs = ReceiveState::new(sent);
    assert_eq!(rs.last_proof_nonce, 1);
    assert!(!rs.on_response(answer(0)));
    assert!(rs.on_response(answer(1)));
    assert_eq!(rs.aligned_submitted_data.len(), 2);
    assert!(rs.aligned_submitted_data.iter().all(|r| r.is_ok()));
    assert!(rs.sent_verification_data_rev.is_empty());
    let mut failing = ReceiveState::new(vec![Ok(nonced(0, 0))]);
    assert!(failing.on_response(ResponseMessage::BatchReset));
    assert_eq!(failing.aligned_submitted_data[0].as_ref().err(), Some(&SubmitError::ProofQueueFlushed));
}

#[test]
fn batcher_error_messages() {
    assert_eq!(BatcherError::GasPriceError.message(), "Gas price error");
}
