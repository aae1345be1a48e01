use crate::commitment::{
    commit_request, commitment_of, commitment_view, fold_path_view, leaf_of, verify_proof_inclusion,
};
use crate::hashing::{hex_text, to_hex};
use crate::merkle::hashes_view;
use crate::messages::{ResponseMessage, ValidityResponseMessage};
use crate::types::{
    Address, AlignedVerificationData, BatchInclusionData, NoncedVerificationData, VerificationData,
    VerificationDataCommitment,
};
use vstd::prelude::*;
use vstd::string::StringExecFns;

verus! {

/// Why a submission did not end in a verified inclusion.
#[derive(Clone, Debug, PartialEq, Eq)]
pub enum SubmitError {
    InvalidNonce,
    InvalidSignature,
    InvalidChainId,
    InvalidProof,
    InvalidMaxFee,
    InvalidReplacementMessage,
    AddToBatchError,
    ProofTooLarge,
    InsufficientBalance(Address),
    EthereumProviderError,
    InvalidPaymentServiceAddress(Address, Address),
    InvalidProofInclusionData,
    BatchSubmissionFailed(String),
    UnexpectedBatcherResponse,
    ProofQueueFlushed,
}

/// The error a client reports for the gateway's refusal of a submission.
pub fn validity_error(v: ValidityResponseMessage) -> (r: Option<SubmitError>)
    ensures
        (v == ValidityResponseMessage::Valid) == r.is_none(),
        v == ValidityResponseMessage::InvalidNonce ==> r == Some(SubmitError::InvalidNonce),
        v == ValidityResponseMessage::InvalidMaxFee ==> r == Some(SubmitError::InvalidMaxFee),
        v == ValidityResponseMessage::InvalidReplacementMessage ==> r == Some(SubmitError::InvalidReplacementMessage),
        v matches ValidityResponseMessage::InsufficientBalance(a) ==> r == Some(SubmitError::InsufficientBalance(a)),
{
    match v {
        ValidityResponseMessage::Valid => None,
        ValidityResponseMessage::InvalidNonce => Some(SubmitError::InvalidNonce),
        ValidityResponseMessage::InvalidSignature => Some(SubmitError::InvalidSignature),
        ValidityResponseMessage::InvalidChainId => Some(SubmitError::InvalidChainId),
        ValidityResponseMessage::InvalidProof => Some(SubmitError::InvalidProof),
        ValidityResponseMessage::InvalidMaxFee => Some(SubmitError::InvalidMaxFee),
        ValidityResponseMessage::InvalidReplacementMessage => Some(SubmitError::InvalidReplacementMessage),
        ValidityResponseMessage::AddToBatchError => Some(SubmitError::AddToBatchError),
        ValidityResponseMessage::ProofTooLarge => Some(SubmitError::ProofTooLarge),
        ValidityResponseMessage::InsufficientBalance(a) => Some(SubmitError::InsufficientBalance(a)),
        ValidityResponseMessage::EthRpcError => Some(SubmitError::EthereumProviderError),
        ValidityResponseMessage::InvalidPaymentServiceAddress(got, expected) => Some(
            SubmitError::InvalidPaymentServiceAddress(got, expected),
        ),
    }
}

/// Reads a gateway message that should carry inclusion data.
pub fn handle_batcher_response(msg: ResponseMessage) -> (r: Result<BatchInclusionData, SubmitError>)
    ensures
        r.is_ok() == (msg matches ResponseMessage::BatchInclusionData(_)),
        msg matches ResponseMessage::BatchInclusionData(d) ==> r == Ok::<BatchInclusionData, SubmitError>(d),
        msg matches ResponseMessage::BatchReset ==> r == Err::<BatchInclusionData, SubmitError>(SubmitError::ProofQueueFlushed),
        msg matches ResponseMessage::CreateNewTaskError(root) ==> r matches Err(SubmitError::BatchSubmissionFailed(m))
            && m@ == "Could not create task with merkle root "@ + root@,
        msg matches ResponseMessage::ProtocolVersion(_) ==> r == Err::<BatchInclusionData, SubmitError>(SubmitError::UnexpectedBatcherResponse),
{
    match msg {
        ResponseMessage::BatchInclusionData(d) => Ok(d),
        ResponseMessage::BatchReset => Err(SubmitError::ProofQueueFlushed),
        ResponseMessage::CreateNewTaskError(root) => {
            let mut m = String::from_str("Could not create task with merkle root ");
            m.append(root.as_str());
            Err(SubmitError::BatchSubmissionFailed(m))
        },
        ResponseMessage::ProtocolVersion(_) => Err(SubmitError::UnexpectedBatcherResponse),
        ResponseMessage::Nonce(_) => Err(SubmitError::UnexpectedBatcherResponse),
        ResponseMessage::EthRpcError => Err(SubmitError::EthereumProviderError),
    }
}

/// Whether the sent item at `i` is a request with nonce `n`.
pub open spec fn sent_with_nonce(v: Seq<Result<NoncedVerificationData, SubmitError>>, i: int, n: u128) -> bool {
    v[i] matches Ok(d) && d.nonce == n
}

/// The outcome of matching inclusion data for nonce `n` against the sent
/// requests `v`, which become `v2`: the last request with that nonce is
/// removed and its commitment returned; without one, nothing changes.
pub open spec fn matched(
    v: Seq<Result<NoncedVerificationData, SubmitError>>,
    n: u128,
    v2: Seq<Result<NoncedVerificationData, SubmitError>>,
    r: Result<VerificationDataCommitment, SubmitError>,
) -> bool {
    match r {
        Ok(c) => exists|i: int|
            0 <= i < v.len() && #[trigger] sent_with_nonce(v, i, n)
                && (forall|j: int| i < j < v.len() ==> !#[trigger] sent_with_nonce(v, j, n))
                && v2 == v.remove(i)
                && commitment_view(c) == commitment_of(v[i]->Ok_0.verification_data),
        Err(e) => e == SubmitError::InvalidProofInclusionData
            && (forall|i: int| 0 <= i < v.len() ==> !#[trigger] sent_with_nonce(v, i, n))
            && v2 == v,
    }
}

/// Finds, among the requests sent and not yet answered, the last one with
/// the nonce of the inclusion data, removes it, and returns its commitment.
pub fn match_batcher_response_with_stored_verification_data(
    batch_inclusion_data: &BatchInclusionData,
    sent_verification_data_rev: &mut Vec<Result<NoncedVerificationData, SubmitError>>,
) -> (r: Result<VerificationDataCommitment, SubmitError>)
    ensures
        matched(
            old(sent_verification_data_rev)@,
            batch_inclusion_data.user_nonce,
            final(sent_verification_data_rev)@,
            r,
        ),
{
    let ghost v = sent_verification_data_rev@;
    let n = batch_inclusion_data.user_nonce;
    let idx = last_with_nonce(sent_verification_data_rev, n);
    match idx {
        None => Err(SubmitError::InvalidProofInclusionData),
        Some(i) => {
            let item = sent_verification_data_rev.remove(i);
            assert(item == v[i as int]);
            match item {
                Ok(d) => Ok(commit_request(&d.verification_data)),
                Err(_) => {
                    assert(false);
                    Err(SubmitError::InvalidProofInclusionData)
                },
            }
        },
    }
}

/// The position of the last sent request with nonce `n`.
fn last_with_nonce(v: &Vec<Result<NoncedVerificationData, SubmitError>>, n: u128) -> (r: Option<usize>)
    ensures
        r matches Some(i) ==> i < v@.len() && sent_with_nonce(v@, i as int, n) && forall|j: int|
            i < j < v@.len() ==> !#[trigger] sent_with_nonce(v@, j, n),
        r is None ==> forall|j: int| 0 <= j < v@.len() ==> !#[trigger] sent_with_nonce(v@, j, n),
{
    let mut k: usize = v.len();
    while k > 0
        invariant
            k <= v@.len(),
            forall|j: int| k <= j < v@.len() ==> !#[trigger] sent_with_nonce(v@, j, n),
        decreases k,
    {
        let i = k - 1;
        let hit = match &v[i] {
            Ok(d) => d.nonce == n,
            Err(_) => false,
        };
        if hit {
            return Some(i);
        }
        k = i;
    }
    None
}

/// The largest nonce among the requests sent; zero if none was sent.
pub open spec fn biggest_nonce(v: Seq<Result<NoncedVerificationData, SubmitError>>) -> u128
    decreases v.len(),
{
    if v.len() == 0 {
        0
    } else {
        let m = biggest_nonce(v.drop_last());
        match v.last() {
            Ok(d) => if d.nonce > m {
                d.nonce
            } else {
                m
            },
            Err(_) => m,
        }
    }
}

/// The largest nonce among the requests sent, which tells the last answer to wait for.
pub fn get_biggest_nonce(sent_verification_data: &Vec<Result<NoncedVerificationData, SubmitError>>) -> (r: u128)
    ensures
        r == biggest_nonce(sent_verification_data@),
{
    let mut m: u128 = 0;
    let mut i: usize = 0;
    while i < sent_verification_data.len()
        invariant
            i <= sent_verification_data@.len(),
            m == biggest_nonce(sent_verification_data@.subrange(0, i as int)),
        decreases sent_verification_data@.len() - i,
    {
        assert(sent_verification_data@.subrange(0, i as int + 1).drop_last() =~= sent_verification_data@.subrange(0, i as int));
        match &sent_verification_data[i] {
            Ok(d) => {
                if d.nonce > m {
                    m = d.nonce;
                }
            },
            Err(_) => {},
        }
        i = i + 1;
    }
    assert(sent_verification_data@.subrange(0, i as int) =~= sent_verification_data@);
    m
}

/// Checks the gateway's inclusion data against the commitment of the request
/// sent, and pairs them where the path leads to the announced root.
pub fn process_batcher_response(
    batch_inclusion_data: &BatchInclusionData,
    verification_data_commitment: &VerificationDataCommitment,
) -> (r: Result<AlignedVerificationData, SubmitError>)
    ensures
        r.is_ok() == fold_path_view(*verification_data_commitment, *batch_inclusion_data),
        r matches Ok(a) ==> a.verification_data_commitment == *verification_data_commitment
            && a.batch_merkle_root == batch_inclusion_data.batch_merkle_root
            && a.batch_inclusion_proof@ == batch_inclusion_data.merkle_path@
            && a.index_in_batch == batch_inclusion_data.index_in_batch,
        r matches Err(e) ==> e == SubmitError::InvalidProofInclusionData,
{
    if verify_proof_inclusion(verification_data_commitment, batch_inclusion_data) {
        Ok(
            AlignedVerificationData {
                verification_data_commitment: *verification_data_commitment,
                batch_merkle_root: batch_inclusion_data.batch_merkle_root,
                batch_inclusion_proof: copy_path(&batch_inclusion_data.merkle_path),
                index_in_batch: batch_inclusion_data.index_in_batch,
            },
        )
    } else {
        Err(SubmitError::InvalidProofInclusionData)
    }
}

fn copy_path(v: &Vec<[u8; 32]>) -> (r: Vec<[u8; 32]>)
    ensures
        r@ == v@,
{
    let mut r: Vec<[u8; 32]> = Vec::new();
    let mut i: usize = 0;
    while i < v.len()
        invariant
            i <= v@.len(),
            r@ == v@.subrange(0, i as int),
        decreases v@.len() - i,
    {
        r.push(v[i]);
        i = i + 1;
        assert(r@ =~= v@.subrange(0, i as int));
    }
    assert(r@ =~= v@);
    r
}

/// The requests of a burst: each item with the next nonce, starting at
/// `nonce`, and the same fee, chain and payment service.
pub fn nonced_burst(
    verification_data: &Vec<VerificationData>,
    max_fee: u128,
    chain_id: u128,
    payment_service_addr: Address,
    nonce: u128,
) -> (r: Vec<NoncedVerificationData>)
    requires
        nonce + verification_data@.len() <= u128::MAX,
    ensures
        r@.len() == verification_data@.len(),
        forall|i: int|
            0 <= i < r@.len() ==> {
                let d = #[trigger] r@[i];
                &&& d.nonce == nonce + i
                &&& d.max_fee == max_fee
                &&& d.chain_id == chain_id
                &&& d.payment_service_addr == payment_service_addr
                &&& d.verification_data.proving_system == verification_data@[i].proving_system
                &&& d.verification_data.proof@ == verification_data@[i].proof@
            },
{
    let mut r: Vec<NoncedVerificationData> = Vec::new();
    let mut i: usize = 0;
    let mut n: u128 = nonce;
    while i < verification_data.len()
        invariant
            i <= verification_data@.len(),
            nonce + verification_data@.len() <= u128::MAX,
            n == nonce + i,
            r@.len() == i,
            forall|m: int|
                0 <= m < i ==> {
                    let d = #[trigger] r@[m];
                    &&& d.nonce == nonce + m
                    &&& d.max_fee == max_fee
                    &&& d.chain_id == chain_id
                    &&& d.payment_service_addr == payment_service_addr
                    &&& d.verification_data.proving_system == verification_data@[m].proving_system
                    &&& d.verification_data.proof@ == verification_data@[m].proof@
                },
        decreases verification_data@.len() - i,
    {
        let v = &verification_data[i];
        let item = VerificationData {
            proving_system: v.proving_system,
            proof: copy_bytes(&v.proof),
            pub_input: copy_bytes(&v.pub_input),
            verification_key: copy_bytes(&v.verification_key),
            proof_generator_addr: v.proof_generator_addr,
        };
        r.push(NoncedVerificationData { verification_data: item, nonce: n, max_fee, chain_id, payment_service_addr });
        i = i + 1;
        n = n + 1;
    }
    r
}

fn copy_bytes(v: &Vec<u8>) -> (r: Vec<u8>)
    ensures
        r@ == v@,
{
    let mut r: Vec<u8> = Vec::new();
    r.extend_from_slice(v.as_slice());
    r
}

/// What a client has learnt while reading the answers to a burst.
pub struct ReceiveState {
    /// The requests still waiting for inclusion data.
    pub sent_verification_data_rev: Vec<Result<NoncedVerificationData, SubmitError>>,
    /// One outcome per answer read.
    pub aligned_submitted_data: Vec<Result<AlignedVerificationData, SubmitError>>,
    /// The nonce whose answer ends the burst.
    pub last_proof_nonce: u128,
}

impl ReceiveState {
    pub fn new(sent_verification_data_rev: Vec<Result<NoncedVerificationData, SubmitError>>) -> (r: ReceiveState)
        ensures
            r.sent_verification_data_rev@ == sent_verification_data_rev@,
            r.aligned_submitted_data@.len() == 0,
            r.last_proof_nonce == biggest_nonce(sent_verification_data_rev@),
    {
        let last = get_biggest_nonce(&sent_verification_data_rev);
        ReceiveState { sent_verification_data_rev, aligned_submitted_data: Vec::new(), last_proof_nonce: last }
    }

    /// Takes in one answer of the gateway and says whether reading stops: it
    /// stops at the first error, and after the answer for the last nonce.
    /// Each answer adds exactly one outcome.
    pub fn on_response(&mut self, msg: ResponseMessage) -> (done: bool)
        ensures
            final(self).aligned_submitted_data@.len() == old(self).aligned_submitted_data@.len() + 1,
            final(self).last_proof_nonce == old(self).last_proof_nonce,
            final(self).aligned_submitted_data@.last().is_err() ==> done,
            !(msg matches ResponseMessage::BatchInclusionData(_)) ==> final(self).aligned_submitted_data@.last().is_err(),
            final(self).aligned_submitted_data@.last().is_ok() ==> (msg matches ResponseMessage::BatchInclusionData(d)
                && done == (d.user_nonce == old(self).last_proof_nonce)),
    {
        let data = match handle_batcher_response(msg) {
            Ok(d) => d,
            Err(e) => {
                self.aligned_submitted_data.push(Err(e));
                return true;
            },
        };
        let commitment = match match_batcher_response_with_stored_verification_data(
            &data,
            &mut self.sent_verification_data_rev,
        ) {
            Ok(c) => c,
            Err(e) => {
                self.aligned_submitted_data.push(Err(e));
                return true;
            },
        };
        match process_batcher_response(&data, &commitment) {
            Ok(a) => {
                self.aligned_submitted_data.push(Ok(a));
                data.user_nonce == self.last_proof_nonce
            },
            Err(e) => {
                self.aligned_submitted_data.push(Err(e));
                true
            },
        }
    }
}

/// The decimal digit for a value below ten.
pub open spec fn decimal_digit(n: int) -> char {
    seq!['0', '1', '2', '3', '4', '5', '6', '7', '8', '9'][n]
}

/// The decimal text of a number, without leading zeros.
pub open spec fn decimal_text(n: nat) -> Seq<char>
    decreases n,
{
    if n < 10 {
        seq![decimal_digit(n as int)]
    } else {
        decimal_text(n / 10) + seq![decimal_digit((n % 10) as int)]
    }
}

fn digit_str(d: usize) -> (r: &'static str)
    requires
        d < 10,
    ensures
        r@ == seq![decimal_digit(d as int)],
{
    proof {
        reveal_strlit("0");
        reveal_strlit("1");
        reveal_strlit("2");
        reveal_strlit("3");
        reveal_strlit("4");
        reveal_strlit("5");
        reveal_strlit("6");
        reveal_strlit("7");
        reveal_strlit("8");
        reveal_strlit("9");
    }
    let r = if d == 0 {
        "0"
    } else if d == 1 {
        "1"
    } else if d == 2 {
        "2"
    } else if d == 3 {
        "3"
    } else if d == 4 {
        "4"
    } else if d == 5 {
        "5"
    } else if d == 6 {
        "6"
    } else if d == 7 {
        "7"
    } else if d == 8 {
        "8"
    } else {
        "9"
    };
    assert(r@ =~= seq![decimal_digit(d as int)]);
    r
}

/// Appends the decimal text of `n`.
pub fn append_decimal(s: &mut String, n: usize)
    ensures
        final(s)@ == old(s)@ + decimal_text(n as nat),
    decreases n,
{
    if n >= 10 {
        append_decimal(s, n / 10);
    }
    s.append(digit_str(n % 10));
    assert(final(s)@ =~= old(s)@ + decimal_text(n as nat));
}

/// The hexadecimal text of each hash of a path, in order, joined.
pub open spec fn path_hex(path: Seq<Seq<u8>>) -> Seq<char>
    decreases path.len(),
{
    if path.len() == 0 {
        seq![]
    } else {
        path_hex(path.drop_last()) + hex_text(path.last())
    }
}

/// The two files that record an inclusion: their names and the JSON text.
#[derive(Clone, Debug)]
pub struct SavedResponse {
    pub cbor_file_name: String,
    pub json_file_name: String,
    pub json: String,
}

/// The stem of an inclusion's file names: the first eight hexadecimal digits
/// of the root, an underscore, and the position in the batch.
pub open spec fn response_file_stem(a: AlignedVerificationData) -> Seq<char> {
    hex_text(a.batch_merkle_root@.subrange(0, 4)) + "_"@ + decimal_text(a.index_in_batch as nat)
}

/// The JSON record of an inclusion, keys in alphabetical order, two-space indented.
pub open spec fn response_json(a: AlignedVerificationData) -> Seq<char> {
    let c = a.verification_data_commitment;
    "{\n  \"batch_merkle_root\": \""@ + hex_text(a.batch_merkle_root@)
        + "\",\n  \"merkle_proof\": \""@ + path_hex(hashes_view(a.batch_inclusion_proof@))
        + "\",\n  \"program_id_commitment\": \""@ + hex_text(c.proving_system_aux_data_commitment@)
        + "\",\n  \"proof_commitment\": \""@ + hex_text(c.proof_commitment@)
        + "\",\n  \"proof_generator_addr\": \""@ + hex_text(c.proof_generator_addr@)
        + "\",\n  \"pub_input_commitment\": \""@ + hex_text(c.pub_input_commitment@)
        + "\",\n  \"verification_data_batch_index\": "@ + decimal_text(a.index_in_batch as nat)
        + "\n}"@
}

/// What is saved of an inclusion: the names of its CBOR and JSON files, and
/// the JSON text. The caller writes the files, the CBOR one with the
/// encoding of the whole record.
pub fn save_response(aligned_verification_data: &AlignedVerificationData) -> (r: SavedResponse)
    ensures
        r.cbor_file_name@ == response_file_stem(*aligned_verification_data) + ".cbor"@,
        r.json_file_name@ == response_file_stem(*aligned_verification_data) + ".json"@,
        r.json@ == response_json(*aligned_verification_data),
{
    let a = aligned_verification_data;
    let mut stem = to_hex(&a.batch_merkle_root[0..4]);
    stem.append("_");
    append_decimal(&mut stem, a.index_in_batch);
    let mut cbor_file_name = stem.clone();
    cbor_file_name.append(".cbor");
    let mut json_file_name = stem;
    json_file_name.append(".json");
    let c = &a.verification_data_commitment;
    let mut json = String::from_str("{\n  \"batch_merkle_root\": \"");
    json.append(to_hex(a.batch_merkle_root.as_slice()).as_str());
    json.append("\",\n  \"merkle_proof\": \"");
    let mut i: usize = 0;
    let ghost start = json@;
    let path = &a.batch_inclusion_proof;
    while i < path.len()
        invariant
            i <= path@.len(),
            json@ == start + path_hex(hashes_view(path@.subrange(0, i as int))),
        decreases path@.len() - i,
    {
        json.append(to_hex(path[i].as_slice()).as_str());
        i = i + 1;
        assert(hashes_view(path@.subrange(0, i as int)).drop_last() =~= hashes_view(path@.subrange(0, i as int - 1)));
    }
    assert(path@.subrange(0, i as int) =~= path@);
    json.append("\",\n  \"program_id_commitment\": \"");
    json.append(to_hex(c.proving_system_aux_data_commitment.as_slice()).as_str());
    json.append("\",\n  \"proof_commitment\": \"");
    json.append(to_hex(c.proof_commitment.as_slice()).as_str());
    json.append("\",\n  \"proof_generator_addr\": \"");
    json.append(to_hex(c.proof_generator_addr.as_slice()).as_str());
    json.append("\",\n  \"pub_input_commitment\": \"");
    json.append(to_hex(c.pub_input_commitment.as_slice()).as_str());
    json.append("\",\n  \"verification_data_batch_index\": ");
    append_decimal(&mut json, a.index_in_batch);
    json.append("\n}");
    SavedResponse { cbor_file_name, json_file_name, json }
}

} // verus!
