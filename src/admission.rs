use crate::batch_queue::{count_of, has_key, min_fee_of, BatchQueueEntry};
use crate::batch_state::{has_user, lemma_absent_sender, BatchState, UserRecord};
use crate::commitment::{commit_request, commitment_of, commitment_view};
use crate::fees::{DEFAULT_MAX_FEE_PER_PROOF, MIN_FEE_PER_PROOF};
use crate::messages::{ResponseMessage, ValidityResponseMessage};
use crate::types::{same_address, Address, NoncedVerificationData, VerificationData};
use vstd::prelude::*;

verus! {

/// What the gateway learnt about a submission before deciding on it: its own
/// settings, and the answers of the signature check, the proof verifier and
/// the settlement contract.
#[derive(Clone, Copy, Debug)]
pub struct AdmissionContext {
    /// The chain the gateway serves.
    pub chain_id: u128,
    /// The largest proof accepted, in bytes.
    pub max_proof_size: usize,
    /// Whether proofs are verified before they are queued.
    pub pre_verification_enabled: bool,
    /// The verifier's verdict on the proof, read where pre-verification is enabled.
    pub proof_is_valid: bool,
    /// The address that signed the message, where the signature recovers one.
    pub signer: Option<Address>,
    /// Whether the signer's deposit is flagged for withdrawal.
    pub balance_unlocked: bool,
    /// The signer's deposit.
    pub user_balance: u128,
    /// The settlement contract's nonce for the signer, where it was fetched.
    pub settlement_nonce: Option<u128>,
    /// The connection the answer and the later inclusion data go to.
    pub reply_handle: u64,
    /// Length of the request in the batch payload's encoding.
    pub encoded_size: usize,
}

/// The decision on a submission.
#[derive(Clone, Debug)]
pub struct Admission {
    pub response: ValidityResponseMessage,
    /// The reply handle of an entry that the submission replaced; it is to be closed.
    pub replaced_handle: Option<u64>,
}

/// The answer of the checks that need no state, in their order: chain,
/// signature, locked deposit, proof size, proof validity, fee floor.
pub open spec fn precheck(d: NoncedVerificationData, ctx: AdmissionContext) -> Option<ValidityResponseMessage> {
    if d.chain_id != ctx.chain_id {
        Some(ValidityResponseMessage::InvalidChainId)
    } else if ctx.signer.is_none() {
        Some(ValidityResponseMessage::InvalidSignature)
    } else if ctx.balance_unlocked {
        Some(ValidityResponseMessage::InsufficientBalance(ctx.signer.unwrap()))
    } else if d.verification_data.proof@.len() > ctx.max_proof_size {
        Some(ValidityResponseMessage::ProofTooLarge)
    } else if ctx.pre_verification_enabled && !ctx.proof_is_valid {
        Some(ValidityResponseMessage::InvalidProof)
    } else if d.max_fee < MIN_FEE_PER_PROOF {
        Some(ValidityResponseMessage::InvalidMaxFee)
    } else {
        None
    }
}

/// The record of sender `s`.
pub open spec fn user_of(u: Seq<UserRecord>, s: Seq<u8>) -> UserRecord {
    u[choose|i: int| 0 <= i < u.len() && #[trigger] u[i].addr@ == s]
}

/// The nonce expected from `s`: its record's, or for a sender without one the
/// settlement contract's, where it was fetched.
pub open spec fn expected_nonce(st: BatchState, s: Seq<u8>, ctx: AdmissionContext) -> Option<u128> {
    if has_user(st.users(), s) {
        Some(user_of(st.users(), s).state.nonce)
    } else {
        ctx.settlement_nonce
    }
}

/// The deposit covers the sender's queued requests and one more at the fee floor.
pub open spec fn balance_suffices(st: BatchState, s: Seq<u8>, ctx: AdmissionContext) -> bool {
    ctx.user_balance >= (count_of(st.queue(), s) + 1) * MIN_FEE_PER_PROOF
}

/// `e` is the queue entry made of the submission.
pub open spec fn is_entry_for(
    e: BatchQueueEntry,
    d: NoncedVerificationData,
    signature: Seq<u8>,
    ctx: AdmissionContext,
) -> bool {
    &&& e.nonced_verification_data == d
    &&& commitment_view(e.verification_data_commitment) == commitment_of(d.verification_data)
    &&& e.signature@ == signature
    &&& ctx.signer == Some(e.sender)
    &&& e.reply_handle == ctx.reply_handle
    &&& e.encoded_size == ctx.encoded_size
}

/// A fresh request: it carries the expected nonce, pays no more than any
/// request the sender has queued, and leaves room for a next nonce.
pub open spec fn fresh_ok(st: BatchState, s: Seq<u8>, d: NoncedVerificationData, ctx: AdmissionContext) -> bool {
    &&& expected_nonce(st, s, ctx) == Some(d.nonce)
    &&& d.max_fee <= min_fee_of(st.queue(), s)
    &&& d.nonce < u128::MAX
}

/// A replacement: the sender has an entry with this nonce, the new fee is
/// higher than that entry's, and no lower nonce of the sender pays less than
/// the new fee.
pub open spec fn replacement_ok(st: BatchState, s: Seq<u8>, d: NoncedVerificationData) -> bool {
    let q = st.queue();
    &&& forall|k: int| 0 <= k < q.len() && #[trigger] q[k].from() == s && q[k].nonce() == d.nonce ==> q[k].fee() < d.max_fee
    &&& !exists|k: int| 0 <= k < q.len() && #[trigger] q[k].from() == s && q[k].nonce() < d.nonce && q[k].fee() < d.max_fee
}

impl BatchState {
    /// Decides on a submitted request, in this order: the checks of
    /// `precheck`; the expected nonce (a sender without a record needs the
    /// settlement contract's); the deposit; then a request with the expected
    /// nonce is queued, one with a lower nonce may replace the queued entry
    /// with that nonce, and one with a higher nonce is refused.
    pub fn handle_submission(
        &mut self,
        data: NoncedVerificationData,
        signature: Vec<u8>,
        ctx: AdmissionContext,
    ) -> (r: Admission)
        requires
            old(self).wf(),
        ensures
            final(self).wf(),
            ({
                let st = *old(self);
                let d = data;
                let s = ctx.signer.unwrap()@;
                if precheck(d, ctx).is_some() {
                    r.response == precheck(d, ctx).unwrap() && *final(self) == st
                } else if expected_nonce(st, s, ctx).is_none() {
                    r.response == ValidityResponseMessage::InvalidNonce && *final(self) == st
                } else if !balance_suffices(st, s, ctx) {
                    r.response == ValidityResponseMessage::InsufficientBalance(ctx.signer.unwrap())
                        && *final(self) == st
                } else if expected_nonce(st, s, ctx).unwrap() < d.nonce {
                    r.response == ValidityResponseMessage::InvalidNonce && *final(self) == st
                } else if expected_nonce(st, s, ctx).unwrap() == d.nonce {
                    if d.max_fee > min_fee_of(st.queue(), s) {
                        r.response == ValidityResponseMessage::InvalidMaxFee && *final(self) == st
                    } else if d.nonce == u128::MAX {
                        r.response == ValidityResponseMessage::InvalidNonce && *final(self) == st
                    } else {
                        &&& fresh_ok(st, s, d, ctx)
                        &&& r.response == ValidityResponseMessage::Valid
                        &&& r.replaced_handle.is_none()
                        &&& exists|pos: int, e: BatchQueueEntry|
                            0 <= pos <= st.queue().len() && is_entry_for(e, d, signature@, ctx)
                                && final(self).queue() == st.queue().insert(pos, e)
                        &&& expected_nonce(*final(self), s, ctx) == Some((d.nonce + 1) as u128)
                    }
                } else if !has_key(st.queue(), s, d.nonce) {
                    r.response == ValidityResponseMessage::InvalidNonce && *final(self) == st
                } else if !replacement_ok(st, s, d) {
                    r.response == ValidityResponseMessage::InvalidReplacementMessage && *final(self) == st
                } else {
                    &&& r.response == ValidityResponseMessage::Valid
                    &&& exists|idx: int, pos: int, e: BatchQueueEntry|
                        0 <= idx < st.queue().len() && st.queue()[idx].from() == s
                            && st.queue()[idx].nonce() == d.nonce
                            && st.queue()[idx].fee() < d.max_fee
                            && r.replaced_handle == Some(st.queue()[idx].reply_handle)
                            && 0 <= pos < st.queue().len()
                            && is_entry_for(e, d, signature@, ctx)
                            && final(self).queue() == st.queue().remove(idx).insert(pos, e)
                    &&& expected_nonce(*final(self), s, ctx) == expected_nonce(st, s, ctx)
                }
            }),
    {
        let reject = |m: ValidityResponseMessage| -> (a: Admission)
            ensures
                a.response == m && a.replaced_handle.is_none(),
        { Admission { response: m, replaced_handle: None } };
        if data.chain_id != ctx.chain_id {
            return reject(ValidityResponseMessage::InvalidChainId);
        }
        let signer = match ctx.signer {
            Some(a) => a,
            None => return reject(ValidityResponseMessage::InvalidSignature),
        };
        if ctx.balance_unlocked {
            return reject(ValidityResponseMessage::InsufficientBalance(signer));
        }
        if data.verification_data.proof.len() > ctx.max_proof_size {
            return reject(ValidityResponseMessage::ProofTooLarge);
        }
        if ctx.pre_verification_enabled && !ctx.proof_is_valid {
            return reject(ValidityResponseMessage::InvalidProof);
        }
        if data.max_fee < MIN_FEE_PER_PROOF {
            return reject(ValidityResponseMessage::InvalidMaxFee);
        }
        let ghost st = *self;
        let ghost s = signer@;
        let found = self.find_user(&signer);
        let (expected, count, min_fee) = match found {
            Some(i) => {
                let rec = self.user_states[i];
                proof {
                    assert(rec.addr@ == s);
                    let j = choose|j: int| 0 <= j < st.users().len() && #[trigger] st.users()[j].addr@ == s;
                    assert(st.users()[j].addr@ == st.users()[i as int].addr@);
                }
                (rec.state.nonce, rec.state.proofs_in_batch, rec.state.last_max_fee_limit)
            },
            None => {
                proof {
                    assert forall|k: int| 0 <= k < st.queue().len() implies #[trigger] st.queue()[k].from() != s by {
                        assert(has_user(st.users(), st.queue()[k].from()));
                    }
                    lemma_absent_sender(st.queue(), s);
                }
                match ctx.settlement_nonce {
                    Some(n) => (n, 0, u128::MAX),
                    None => return reject(ValidityResponseMessage::InvalidNonce),
                }
            },
        };
        assert(expected_nonce(st, s, ctx) == Some(expected));
        assert(count == count_of(st.queue(), s));
        assert(min_fee == min_fee_of(st.queue(), s));
        proof {
            lemma_count_bound(st, s);
        }
        let needed = (count as u128 + 1) * MIN_FEE_PER_PROOF;
        if ctx.user_balance < needed {
            return reject(ValidityResponseMessage::InsufficientBalance(signer));
        }
        if expected < data.nonce {
            return reject(ValidityResponseMessage::InvalidNonce);
        }
        if expected == data.nonce {
            if data.max_fee > min_fee {
                return reject(ValidityResponseMessage::InvalidMaxFee);
            }
            if data.nonce == u128::MAX {
                return reject(ValidityResponseMessage::InvalidNonce);
            }
            let commitment = commit_request(&data.verification_data);
            let entry = BatchQueueEntry {
                nonced_verification_data: data,
                verification_data_commitment: commitment,
                reply_handle: ctx.reply_handle,
                signature,
                sender: signer,
                encoded_size: ctx.encoded_size,
            };
            let i = match found {
                Some(i) => i,
                None => self.add_user(signer, expected),
            };
            let ghost mid = *self;
            assert(mid.users()[i as int].addr@ == s);
            assert(mid.user_at(i as int).nonce == expected);
            assert(mid.user_at(i as int).last_max_fee_limit == min_fee);
            self.add_to_batch(i, entry);
            proof {
                assert(self.users()[i as int].addr@ == s);
                assert(has_user(self.users(), s));
                let j = choose|j: int| 0 <= j < self.users().len() && #[trigger] self.users()[j].addr@ == s;
                if j != i {
                    assert(self.users()[j] == mid.users()[j]);
                    assert(mid.users()[j].addr@ != mid.users()[i as int].addr@);
                }
            }
            return Admission { response: ValidityResponseMessage::Valid, replaced_handle: None };
        }
        let i = match found {
            Some(i) => i,
            None => {
                assert(!has_key(st.queue(), s, data.nonce)) by {
                    if has_key(st.queue(), s, data.nonce) {
                        let k = choose|k: int| 0 <= k < st.queue().len() && #[trigger] st.queue()[k].from() == s && st.queue()[k].nonce() == data.nonce;
                        assert(has_user(st.users(), st.queue()[k].from()));
                    }
                }
                return reject(ValidityResponseMessage::InvalidNonce);
            },
        };
        let old_fee = match self.batch_queue.get_entry(&signer, data.nonce) {
            None => return reject(ValidityResponseMessage::InvalidNonce),
            Some(e) => e.nonced_verification_data.max_fee,
        };
        proof {
            assert forall|k: int| 0 <= k < st.queue().len() && #[trigger] st.queue()[k].from() == s && st.queue()[k].nonce() == data.nonce
                implies st.queue()[k].fee() == old_fee by {
                let k2 = choose|k2: int| 0 <= k2 < st.queue().len() && st.queue()[k2].from() == s && st.queue()[k2].nonce() == data.nonce && st.queue()[k2].fee() == old_fee;
                if k != k2 {
                    assert(st.queue()[k].from() == st.queue()[k2].from());
                }
            }
        }
        if data.max_fee <= old_fee {
            proof {
                let k2 = choose|k2: int| 0 <= k2 < st.queue().len() && st.queue()[k2].from() == s && st.queue()[k2].nonce() == data.nonce;
                assert(st.queue()[k2].from() == s);
            }
            return reject(ValidityResponseMessage::InvalidReplacementMessage);
        }
        if !self.replacement_entry_is_valid(&signer, data.nonce, data.max_fee) {
            return reject(ValidityResponseMessage::InvalidReplacementMessage);
        }
        let commitment = commit_request(&data.verification_data);
        let entry = BatchQueueEntry {
            nonced_verification_data: data,
            verification_data_commitment: commitment,
            reply_handle: ctx.reply_handle,
            signature,
            sender: signer,
            encoded_size: ctx.encoded_size,
        };
        let handle = self.replace_entry(i, entry);
        proof {
            assert(self.users()[i as int].addr == st.users()[i as int].addr);
            assert(self.users()[i as int].addr@ == s);
            assert(has_user(self.users(), s));
            let j = choose|j: int| 0 <= j < self.users().len() && #[trigger] self.users()[j].addr@ == s;
            assert(self.users()[j].addr == st.users()[j].addr);
            let j0 = choose|j0: int| 0 <= j0 < st.users().len() && #[trigger] st.users()[j0].addr@ == s;
            assert(st.users()[j].addr@ == s);
            if j != j0 {
                assert(st.users()[j].addr@ != st.users()[j0].addr@);
            }
        }
        Admission { response: ValidityResponseMessage::Valid, replaced_handle: Some(handle) }
    }
}

impl BatchState {
    /// Answers a question for the next nonce of `addr`: the expected nonce of
    /// a known sender, or else the settlement contract's where it was fetched.
    pub fn handle_get_nonce(&self, addr: &Address, settlement_nonce: Option<u128>) -> (r: ResponseMessage)
        requires
            self.wf(),
        ensures
            has_user(self.users(), addr@) ==> r == ResponseMessage::Nonce(user_of(self.users(), addr@).state.nonce),
            !has_user(self.users(), addr@) ==> r == match settlement_nonce {
                Some(n) => ResponseMessage::Nonce(n),
                None => ResponseMessage::EthRpcError,
            },
    {
        match self.find_user(addr) {
            Some(i) => {
                proof {
                    let j = choose|j: int| 0 <= j < self.users().len() && #[trigger] self.users()[j].addr@ == addr@;
                    assert(self.users()[j].addr@ == self.users()[i as int].addr@);
                }
                ResponseMessage::Nonce(self.user_states[i].state.nonce)
            },
            None => match settlement_nonce {
                Some(n) => ResponseMessage::Nonce(n),
                None => ResponseMessage::EthRpcError,
            },
        }
    }
}

/// Settings of the sender whose requests are paid for by a replacement account.
#[derive(Clone, Copy, Debug)]
pub struct NonPayingConfig {
    /// The sender that does not pay.
    pub address: Address,
    /// The account that signs and pays in its place.
    pub replacement: Address,
}

/// Whether `addr` is the configured non-paying sender.
pub fn is_nonpaying(config: &Option<NonPayingConfig>, addr: &Address) -> (r: bool)
    ensures
        r == (config matches Some(c) && c.address@ == addr@),
{
    match config {
        Some(c) => same_address(&c.address, addr),
        None => false,
    }
}

impl BatchState {
    /// Turns a request of the non-paying sender into one of the replacement
    /// account, for that account to sign and submit: the proof must fit, the
    /// account must hold a deposit, the proof must pass pre-verification
    /// where enabled, and the account's expected nonce must be known. The
    /// request pays the default fee.
    pub fn prepare_nonpaying_request(
        &self,
        verification_data: VerificationData,
        replacement: &Address,
        ctx: AdmissionContext,
        payment_service_addr: Address,
    ) -> (r: Result<NoncedVerificationData, ValidityResponseMessage>)
        requires
            self.wf(),
        ensures
            verification_data.proof@.len() > ctx.max_proof_size ==> r == Err::<NoncedVerificationData, ValidityResponseMessage>(
                ValidityResponseMessage::ProofTooLarge,
            ),
            verification_data.proof@.len() <= ctx.max_proof_size && ctx.user_balance == 0 ==> r == Err::<
                NoncedVerificationData,
                ValidityResponseMessage,
            >(ValidityResponseMessage::InsufficientBalance(*replacement)),
            verification_data.proof@.len() <= ctx.max_proof_size && ctx.user_balance != 0
                && ctx.pre_verification_enabled && !ctx.proof_is_valid ==> r == Err::<
                NoncedVerificationData,
                ValidityResponseMessage,
            >(ValidityResponseMessage::InvalidProof),
            r.is_ok() == (verification_data.proof@.len() <= ctx.max_proof_size && ctx.user_balance != 0
                && !(ctx.pre_verification_enabled && !ctx.proof_is_valid) && expected_nonce(
                *self,
                replacement@,
                ctx,
            ).is_some()),
            r matches Ok(d) ==> {
                &&& d.verification_data == verification_data
                &&& Some(d.nonce) == expected_nonce(*self, replacement@, ctx)
                &&& d.max_fee == DEFAULT_MAX_FEE_PER_PROOF
                &&& d.chain_id == ctx.chain_id
                &&& d.payment_service_addr == payment_service_addr
            },
    {
        if verification_data.proof.len() > ctx.max_proof_size {
            return Err(ValidityResponseMessage::ProofTooLarge);
        }
        if ctx.user_balance == 0 {
            return Err(ValidityResponseMessage::InsufficientBalance(*replacement));
        }
        if ctx.pre_verification_enabled && !ctx.proof_is_valid {
            return Err(ValidityResponseMessage::InvalidProof);
        }
        let nonce = match self.find_user(replacement) {
            Some(i) => {
                proof {
                    let j = choose|j: int| 0 <= j < self.users().len() && #[trigger] self.users()[j].addr@ == replacement@;
                    assert(self.users()[j].addr@ == self.users()[i as int].addr@);
                }
                self.user_states[i].state.nonce
            },
            None => match ctx.settlement_nonce {
                Some(n) => n,
                None => return Err(ValidityResponseMessage::InvalidNonce),
            },
        };
        Ok(
            NoncedVerificationData {
                verification_data,
                nonce,
                max_fee: DEFAULT_MAX_FEE_PER_PROOF,
                chain_id: ctx.chain_id,
                payment_service_addr,
            },
        )
    }
}

/// In every consistent state, a sender's queued requests pay no more as
/// their nonces rise: of two entries of one sender, the one with the lower
/// nonce has the higher or equal `max_fee`.
pub proof fn lemma_fees_do_not_rise_with_nonce(st: BatchState, a: int, b: int)
    requires
        st.wf(),
        0 <= a < st.queue().len(),
        0 <= b < st.queue().len(),
        st.queue()[a].from() == st.queue()[b].from(),
        st.queue()[a].nonce() < st.queue()[b].nonce(),
    ensures
        st.queue()[a].fee() >= st.queue()[b].fee(),
{
}

/// A sender's count is bounded by the queue length.
proof fn lemma_count_bound(st: BatchState, s: Seq<u8>)
    ensures
        count_of(st.queue(), s) <= st.queue().len(),
{
    lemma_count_le_len(st.queue(), s);
}

proof fn lemma_count_le_len(q: Seq<BatchQueueEntry>, s: Seq<u8>)
    ensures
        count_of(q, s) <= q.len(),
    decreases q.len(),
{
    if q.len() > 0 {
        lemma_count_le_len(q.drop_last(), s);
    }
}

} // verus!
