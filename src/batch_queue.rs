use crate::fees::{fee_per_proof_exceeds, fee_per_proof_spec};
use crate::types::{same_address, Address, NoncedVerificationData, VerificationDataCommitment};
use vstd::prelude::*;
use vstd::string::StringExecFns;

verus! {

/// A request waiting in the queue, with what is needed to answer its submitter.
#[derive(Clone, Debug)]
pub struct BatchQueueEntry {
    pub nonced_verification_data: NoncedVerificationData,
    pub verification_data_commitment: VerificationDataCommitment,
    /// Identifies the connection on which the submitter awaits the answer.
    pub reply_handle: u64,
    pub signature: Vec<u8>,
    pub sender: Address,
    /// Length of the request in the batch payload's encoding.
    pub encoded_size: usize,
}

impl BatchQueueEntry {
    pub open spec fn fee(&self) -> u128 {
        self.nonced_verification_data.max_fee
    }

    pub open spec fn nonce(&self) -> u128 {
        self.nonced_verification_data.nonce
    }

    pub open spec fn from(&self) -> Seq<u8> {
        self.sender@
    }
}

/// `a` is served strictly before `b`: a higher fee, or the same fee and a lower nonce.
pub open spec fn strictly_before(a: BatchQueueEntry, b: BatchQueueEntry) -> bool {
    a.fee() > b.fee() || (a.fee() == b.fee() && a.nonce() < b.nonce())
}

/// Whether `a` is served strictly before `b`.
pub fn precedes(a: &BatchQueueEntry, b: &BatchQueueEntry) -> (r: bool)
    ensures
        r == strictly_before(*a, *b),
{
    let fa = a.nonced_verification_data.max_fee;
    let fb = b.nonced_verification_data.max_fee;
    fa > fb || (fa == fb && a.nonced_verification_data.nonce < b.nonced_verification_data.nonce)
}

/// Entries in service order: fees descending, and nonces ascending among equal fees.
pub open spec fn sorted(q: Seq<BatchQueueEntry>) -> bool {
    forall|i: int, j: int| 0 <= i < j < q.len() ==> !strictly_before(#[trigger] q[j], #[trigger] q[i])
}

/// No two entries share a sender and a nonce.
pub open spec fn keys_unique(q: Seq<BatchQueueEntry>) -> bool {
    forall|i: int, j: int|
        0 <= i < q.len() && 0 <= j < q.len() && i != j ==> !(#[trigger] q[i].from() == #[trigger] q[j].from()
            && q[i].nonce() == q[j].nonce())
}

pub open spec fn queue_wf(q: Seq<BatchQueueEntry>) -> bool {
    sorted(q) && keys_unique(q)
}

/// Whether the sender has an entry with this nonce.
pub open spec fn has_key(q: Seq<BatchQueueEntry>, s: Seq<u8>, n: u128) -> bool {
    exists|i: int| 0 <= i < q.len() && #[trigger] q[i].from() == s && q[i].nonce() == n
}

/// The lowest fee among the sender's entries; the largest value where it has none.
pub open spec fn min_fee_of(q: Seq<BatchQueueEntry>, s: Seq<u8>) -> u128
    decreases q.len(),
{
    if q.len() == 0 {
        u128::MAX
    } else {
        let m = min_fee_of(q.drop_last(), s);
        if q.last().from() == s && q.last().fee() < m {
            q.last().fee()
        } else {
            m
        }
    }
}

/// The number of the sender's entries.
pub open spec fn count_of(q: Seq<BatchQueueEntry>, s: Seq<u8>) -> nat
    decreases q.len(),
{
    if q.len() == 0 {
        0
    } else {
        count_of(q.drop_last(), s) + if q.last().from() == s {
            1nat
        } else {
            0nat
        }
    }
}

/// The sum of the sender's fees.
pub open spec fn fees_of(q: Seq<BatchQueueEntry>, s: Seq<u8>) -> int
    decreases q.len(),
{
    if q.len() == 0 {
        0
    } else {
        fees_of(q.drop_last(), s) + if q.last().from() == s {
            q.last().fee() as int
        } else {
            0int
        }
    }
}

/// A sum held in 128 bits: the largest value where it exceeds them.
pub open spec fn capped(v: int) -> u128 {
    if v > u128::MAX {
        u128::MAX
    } else {
        v as u128
    }
}

/// The encoded length of the first `k` entries.
pub open spec fn prefix_size(q: Seq<BatchQueueEntry>, k: int) -> int
    decreases k,
{
    if k <= 0 {
        0
    } else {
        prefix_size(q, k - 1) + q[k - 1].encoded_size
    }
}

/// The first `k` entries form a batch: they fit in `max_bytes`, the fee per
/// proof at `k` proofs is within the lowest `max_fee` among them, and it
/// exceeds the highest `max_fee` of the entries left out.
pub open spec fn batch_ok(q: Seq<BatchQueueEntry>, k: int, gas_price: u128, max_bytes: usize) -> bool {
    &&& 1 <= k <= q.len()
    &&& prefix_size(q, k) <= max_bytes
    &&& forall|i: int| 0 <= i < k ==> fee_per_proof_spec(k as nat, gas_price as int) <= #[trigger] q[i].fee()
    &&& forall|i: int| k <= i < q.len() ==> fee_per_proof_spec(k as nat, gas_price as int) > #[trigger] q[i].fee()
}

/// The size of the batch taken from `q`: the largest `k` with `batch_ok`, or zero.
pub open spec fn best_batch_len(q: Seq<BatchQueueEntry>, k: int, gas_price: u128, max_bytes: usize) -> bool {
    &&& 0 <= k <= q.len()
    &&& k > 0 ==> batch_ok(q, k, gas_price, max_bytes)
    &&& forall|j: int| k < j <= q.len() ==> !#[trigger] batch_ok(q, j, gas_price, max_bytes)
}

/// Prefix sizes grow with the prefix.
proof fn lemma_prefix_size_monotone(q: Seq<BatchQueueEntry>, a: int, b: int)
    requires
        0 <= a <= b <= q.len(),
    ensures
        prefix_size(q, a) <= prefix_size(q, b),
    decreases b - a,
{
    if a < b {
        lemma_prefix_size_monotone(q, a, b - 1);
    }
}

/// In a sorted queue the fee conditions of a prefix reduce to its last entry
/// and to the first entry after it.
proof fn lemma_fee_bounds(q: Seq<BatchQueueEntry>, k: int, gas_price: u128)
    requires
        sorted(q),
        1 <= k <= q.len(),
    ensures
        (forall|i: int| 0 <= i < k ==> fee_per_proof_spec(k as nat, gas_price as int) <= #[trigger] q[i].fee())
            <==> fee_per_proof_spec(k as nat, gas_price as int) <= q[k - 1].fee(),
        k < q.len() ==> ((forall|i: int| k <= i < q.len() ==> fee_per_proof_spec(k as nat, gas_price as int)
            > #[trigger] q[i].fee()) <==> fee_per_proof_spec(k as nat, gas_price as int) > q[k].fee()),
{
    assert forall|i: int| 0 <= i < k - 1 implies #[trigger] q[i].fee() >= q[k - 1].fee() by {
        assert(!strictly_before(q[k - 1], q[i]));
    }
    assert forall|i: int| k < i < q.len() implies #[trigger] q[i].fee() <= q[k].fee() by {
        assert(!strictly_before(q[i], q[k]));
    }
}

/// A contiguous part of a well-formed queue is well formed.
proof fn lemma_subrange_wf(q: Seq<BatchQueueEntry>, a: int, b: int)
    requires
        queue_wf(q),
        0 <= a <= b <= q.len(),
    ensures
        queue_wf(q.subrange(a, b)),
{
    let r = q.subrange(a, b);
    assert forall|i: int, j: int| 0 <= i < j < r.len() implies !strictly_before(#[trigger] r[j], #[trigger] r[i]) by {
        assert(r[i] == q[a + i] && r[j] == q[a + j]);
    }
    assert forall|i: int, j: int|
        0 <= i < r.len() && 0 <= j < r.len() && i != j implies !(#[trigger] r[i].from() == #[trigger] r[j].from()
            && r[i].nonce() == r[j].nonce()) by {
        assert(r[i] == q[a + i] && r[j] == q[a + j]);
    }
}

/// Inserting another sender's entry leaves a sender's count, lowest fee and
/// fee sum unchanged.
pub proof fn lemma_insert_other(q: Seq<BatchQueueEntry>, pos: int, e: BatchQueueEntry, s: Seq<u8>)
    requires
        0 <= pos <= q.len(),
        e.from() != s,
    ensures
        count_of(q.insert(pos, e), s) == count_of(q, s),
        min_fee_of(q.insert(pos, e), s) == min_fee_of(q, s),
        fees_of(q.insert(pos, e), s) == fees_of(q, s),
    decreases q.len(),
{
    let r = q.insert(pos, e);
    if pos == q.len() {
        assert(r.drop_last() =~= q);
    } else {
        assert(r.drop_last() =~= q.drop_last().insert(pos, e));
        assert(r.last() == q.last());
        lemma_insert_other(q.drop_last(), pos, e, s);
    }
}

/// Removing another sender's entry leaves a sender's count, lowest fee and
/// fee sum unchanged.
pub proof fn lemma_remove_other(q: Seq<BatchQueueEntry>, i: int, s: Seq<u8>)
    requires
        0 <= i < q.len(),
        q[i].from() != s,
    ensures
        count_of(q.remove(i), s) == count_of(q, s),
        min_fee_of(q.remove(i), s) == min_fee_of(q, s),
        fees_of(q.remove(i), s) == fees_of(q, s),
    decreases q.len(),
{
    let r = q.remove(i);
    if i == q.len() - 1 {
        assert(r =~= q.drop_last());
    } else {
        assert(r.drop_last() =~= q.drop_last().remove(i));
        assert(r.last() == q.last());
        lemma_remove_other(q.drop_last(), i, s);
    }
}

/// Errors of the batcher's own logic.
#[derive(Clone, Debug, PartialEq, Eq)]
pub enum BatcherError {
    /// No batch can be formed whose members all pay the fee per proof.
    BatchCostTooHigh,
    /// No gas price could be obtained.
    GasPriceError,
    /// A batch was uploaded but its registration failed.
    TransactionSendError,
}

impl BatcherError {
    /// A human-readable description.
    pub fn message(&self) -> (r: String)
        ensures
            *self == BatcherError::GasPriceError ==> r@ == "Gas price error"@,
    {
        match self {
            BatcherError::BatchCostTooHigh => String::from_str(
                "No user in batch willing to pay the fee per proof. Checking again when another block arrives",
            ),
            BatcherError::GasPriceError => String::from_str("Gas price error"),
            BatcherError::TransactionSendError => String::from_str("Error sending tx"),
        }
    }
}

/// The queue of pending requests, kept in service order.
pub struct BatchQueue {
    entries: Vec<BatchQueueEntry>,
}

impl BatchQueue {
    pub closed spec fn view(&self) -> Seq<BatchQueueEntry> {
        self.entries@
    }

    pub open spec fn wf(&self) -> bool {
        queue_wf(self@)
    }

    pub fn new() -> (q: BatchQueue)
        ensures
            q@ == Seq::<BatchQueueEntry>::empty(),
            q.wf(),
    {
        BatchQueue { entries: Vec::new() }
    }

    /// The number of entries.
    pub fn len(&self) -> (r: usize)
        ensures
            r == self@.len(),
    {
        self.entries.len()
    }

    /// The entries in service order.
    pub fn entries(&self) -> (r: &Vec<BatchQueueEntry>)
        ensures
            r@ == self@,
    {
        &self.entries
    }

    /// Removes every entry.
    pub fn clear(&mut self)
        ensures
            final(self)@ == Seq::<BatchQueueEntry>::empty(),
            final(self).wf(),
    {
        self.entries.clear();
    }

    /// The position of the sender's entry with this nonce.
    pub fn find(&self, sender: &Address, nonce: u128) -> (r: Option<usize>)
        requires
            self.wf(),
        ensures
            r.is_none() == !has_key(self@, sender@, nonce),
            r matches Some(i) ==> i < self@.len() && self@[i as int].from() == sender@
                && self@[i as int].nonce() == nonce,
    {
        let mut i: usize = 0;
        while i < self.entries.len()
            invariant
                i <= self@.len(),
                self@ == self.entries@,
                forall|j: int| 0 <= j < i ==> !(#[trigger] self@[j].from() == sender@ && self@[j].nonce() == nonce),
            decreases self@.len() - i,
        {
            let e = &self.entries[i];
            if same_address(&e.sender, sender) && e.nonced_verification_data.nonce == nonce {
                assert(self@[i as int].from() == sender@ && self@[i as int].nonce() == nonce);
                return Some(i);
            }
            i = i + 1;
        }
        None
    }

    /// The sender's entry with this nonce.
    pub fn get_entry(&self, sender: &Address, nonce: u128) -> (r: Option<&BatchQueueEntry>)
        requires
            self.wf(),
        ensures
            r.is_none() == !has_key(self@, sender@, nonce),
            r matches Some(e) ==> self@.contains(*e) && e.from() == sender@ && e.nonce() == nonce,
    {
        match self.find(sender, nonce) {
            Some(i) => Some(&self.entries[i]),
            None => None,
        }
    }

    /// Inserts an entry at its place in service order.
    pub fn push(&mut self, entry: BatchQueueEntry)
        requires
            old(self).wf(),
            !has_key(old(self)@, entry.from(), entry.nonce()),
        ensures
            final(self).wf(),
            exists|pos: int| 0 <= pos <= old(self)@.len() && final(self)@ == old(self)@.insert(pos, entry),
    {
        let n = self.entries.len();
        let mut pos: usize = 0;
        while pos < n && !precedes(&entry, &self.entries[pos])
            invariant
                n == self@.len(),
                self@ == self.entries@,
                pos <= n,
                forall|i: int| 0 <= i < pos ==> !strictly_before(entry, #[trigger] self@[i]),
            decreases n - pos,
        {
            pos = pos + 1;
        }
        let ghost q = self@;
        assert(pos < n ==> strictly_before(entry, q[pos as int]));
        self.entries.insert(pos, entry);
        let ghost r = self.entries@;
        assert(r == q.insert(pos as int, entry));
        assert forall|i: int, j: int| 0 <= i < j < r.len() implies !strictly_before(#[trigger] r[j], #[trigger] r[i]) by {
            if j < pos {
                assert(r[i] == q[i] && r[j] == q[j]);
            } else if j == pos {
                assert(r[i] == q[i]);
            } else if i == pos {
                assert(r[j] == q[j - 1]);
                if j - 1 > pos {
                    assert(!strictly_before(q[j - 1], q[pos as int]));
                }
            } else if i < pos {
                assert(r[i] == q[i] && r[j] == q[j - 1]);
            } else {
                assert(r[i] == q[i - 1] && r[j] == q[j - 1]);
            }
        }
        assert forall|i: int, j: int|
            0 <= i < r.len() && 0 <= j < r.len() && i != j implies !(#[trigger] r[i].from() == #[trigger] r[j].from()
                && r[i].nonce() == r[j].nonce()) by {
            if i != pos && j != pos {
                let qi = if i < pos { i } else { i - 1 };
                let qj = if j < pos { j } else { j - 1 };
                assert(r[i] == q[qi] && r[j] == q[qj]);
            } else if i == pos {
                let qj = if j < pos { j } else { j - 1 };
                assert(r[j] == q[qj]);
            } else {
                let qi = if i < pos { i } else { i - 1 };
                assert(r[i] == q[qi]);
            }
        }
    }

    /// Removes the sender's entry with this nonce and returns it.
    pub fn remove(&mut self, sender: &Address, nonce: u128) -> (r: Option<BatchQueueEntry>)
        requires
            old(self).wf(),
        ensures
            final(self).wf(),
            r.is_none() == !has_key(old(self)@, sender@, nonce),
            r.is_none() ==> final(self)@ == old(self)@,
            r matches Some(e) ==> exists|i: int|
                0 <= i < old(self)@.len() && old(self)@[i] == e && e.from() == sender@ && e.nonce() == nonce
                    && final(self)@ == old(self)@.remove(i),
    {
        match self.find(sender, nonce) {
            None => None,
            Some(i) => {
                let ghost q = self@;
                let e = self.entries.remove(i);
                let ghost r = self.entries@;
                assert(r == q.remove(i as int));
                assert forall|a: int, b: int| 0 <= a < b < r.len() implies !strictly_before(#[trigger] r[b], #[trigger] r[a]) by {
                    let qa = if a < i { a } else { a + 1 };
                    let qb = if b < i { b } else { b + 1 };
                    assert(r[a] == q[qa] && r[b] == q[qb]);
                }
                assert forall|a: int, b: int|
                    0 <= a < r.len() && 0 <= b < r.len() && a != b implies !(#[trigger] r[a].from() == #[trigger] r[b].from()
                        && r[a].nonce() == r[b].nonce()) by {
                    let qa = if a < i { a } else { a + 1 };
                    let qb = if b < i { b } else { b + 1 };
                    assert(r[a] == q[qa] && r[b] == q[qb]);
                }
                Some(e)
            },
        }
    }

    /// The lowest fee among the sender's entries; the largest value where it has none.
    pub fn min_fee_in_queue(&self, sender: &Address) -> (r: u128)
        ensures
            r == min_fee_of(self@, sender@),
    {
        let mut m: u128 = u128::MAX;
        let mut i: usize = 0;
        while i < self.entries.len()
            invariant
                i <= self@.len(),
                self@ == self.entries@,
                m == min_fee_of(self@.subrange(0, i as int), sender@),
            decreases self@.len() - i,
        {
            let e = &self.entries[i];
            assert(self@.subrange(0, i as int + 1).drop_last() =~= self@.subrange(0, i as int));
            if same_address(&e.sender, sender) && e.nonced_verification_data.max_fee < m {
                m = e.nonced_verification_data.max_fee;
            }
            i = i + 1;
        }
        assert(self@.subrange(0, i as int) =~= self@);
        m
    }

    /// The number of the sender's entries and the sum of their fees, the sum
    /// capped at the largest value.
    pub fn count_and_fees(&self, sender: &Address) -> (r: (usize, u128))
        ensures
            r.0 == count_of(self@, sender@),
            r.1 == capped(fees_of(self@, sender@)),
    {
        let mut c: usize = 0;
        let mut f: u128 = 0;
        let mut i: usize = 0;
        while i < self.entries.len()
            invariant
                i <= self@.len(),
                self@ == self.entries@,
                c == count_of(self@.subrange(0, i as int), sender@),
                c <= i,
                f == capped(fees_of(self@.subrange(0, i as int), sender@)),
                fees_of(self@.subrange(0, i as int), sender@) >= 0,
            decreases self@.len() - i,
        {
            let e = &self.entries[i];
            assert(self@.subrange(0, i as int + 1).drop_last() =~= self@.subrange(0, i as int));
            if same_address(&e.sender, sender) {
                c = c + 1;
                f = f.saturating_add(e.nonced_verification_data.max_fee);
            }
            i = i + 1;
        }
        assert(self@.subrange(0, i as int) =~= self@);
        (c, f)
    }

    /// The size of the batch to finalize: the longest front part that fits
    /// `max_bytes`, whose members all pay the fee per proof at its size, and
    /// whose fee per proof exceeds what every entry left out pays; zero where
    /// there is none.
    pub fn batch_len(&self, gas_price: u128, max_bytes: usize) -> (best: usize)
        requires
            self.wf(),
        ensures
            best_batch_len(self@, best as int, gas_price, max_bytes),
    {
        let ghost q = self@;
        let n = self.entries.len();
        let mut best: usize = 0;
        let mut size: u128 = 0;
        let mut k: usize = 0;
        let mut over = false;
        while k < n && !over
            invariant
                q == self.entries@,
                queue_wf(q),
                n == q.len(),
                k <= n,
                best <= k,
                size == prefix_size(q, k as int),
                over ==> size > max_bytes,
                !over ==> size <= max_bytes,
                best > 0 ==> batch_ok(q, best as int, gas_price, max_bytes),
                forall|j: int| best < j <= k ==> !#[trigger] batch_ok(q, j, gas_price, max_bytes),
            decreases n - k,
        {
            size = size + self.entries[k].encoded_size as u128;
            k = k + 1;
            if size > max_bytes as u128 {
                over = true;
                assert(!batch_ok(q, k as int, gas_price, max_bytes));
            } else {
                let within = !fee_per_proof_exceeds(k, gas_price, self.entries[k - 1].nonced_verification_data.max_fee);
                let beyond = k == n || fee_per_proof_exceeds(k, gas_price, self.entries[k].nonced_verification_data.max_fee);
                proof {
                    lemma_fee_bounds(q, k as int, gas_price);
                }
                if within && beyond {
                    best = k;
                }
            }
        }
        proof {
            assert forall|j: int| best < j <= n implies !#[trigger] batch_ok(q, j, gas_price, max_bytes) by {
                if j > k {
                    lemma_prefix_size_monotone(q, k as int, j);
                }
            }
        }
        best
    }

    /// Removes the first `k` entries and returns them in service order.
    pub fn split_front(&mut self, k: usize) -> (front: Vec<BatchQueueEntry>)
        requires
            old(self).wf(),
            k <= old(self)@.len(),
        ensures
            final(self).wf(),
            front@ == old(self)@.subrange(0, k as int),
            final(self)@ == old(self)@.subrange(k as int, old(self)@.len() as int),
    {
        let ghost q = self@;
        let mut front = self.entries.split_off(k);
        std::mem::swap(&mut front, &mut self.entries);
        proof {
            lemma_subrange_wf(q, k as int, q.len() as int);
        }
        front
    }

    /// Splits the queue into the entries that stay and the batch to finalize,
    /// taken from the front as `batch_len` chooses it.
    pub fn try_build_batch(self, gas_price: u128, max_bytes: usize) -> (r: Result<
        (BatchQueue, Vec<BatchQueueEntry>),
        BatcherError,
    >)
        requires
            self.wf(),
        ensures
            match r {
                Ok((remaining, finalized)) => {
                    &&& finalized@.len() > 0
                    &&& best_batch_len(self@, finalized@.len() as int, gas_price, max_bytes)
                    &&& finalized@ == self@.subrange(0, finalized@.len() as int)
                    &&& remaining@ == self@.subrange(finalized@.len() as int, self@.len() as int)
                    &&& remaining.wf()
                },
                Err(e) => e == BatcherError::BatchCostTooHigh && best_batch_len(self@, 0, gas_price, max_bytes),
            },
    {
        let best = self.batch_len(gas_price, max_bytes);
        if best == 0 {
            return Err(BatcherError::BatchCostTooHigh);
        }
        let mut remaining = self;
        let finalized = remaining.split_front(best);
        Ok((remaining, finalized))
    }
}

} // verus!
