use crate::batch_queue::{
    best_batch_len, BatcherError, capped, count_of, fees_of, has_key, lemma_insert_other, lemma_remove_other, min_fee_of,
    BatchQueue, BatchQueueEntry,
};
use crate::types::{same_address, Address};
use vstd::prelude::*;

verus! {

/// What the gateway keeps per sender.
#[derive(Clone, Copy, Debug)]
pub struct UserState {
    /// The next nonce the sender must use.
    pub nonce: u128,
    /// The lowest `max_fee` among the sender's queued requests; the largest value if none.
    pub last_max_fee_limit: u128,
    /// The sum of the sender's queued `max_fee`s, capped at the largest value.
    pub total_fees_in_queue: u128,
    /// How many of the sender's requests are queued.
    pub proofs_in_batch: usize,
}

impl UserState {
    pub fn new(nonce: u128) -> (r: UserState)
        ensures
            r.nonce == nonce,
            r.last_max_fee_limit == u128::MAX,
            r.total_fees_in_queue == 0,
            r.proofs_in_batch == 0,
    {
        UserState { nonce, last_max_fee_limit: u128::MAX, total_fees_in_queue: 0, proofs_in_batch: 0 }
    }
}

/// A sender and its state.
#[derive(Clone, Copy, Debug)]
pub struct UserRecord {
    pub addr: Address,
    pub state: UserState,
}

/// The counters of a record agree with the sender's queued entries.
pub open spec fn record_matches(q: Seq<BatchQueueEntry>, r: UserRecord) -> bool {
    &&& r.state.proofs_in_batch == count_of(q, r.addr@)
    &&& r.state.last_max_fee_limit == min_fee_of(q, r.addr@)
    &&& r.state.total_fees_in_queue == capped(fees_of(q, r.addr@))
}

/// Whether the sender has a record.
pub open spec fn has_user(u: Seq<UserRecord>, s: Seq<u8>) -> bool {
    exists|i: int| 0 <= i < u.len() && #[trigger] u[i].addr@ == s
}

/// Within one sender, a lower nonce never pays less than a higher one.
pub open spec fn fees_follow_nonces(q: Seq<BatchQueueEntry>) -> bool {
    forall|a: int, b: int|
        0 <= a < q.len() && 0 <= b < q.len() && #[trigger] q[a].from() == #[trigger] q[b].from()
            && q[a].nonce() < q[b].nonce() ==> q[a].fee() >= q[b].fee()
}

/// The records agree with the queue: one record per sender, counters that
/// match the sender's entries, a record for every queued sender, queued nonces
/// below the sender's next nonce, and fees that do not rise with the nonce.
pub open spec fn tables_wf(q: Seq<BatchQueueEntry>, u: Seq<UserRecord>) -> bool {
    &&& forall|i: int, j: int| 0 <= i < u.len() && 0 <= j < u.len() && i != j ==> #[trigger] u[i].addr@ != #[trigger] u[j].addr@
    &&& forall|i: int| 0 <= i < u.len() ==> record_matches(q, #[trigger] u[i])
    &&& forall|k: int| 0 <= k < q.len() ==> has_user(u, #[trigger] q[k].from())
    &&& forall|i: int, k: int|
        0 <= i < u.len() && 0 <= k < q.len() && #[trigger] u[i].addr@ == #[trigger] q[k].from()
            ==> q[k].nonce() < u[i].state.nonce
    &&& fees_follow_nonces(q)
}

/// The queue and the per-sender records.
pub struct BatchState {
    pub batch_queue: BatchQueue,
    pub user_states: Vec<UserRecord>,
}

impl BatchState {
    pub open spec fn queue(&self) -> Seq<BatchQueueEntry> {
        self.batch_queue@
    }

    pub open spec fn users(&self) -> Seq<UserRecord> {
        self.user_states@
    }

    /// The state of the sender whose record is at `i`.
    pub open spec fn user_at(&self, i: int) -> UserState {
        self.users()[i].state
    }

    pub open spec fn wf(&self) -> bool {
        self.batch_queue.wf() && tables_wf(self.queue(), self.users())
    }

    pub fn new() -> (r: BatchState)
        ensures
            r.wf(),
            r.queue().len() == 0,
            r.users().len() == 0,
    {
        BatchState { batch_queue: BatchQueue::new(), user_states: Vec::new() }
    }

    /// Empties the queue and forgets every sender.
    pub fn reset(&mut self)
        ensures
            final(self).wf(),
            final(self).queue().len() == 0,
            final(self).users().len() == 0,
    {
        self.batch_queue.clear();
        self.user_states.clear();
    }

    /// The position of the sender's record.
    pub fn find_user(&self, addr: &Address) -> (r: Option<usize>)
        ensures
            r.is_none() == !has_user(self.users(), addr@),
            r matches Some(i) ==> i < self.users().len() && self.users()[i as int].addr@ == addr@,
    {
        let mut i: usize = 0;
        while i < self.user_states.len()
            invariant
                i <= self.users().len(),
                forall|j: int| 0 <= j < i ==> #[trigger] self.users()[j].addr@ != addr@,
            decreases self.users().len() - i,
        {
            if same_address(&self.user_states[i].addr, addr) {
                return Some(i);
            }
            i = i + 1;
        }
        None
    }

    /// The sender's state, if it has one.
    pub fn get_user_state(&self, addr: &Address) -> (r: Option<UserState>)
        ensures
            r.is_none() == !has_user(self.users(), addr@),
            r matches Some(st) ==> exists|i: int|
                0 <= i < self.users().len() && self.users()[i].addr@ == addr@ && self.users()[i].state == st,
    {
        match self.find_user(addr) {
            Some(i) => Some(self.user_states[i].state),
            None => None,
        }
    }

    /// The lowest fee among the sender's queued entries.
    pub fn get_user_min_fee_in_batch(&self, addr: &Address) -> (r: u128)
        ensures
            r == min_fee_of(self.queue(), addr@),
    {
        self.batch_queue.min_fee_in_queue(addr)
    }

    /// Whether raising the fee of the sender's entry `nonce` to `new_fee` keeps
    /// lower nonces paying at least as much: no entry of the sender with a
    /// lower nonce has a lower fee.
    pub fn replacement_entry_is_valid(&self, sender: &Address, nonce: u128, new_fee: u128) -> (r: bool)
        ensures
            r == !exists|k: int|
                0 <= k < self.queue().len() && #[trigger] self.queue()[k].from() == sender@
                    && self.queue()[k].nonce() < nonce && self.queue()[k].fee() < new_fee,
    {
        let entries = self.batch_queue.entries();
        let mut i: usize = 0;
        while i < entries.len()
            invariant
                entries@ == self.queue(),
                i <= entries@.len(),
                forall|k: int|
                    0 <= k < i ==> !(#[trigger] entries@[k].from() == sender@ && entries@[k].nonce() < nonce
                        && entries@[k].fee() < new_fee),
            decreases entries@.len() - i,
        {
            let e = &entries[i];
            if same_address(&e.sender, sender) && e.nonced_verification_data.nonce < nonce
                && e.nonced_verification_data.max_fee < new_fee {
                assert(entries@[i as int].from() == sender@);
                return false;
            }
            i = i + 1;
        }
        true
    }

    /// Recomputes the counters of the record at `i` from the queue.
    fn refresh_user(&mut self, i: usize)
        requires
            i < old(self).users().len(),
        ensures
            final(self).batch_queue == old(self).batch_queue,
            final(self).users().len() == old(self).users().len(),
            final(self).users()[i as int].addr == old(self).users()[i as int].addr,
            final(self).users()[i as int].state.nonce == old(self).users()[i as int].state.nonce,
            record_matches(final(self).queue(), final(self).users()[i as int]),
            forall|j: int| 0 <= j < old(self).users().len() && j != i ==> #[trigger] final(self).users()[j] == old(self).users()[j],
    {
        let addr = self.user_states[i].addr;
        let min_fee = self.batch_queue.min_fee_in_queue(&addr);
        let (count, total) = self.batch_queue.count_and_fees(&addr);
        let mut rec = self.user_states[i];
        rec.state.last_max_fee_limit = min_fee;
        rec.state.proofs_in_batch = count;
        rec.state.total_fees_in_queue = total;
        self.user_states.set(i, rec);
    }

    /// Adds a record for a sender seen for the first time, with the nonce that
    /// the settlement contract holds for it.
    pub fn add_user(&mut self, addr: Address, nonce: u128) -> (i: usize)
        requires
            old(self).wf(),
            !has_user(old(self).users(), addr@),
        ensures
            final(self).wf(),
            final(self).queue() == old(self).queue(),
            final(self).users() == old(self).users().push(UserRecord { addr, state: UserState::new_spec(nonce) }),
            i == old(self).users().len(),
    {
        let ghost q = self.queue();
        assert forall|k: int| 0 <= k < q.len() implies #[trigger] q[k].from() != addr@ by {
            assert(has_user(self.users(), q[k].from()));
        }
        proof {
            lemma_absent_sender(q, addr@);
        }
        let i = self.user_states.len();
        self.user_states.push(UserRecord { addr, state: UserState::new(nonce) });
        let ghost u = self.users();
        assert forall|k: int| 0 <= k < q.len() implies has_user(u, #[trigger] q[k].from()) by {
            let j = choose|j: int| 0 <= j < old(self).users().len() && #[trigger] old(self).users()[j].addr@ == q[k].from();
            assert(u[j] == old(self).users()[j]);
        }
        i
    }

    /// Queues a fresh request of the sender whose record is at `i`, which
    /// carries the sender's expected nonce and a fee no higher than any it
    /// has queued; the expected nonce moves one step on.
    pub fn add_to_batch(&mut self, i: usize, entry: BatchQueueEntry)
        requires
            old(self).wf(),
            i < old(self).users().len(),
            entry.from() == old(self).users()[i as int].addr@,
            entry.nonce() == old(self).user_at(i as int).nonce,
            entry.nonce() < u128::MAX,
            entry.fee() <= old(self).user_at(i as int).last_max_fee_limit,
        ensures
            final(self).wf(),
            exists|pos: int| 0 <= pos <= old(self).queue().len() && final(self).queue() == old(self).queue().insert(pos, entry),
            final(self).users().len() == old(self).users().len(),
            final(self).user_at(i as int).nonce == entry.nonce() + 1,
            final(self).users()[i as int].addr == old(self).users()[i as int].addr,
            forall|j: int| 0 <= j < old(self).users().len() && j != i ==> #[trigger] final(self).users()[j] == old(self).users()[j],
    {
        let ghost q = self.queue();
        let ghost u = self.users();
        let ghost s = entry.from();
        proof {
            assert(!has_key(q, s, entry.nonce())) by {
                if has_key(q, s, entry.nonce()) {
                    let k = choose|k: int| 0 <= k < q.len() && #[trigger] q[k].from() == s && q[k].nonce() == entry.nonce();
                    assert(u[i as int].addr@ == q[k].from());
                }
            }
        }
        self.batch_queue.push(entry);
        let ghost q2 = self.queue();
        let ghost pos = choose|pos: int| 0 <= pos <= q.len() && q2 == q.insert(pos, entry);
        let mut rec = self.user_states[i];
        rec.state.nonce = rec.state.nonce + 1;
        self.user_states.set(i, rec);
        self.refresh_user(i);
        let ghost u2 = self.users();
        proof {
            assert forall|j: int| 0 <= j < u2.len() implies record_matches(q2, #[trigger] u2[j]) by {
                if j != i {
                    assert(u2[j] == u[j]);
                    assert(u[j].addr@ != s);
                    lemma_insert_other(q, pos, entry, u[j].addr@);
                }
            }
            assert forall|k: int| 0 <= k < q2.len() implies has_user(u2, #[trigger] q2[k].from()) by {
                if k == pos {
                    assert(u2[i as int].addr@ == s);
                } else {
                    let kk = if k < pos { k } else { k - 1 };
                    assert(q2[k] == q[kk]);
                    let j = choose|j: int| 0 <= j < u.len() && #[trigger] u[j].addr@ == q[kk].from();
                    assert(u2[j].addr == u[j].addr);
                }
            }
            assert forall|j: int, k: int|
                0 <= j < u2.len() && 0 <= k < q2.len() && #[trigger] u2[j].addr@ == #[trigger] q2[k].from()
                    implies q2[k].nonce() < u2[j].state.nonce by {
                if k != pos {
                    let kk = if k < pos { k } else { k - 1 };
                    assert(q2[k] == q[kk]);
                    assert(u2[j].addr == u[j].addr);
                    assert(q[kk].nonce() < u[j].state.nonce);
                } else {
                    if j != i {
                        assert(u2[j] == u[j]);
                    }
                }
            }
            assert forall|a: int, b: int|
                0 <= a < q2.len() && 0 <= b < q2.len() && #[trigger] q2[a].from() == #[trigger] q2[b].from()
                    && q2[a].nonce() < q2[b].nonce() implies q2[a].fee() >= q2[b].fee() by {
                let aa = if a < pos { a } else { a - 1 };
                let bb = if b < pos { b } else { b - 1 };
                if a == pos {
                    assert(q2[b] == q[bb]);
                    assert(u[i as int].addr@ == q[bb].from());
                    assert(q[bb].nonce() < u[i as int].state.nonce);
                } else if b == pos {
                    assert(q2[a] == q[aa]);
                    lemma_min_fee_le(q, aa, s);
                } else {
                    assert(q2[a] == q[aa] && q2[b] == q[bb]);
                }
            }
        }
    }
}


impl BatchState {
    /// Puts `entry` in place of the sender's queued entry with the same
    /// nonce, which pays less, where no lower nonce of the sender pays less
    /// than `entry`. Returns the reply handle of the entry it replaced.
    pub fn replace_entry(&mut self, i: usize, entry: BatchQueueEntry) -> (old_handle: u64)
        requires
            old(self).wf(),
            i < old(self).users().len(),
            entry.from() == old(self).users()[i as int].addr@,
            has_key(old(self).queue(), entry.from(), entry.nonce()),
            forall|k: int|
                0 <= k < old(self).queue().len() && #[trigger] old(self).queue()[k].from() == entry.from()
                    && old(self).queue()[k].nonce() == entry.nonce() ==> old(self).queue()[k].fee() < entry.fee(),
            !exists|k: int|
                0 <= k < old(self).queue().len() && #[trigger] old(self).queue()[k].from() == entry.from()
                    && old(self).queue()[k].nonce() < entry.nonce() && old(self).queue()[k].fee() < entry.fee(),
        ensures
            final(self).wf(),
            exists|idx: int, pos: int|
                0 <= idx < old(self).queue().len() && old(self).queue()[idx].from() == entry.from()
                    && old(self).queue()[idx].nonce() == entry.nonce()
                    && old(self).queue()[idx].reply_handle == old_handle
                    && old(self).queue()[idx].fee() < entry.fee()
                    && 0 <= pos <= old(self).queue().len() - 1
                    && final(self).queue() == old(self).queue().remove(idx).insert(pos, entry),
            final(self).users().len() == old(self).users().len(),
            forall|j: int| 0 <= j < old(self).users().len() ==> #[trigger] final(self).users()[j].addr == old(self).users()[j].addr
                && final(self).users()[j].state.nonce == old(self).users()[j].state.nonce,
            forall|j: int| 0 <= j < old(self).users().len() && j != i ==> #[trigger] final(self).users()[j] == old(self).users()[j],
    {
        let ghost q = self.queue();
        let ghost u = self.users();
        let ghost s = entry.from();
        let sender = entry.sender;
        let removed = self.batch_queue.remove(&sender, entry.nonced_verification_data.nonce);
        let old_entry = match removed {
            Some(e) => e,
            None => {
                assert(false);
                return 0;
            },
        };
        let ghost idx = choose|idx: int|
            0 <= idx < q.len() && q[idx] == old_entry && old_entry.from() == s
                && old_entry.nonce() == entry.nonce() && self.queue() == q.remove(idx);
        let ghost q1 = self.queue();
        proof {
            assert(q[idx].from() == s);
            assert(q[idx].fee() < entry.fee());
            assert(!has_key(q1, s, entry.nonce())) by {
                if has_key(q1, s, entry.nonce()) {
                    let k = choose|k: int| 0 <= k < q1.len() && #[trigger] q1[k].from() == s && q1[k].nonce() == entry.nonce();
                    let kk = if k < idx { k } else { k + 1 };
                    assert(q1[k] == q[kk]);
                }
            }
        }
        self.batch_queue.push(entry);
        let ghost q2 = self.queue();
        let ghost pos = choose|pos: int| 0 <= pos <= q1.len() && q2 == q1.insert(pos, entry);
        self.refresh_user(i);
        proof {
            lemma_replace_keeps_tables(q, q1, q2, u, self.users(), idx, pos, entry, i as int);
        }
        old_entry.reply_handle
    }

    /// Takes the batch to finalize off the front of the queue, as
    /// `try_build_batch` chooses it, and recomputes every sender's counters
    /// from what stays. Where no batch can be formed nothing changes.
    pub fn take_batch(&mut self, gas_price: u128, max_bytes: usize) -> (r: Result<Vec<BatchQueueEntry>, BatcherError>)
        requires
            old(self).wf(),
        ensures
            final(self).wf(),
            final(self).users().len() == old(self).users().len(),
            forall|j: int| 0 <= j < old(self).users().len() ==> #[trigger] final(self).users()[j].addr == old(self).users()[j].addr
                && final(self).users()[j].state.nonce == old(self).users()[j].state.nonce,
            match r {
                Ok(batch) => {
                    &&& batch@.len() > 0
                    &&& best_batch_len(old(self).queue(), batch@.len() as int, gas_price, max_bytes)
                    &&& batch@ == old(self).queue().subrange(0, batch@.len() as int)
                    &&& final(self).queue() == old(self).queue().subrange(batch@.len() as int, old(self).queue().len() as int)
                    &&& final(self).queue().len() == old(self).queue().len() - batch@.len()
                },
                Err(e) => e == BatcherError::BatchCostTooHigh && best_batch_len(old(self).queue(), 0, gas_price, max_bytes)
                    && *final(self) == *old(self),
            },
    {
        let ghost q = self.queue();
        let ghost u = self.users();
        let k = self.batch_queue.batch_len(gas_price, max_bytes);
        if k == 0 {
            return Err(BatcherError::BatchCostTooHigh);
        }
        let batch = self.batch_queue.split_front(k);
        let ghost q2 = self.queue();
        self.recompute_user_states();
        proof {
            let u2 = self.users();
            assert forall|i: int, m: int| 0 <= i < u2.len() && 0 <= m < u2.len() && i != m
                implies #[trigger] u2[i].addr@ != #[trigger] u2[m].addr@ by {
                assert(u[i].addr@ != u[m].addr@);
            }
            assert forall|t: int| 0 <= t < q2.len() implies has_user(u2, #[trigger] q2[t].from()) by {
                assert(q2[t] == q[t + k]);
                let m = choose|m: int| 0 <= m < u.len() && #[trigger] u[m].addr@ == q[t + k].from();
                assert(u2[m].addr == u[m].addr);
            }
            assert forall|i: int, t: int|
                0 <= i < u2.len() && 0 <= t < q2.len() && #[trigger] u2[i].addr@ == #[trigger] q2[t].from()
                    implies q2[t].nonce() < u2[i].state.nonce by {
                assert(q2[t] == q[t + k]);
                assert(u[i].addr@ == q[t + k].from());
            }
            assert forall|a: int, b: int|
                0 <= a < q2.len() && 0 <= b < q2.len() && #[trigger] q2[a].from() == #[trigger] q2[b].from()
                    && q2[a].nonce() < q2[b].nonce() implies q2[a].fee() >= q2[b].fee() by {
                assert(q2[a] == q[a + k] && q2[b] == q[b + k]);
            }
        }
        Ok(batch)
    }
}

impl BatchState {
    /// Recomputes every sender's count, lowest fee and fee sum from the
    /// queue; a sender without queued entries gets zero, the largest value
    /// and zero. Senders and their nonces stay.
    pub fn recompute_user_states(&mut self)
        ensures
            final(self).batch_queue == old(self).batch_queue,
            final(self).users().len() == old(self).users().len(),
            forall|m: int| 0 <= m < old(self).users().len() ==> #[trigger] final(self).users()[m].addr
                == old(self).users()[m].addr && final(self).users()[m].state.nonce
                == old(self).users()[m].state.nonce,
            forall|m: int| 0 <= m < old(self).users().len() ==> record_matches(final(self).queue(), #[trigger] final(self).users()[m]),
    {
        let ghost u = self.users();
        let ghost q = self.queue();
        let mut j: usize = 0;
        while j < self.user_states.len()
            invariant
                self.queue() == q,
                self.batch_queue == old(self).batch_queue,
                u == old(self).users(),
                self.users().len() == u.len(),
                j <= u.len(),
                forall|m: int| 0 <= m < u.len() ==> #[trigger] self.users()[m].addr == u[m].addr
                    && self.users()[m].state.nonce == u[m].state.nonce,
                forall|m: int| 0 <= m < j ==> record_matches(q, #[trigger] self.users()[m]),
            decreases u.len() - j,
        {
            self.refresh_user(j);
            j = j + 1;
        }
    }

    /// The sender's next nonce, if it has a record.
    pub fn get_user_nonce(&self, addr: &Address) -> (r: Option<u128>)
        ensures
            r.is_none() == !has_user(self.users(), addr@),
            r matches Some(n) ==> exists|i: int|
                0 <= i < self.users().len() && self.users()[i].addr@ == addr@ && self.users()[i].state.nonce == n,
    {
        match self.get_user_state(addr) {
            Some(st) => Some(st.nonce),
            None => None,
        }
    }

    /// How many of the sender's requests are queued, if it has a record.
    pub fn get_user_proof_count(&self, addr: &Address) -> (r: Option<usize>)
        requires
            self.wf(),
        ensures
            r.is_none() == !has_user(self.users(), addr@),
            r matches Some(c) ==> c == count_of(self.queue(), addr@),
    {
        match self.find_user(addr) {
            Some(i) => Some(self.user_states[i].state.proofs_in_batch),
            None => None,
        }
    }

    /// The sum of the sender's queued fees, if it has a record.
    pub fn get_user_total_fees_in_queue(&self, addr: &Address) -> (r: Option<u128>)
        requires
            self.wf(),
        ensures
            r.is_none() == !has_user(self.users(), addr@),
            r matches Some(t) ==> t == capped(fees_of(self.queue(), addr@)),
    {
        match self.find_user(addr) {
            Some(i) => Some(self.user_states[i].state.total_fees_in_queue),
            None => None,
        }
    }
}

impl UserState {
    pub open spec fn new_spec(nonce: u128) -> UserState {
        UserState { nonce, last_max_fee_limit: u128::MAX, total_fees_in_queue: 0, proofs_in_batch: 0 }
    }
}

/// Replacing an entry by one of the same sender and nonce with a higher fee,
/// where no lower nonce of the sender pays less, keeps the tables consistent.
proof fn lemma_replace_keeps_tables(
    q: Seq<BatchQueueEntry>,
    q1: Seq<BatchQueueEntry>,
    q2: Seq<BatchQueueEntry>,
    u: Seq<UserRecord>,
    u2: Seq<UserRecord>,
    idx: int,
    pos: int,
    entry: BatchQueueEntry,
    i: int,
)
    requires
        tables_wf(q, u),
        0 <= idx < q.len(),
        q1 == q.remove(idx),
        0 <= pos <= q1.len(),
        q2 == q1.insert(pos, entry),
        0 <= i < u.len(),
        u[i].addr@ == entry.from(),
        q[idx].from() == entry.from(),
        q[idx].nonce() == entry.nonce(),
        q[idx].fee() < entry.fee(),
        !exists|k: int|
            0 <= k < q.len() && #[trigger] q[k].from() == entry.from() && q[k].nonce() < entry.nonce()
                && q[k].fee() < entry.fee(),
        u2.len() == u.len(),
        u2[i].addr == u[i].addr,
        u2[i].state.nonce == u[i].state.nonce,
        record_matches(q2, u2[i]),
        forall|j: int| 0 <= j < u.len() && j != i ==> #[trigger] u2[j] == u[j],
    ensures
        tables_wf(q2, u2),
{
    let s = entry.from();
    assert forall|j: int| 0 <= j < u2.len() implies #[trigger] u2[j].addr == u[j].addr
        && u2[j].state.nonce == u[j].state.nonce by {
        if j != i {
            assert(u2[j] == u[j]);
        }
    }
    assert forall|a: int, b: int| 0 <= a < u2.len() && 0 <= b < u2.len() && a != b
        implies #[trigger] u2[a].addr@ != #[trigger] u2[b].addr@ by {
        assert(u2[a].addr == u[a].addr && u2[b].addr == u[b].addr);
    }
    assert forall|j: int| 0 <= j < u2.len() implies record_matches(q2, #[trigger] u2[j]) by {
        if j != i {
            assert(u2[j] == u[j]);
            assert(u[j].addr@ != s);
            lemma_remove_other(q, idx, u[j].addr@);
            lemma_insert_other(q1, pos, entry, u[j].addr@);
        }
    }
    assert forall|k: int| 0 <= k < q2.len() implies has_user(u2, #[trigger] q2[k].from()) by {
        if k == pos {
            assert(u2[i].addr@ == s);
        } else {
            let k1 = if k < pos { k } else { k - 1 };
            let kk = if k1 < idx { k1 } else { k1 + 1 };
            assert(q2[k] == q[kk]);
            let j = choose|j: int| 0 <= j < u.len() && #[trigger] u[j].addr@ == q[kk].from();
            assert(u2[j].addr == u[j].addr);
        }
    }
    assert forall|j: int, k: int|
        0 <= j < u2.len() && 0 <= k < q2.len() && #[trigger] u2[j].addr@ == #[trigger] q2[k].from()
            implies q2[k].nonce() < u2[j].state.nonce by {
        assert(u2[j].addr == u[j].addr && u2[j].state.nonce == u[j].state.nonce);
        if k != pos {
            let k1 = if k < pos { k } else { k - 1 };
            let kk = if k1 < idx { k1 } else { k1 + 1 };
            assert(q2[k] == q[kk]);
        } else {
            assert(q[idx].from() == u[j].addr@);
        }
    }
    assert forall|a: int, b: int|
        0 <= a < q2.len() && 0 <= b < q2.len() && #[trigger] q2[a].from() == #[trigger] q2[b].from()
            && q2[a].nonce() < q2[b].nonce() implies q2[a].fee() >= q2[b].fee() by {
        let a1 = if a < pos { a } else { a - 1 };
        let aa = if a1 < idx { a1 } else { a1 + 1 };
        let b1 = if b < pos { b } else { b - 1 };
        let bb = if b1 < idx { b1 } else { b1 + 1 };
        if a == pos {
            assert(q2[b] == q[bb]);
            assert(q[idx].nonce() < q[bb].nonce());
            assert(q[idx].fee() >= q[bb].fee());
        } else if b == pos {
            assert(q2[a] == q[aa]);
        } else {
            assert(q2[a] == q[aa] && q2[b] == q[bb]);
        }
    }
}

/// A sender with no entries has a zero count, no lowest fee and a zero sum.
pub proof fn lemma_absent_sender(q: Seq<BatchQueueEntry>, s: Seq<u8>)
    requires
        forall|k: int| 0 <= k < q.len() ==> #[trigger] q[k].from() != s,
    ensures
        count_of(q, s) == 0,
        min_fee_of(q, s) == u128::MAX,
        fees_of(q, s) == 0,
    decreases q.len(),
{
    if q.len() > 0 {
        assert(q.last() == q[q.len() - 1]);
        assert forall|k: int| 0 <= k < q.drop_last().len() implies #[trigger] q.drop_last()[k].from() != s by {
            assert(q.drop_last()[k] == q[k]);
        }
        lemma_absent_sender(q.drop_last(), s);
    }
}

/// Every entry of the sender pays at least its lowest fee.
proof fn lemma_min_fee_le(q: Seq<BatchQueueEntry>, k: int, s: Seq<u8>)
    requires
        0 <= k < q.len(),
        q[k].from() == s,
    ensures
        min_fee_of(q, s) <= q[k].fee(),
    decreases q.len(),
{
    if k < q.len() - 1 {
        assert(q.drop_last()[k] == q[k]);
        lemma_min_fee_le(q.drop_last(), k, s);
    }
}

} // verus!
