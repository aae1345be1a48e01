use crate::batch_queue::{strictly_before, BatchQueueEntry};
use crate::batch_state::BatchState;
use crate::commitment::{commitment_view, leaf_hash, leaf_of};
use crate::hashing::{hex_text, to_hex};
use crate::merkle::{
    fold_path, hashes_view, is_padding_of, lemma_path_leads_to_root, merkle_path, merkle_root,
    pad_leaves,
    MerkleTree,
};
use crate::types::BatchInclusionData;
use vstd::prelude::*;
use vstd::string::StringExecFns;

verus! {

/// Whether a new block triggers a finalization: at least two entries are
/// queued, either enough of them or enough blocks have passed since the last
/// batch, and no finalization is under way.
pub open spec fn batch_ready(
    queue_len: nat,
    min_batch_len: nat,
    block_number: int,
    last_finalized_block: int,
    max_block_interval: int,
    posting: bool,
) -> bool {
    &&& queue_len >= 2
    &&& (queue_len >= min_batch_len || block_number >= last_finalized_block + max_block_interval)
    &&& !posting
}

/// The readiness test run on every new block.
pub fn is_batch_ready(
    queue_len: usize,
    min_batch_len: usize,
    block_number: u64,
    last_finalized_block: u64,
    max_block_interval: u64,
    posting: bool,
) -> (r: bool)
    ensures
        r == batch_ready(
            queue_len as nat,
            min_batch_len as nat,
            block_number as int,
            last_finalized_block as int,
            max_block_interval as int,
            posting,
        ),
{
    if queue_len < 2 || posting {
        return false;
    }
    if queue_len >= min_batch_len {
        return true;
    }
    match last_finalized_block.checked_add(max_block_interval) {
        Some(due) => block_number >= due,
        None => false,
    }
}

/// The finalizer's own state: whether a finalization is under way, and the
/// block of the last batch.
#[derive(Clone, Copy, Debug)]
pub struct FinalizerState {
    pub posting: bool,
    pub last_finalized_block: u64,
}

impl FinalizerState {
    /// Idle, counting intervals from the given block.
    pub fn new(chain_tip: u64) -> (r: FinalizerState)
        ensures
            !r.posting,
            r.last_finalized_block == chain_tip,
    {
        FinalizerState { posting: false, last_finalized_block: chain_tip }
    }

    /// On a new block: starts a finalization where the batch is ready, and
    /// says whether it did. Nothing changes otherwise.
    pub fn try_begin(&mut self, block_number: u64, queue_len: usize, min_batch_len: usize, max_block_interval: u64) -> (r: bool)
        ensures
            r == batch_ready(
                queue_len as nat,
                min_batch_len as nat,
                block_number as int,
                old(self).last_finalized_block as int,
                max_block_interval as int,
                old(self).posting,
            ),
            r ==> final(self).posting && final(self).last_finalized_block == old(self).last_finalized_block,
            !r ==> *final(self) == *old(self),
    {
        let ready = is_batch_ready(
            queue_len,
            min_batch_len,
            block_number,
            self.last_finalized_block,
            max_block_interval,
            self.posting,
        );
        if ready {
            self.posting = true;
        }
        ready
    }

    /// A batch was taken at this block.
    pub fn batch_taken(&mut self, block_number: u64)
        ensures
            final(self).posting == old(self).posting,
            final(self).last_finalized_block == block_number,
    {
        self.last_finalized_block = block_number;
    }

    /// The finalization ended, whichever way.
    pub fn finish(&mut self)
        ensures
            !final(self).posting,
            final(self).last_finalized_block == old(self).last_finalized_block,
    {
        self.posting = false;
    }
}

/// Whether a block from the feed is new: its number exceeds every one seen.
pub fn is_new_block(last_seen: u64, block_number: u64) -> (r: bool)
    ensures
        r == (block_number > last_seen),
{
    block_number > last_seen
}

/// The leaves of a batch: the leaf of each member's commitment, in batch order.
pub open spec fn batch_leaves(batch: Seq<BatchQueueEntry>) -> Seq<Seq<u8>> {
    Seq::new(batch.len(), |i: int| leaf_of(commitment_view(batch[i].verification_data_commitment)))
}

/// A batch ready to register: its members, their leaves, the padded leaves
/// and the tree over them.
pub struct FinalizedBatch {
    pub entries: Vec<BatchQueueEntry>,
    pub leaves: Vec<[u8; 32]>,
    pub padded_leaves: Vec<[u8; 32]>,
    pub tree: MerkleTree,
    pub root: [u8; 32],
}

impl FinalizedBatch {
    pub open spec fn wf(&self) -> bool {
        &&& self.entries@.len() >= 1
        &&& hashes_view(self.leaves@) == batch_leaves(self.entries@)
        &&& is_padding_of(hashes_view(self.padded_leaves@), hashes_view(self.leaves@))
        &&& self.tree.wf()
        &&& self.tree.leaves() == hashes_view(self.padded_leaves@)
        &&& self.root@ == merkle_root(hashes_view(self.padded_leaves@))
    }

    /// Computes the leaves, pads them, and builds the tree of a batch.
    pub fn new(entries: Vec<BatchQueueEntry>) -> (b: FinalizedBatch)
        requires
            1 <= entries@.len() <= usize::MAX / 2,
        ensures
            b.wf(),
            b.entries@ == entries@,
    {
        let mut leaves: Vec<[u8; 32]> = Vec::new();
        let mut i: usize = 0;
        while i < entries.len()
            invariant
                i <= entries@.len(),
                leaves@.len() == i,
                hashes_view(leaves@) == batch_leaves(entries@.subrange(0, i as int)),
            decreases entries@.len() - i,
        {
            let leaf = leaf_hash(&entries[i].verification_data_commitment);
            let ghost before = leaves@;
            leaves.push(leaf);
            i = i + 1;
            let ghost sub = entries@.subrange(0, i as int);
            assert forall|k: int| 0 <= k < i implies #[trigger] hashes_view(leaves@)[k] == batch_leaves(sub)[k] by {
                if k < i - 1 {
                    assert(leaves@[k] == before[k]);
                    assert(hashes_view(before)[k] == batch_leaves(entries@.subrange(0, i - 1))[k]);
                }
            }
            assert(hashes_view(leaves@) =~= batch_leaves(sub));
        }
        assert(entries@.subrange(0, i as int) =~= entries@);
        let padded_leaves = pad_leaves(&leaves);
        let tree = MerkleTree::build(&padded_leaves);
        let root = tree.root();
        FinalizedBatch { entries, leaves, padded_leaves, tree, root }
    }

    /// The root in lowercase hexadecimal.
    pub fn root_hex(&self) -> (r: String)
        ensures
            r@ == hex_text(self.root@),
    {
        to_hex(self.root.as_slice())
    }

    /// The name of the batch payload in the object store: the root in
    /// hexadecimal followed by ".json".
    pub fn file_name(&self) -> (r: String)
        ensures
            r@ == hex_text(self.root@) + ".json"@,
    {
        let mut name = self.root_hex();
        name.append(".json");
        name
    }

    /// Where the payload can be downloaded: the endpoint, a slash, and the file name.
    pub fn data_pointer(&self, download_endpoint: &str) -> (r: String)
        ensures
            r@ == download_endpoint@ + "/"@ + hex_text(self.root@) + ".json"@,
    {
        let mut r = String::from_str(download_endpoint);
        r.append("/");
        let name = self.file_name();
        r.append(name.as_str());
        r
    }

    /// The signature, nonce and fee of each member, in batch order, as the
    /// settlement contract takes them.
    pub fn signature_data(&self) -> (r: Vec<(Vec<u8>, u128, u128)>)
        ensures
            r@.len() == self.entries@.len(),
            forall|i: int|
                0 <= i < r@.len() ==> (#[trigger] r@[i]).1 == self.entries@[i].nonce() && r@[i].2
                    == self.entries@[i].fee(),
    {
        let mut r: Vec<(Vec<u8>, u128, u128)> = Vec::new();
        let mut i: usize = 0;
        while i < self.entries.len()
            invariant
                i <= self.entries@.len(),
                r@.len() == i,
                forall|m: int|
                    0 <= m < i ==> (#[trigger] r@[m]).1 == self.entries@[m].nonce() && r@[m].2
                        == self.entries@[m].fee(),
            decreases self.entries@.len() - i,
        {
            let e = &self.entries[i];
            r.push((e.signature.clone(), e.nonced_verification_data.nonce, e.nonced_verification_data.max_fee));
            i = i + 1;
        }
        r
    }

    /// The inclusion answers of a registered batch: one for each member, in
    /// batch order, to its reply handle, with its position, the root and its
    /// path. Batch order is service order, in which each sender's nonces
    /// ascend.
    pub fn inclusion_responses(&self) -> (r: Vec<(u64, BatchInclusionData)>)
        requires
            self.wf(),
        ensures
            r@.len() == self.entries@.len(),
            forall|j: int|
                0 <= j < r@.len() ==> {
                    let i = j;
                    let (handle, data) = #[trigger] r@[j];
                    &&& handle == self.entries@[i].reply_handle
                    &&& data.index_in_batch == i
                    &&& data.batch_merkle_root == self.root
                    &&& data.user_nonce == self.entries@[i].nonce()
                    &&& fold_path(
                        leaf_of(commitment_view(self.entries@[i].verification_data_commitment)),
                        i,
                        hashes_view(data.merkle_path@),
                    ) == self.root@
                },
    {
        let n = self.entries.len();
        let mut r: Vec<(u64, BatchInclusionData)> = Vec::new();
        let mut j: usize = 0;
        while j < n
            invariant
                self.wf(),
                n == self.entries@.len(),
                j <= n,
                r@.len() == j,
                forall|m: int|
                    0 <= m < j ==> {
                        let i = m;
                        let (handle, data) = #[trigger] r@[m];
                        &&& handle == self.entries@[i].reply_handle
                        &&& data.index_in_batch == i
                        &&& data.batch_merkle_root == self.root
                        &&& data.user_nonce == self.entries@[i].nonce()
                        &&& fold_path(
                            leaf_of(commitment_view(self.entries@[i].verification_data_commitment)),
                            i,
                            hashes_view(data.merkle_path@),
                        ) == self.root@
                    },
            decreases n - j,
        {
            let i = j;
            let entry = &self.entries[i];
            let ghost padded = hashes_view(self.padded_leaves@);
            let ghost leaves = hashes_view(self.leaves@);
            proof {
                assert(padded.subrange(0, leaves.len() as int)[i as int] == padded[i as int]);
                lemma_path_leads_to_root(padded, i as int);
            }
            let path = self.tree.path(i);
            let data = BatchInclusionData {
                batch_merkle_root: self.root,
                index_in_batch: i,
                merkle_path: path,
                user_nonce: entry.nonced_verification_data.nonce,
            };
            r.push((entry.reply_handle, data));
            j = j + 1;
        }
        r
    }

    /// The reply handles of every member, each to be told that registering
    /// the batch failed.
    pub fn failure_recipients(&self) -> (r: Vec<u64>)
        ensures
            r@.len() == self.entries@.len(),
            forall|i: int| 0 <= i < r@.len() ==> #[trigger] r@[i] == self.entries@[i].reply_handle,
    {
        let mut r: Vec<u64> = Vec::new();
        let mut i: usize = 0;
        while i < self.entries.len()
            invariant
                i <= self.entries@.len(),
                r@.len() == i,
                forall|m: int| 0 <= m < i ==> #[trigger] r@[m] == self.entries@[m].reply_handle,
            decreases self.entries@.len() - i,
        {
            r.push(self.entries[i].reply_handle);
            i = i + 1;
        }
        r
    }
}

/// In a batch taken from the front of a consistent queue, each sender's
/// entries come in ascending nonce order.
pub proof fn lemma_batch_nonces_ascend(st: BatchState, k: int, a: int, b: int)
    requires
        st.wf(),
        0 <= a < b < k <= st.queue().len(),
        st.queue()[a].from() == st.queue()[b].from(),
    ensures
        st.queue().subrange(0, k)[a].nonce() <= st.queue().subrange(0, k)[b].nonce(),
{
    let q = st.queue();
    assert(!strictly_before(q[b], q[a]));
    if q[a].nonce() > q[b].nonce() {
        assert(q[b].fee() >= q[a].fee());
    }
}

/// The root of a batch is the Merkle root of its members' leaves padded to a
/// power-of-two count, and every member can check its inclusion: the path
/// of the member at position `i` leads from its leaf to that root.
pub proof fn lemma_batch_paths_verify(b: FinalizedBatch, i: int)
    requires
        b.wf(),
        0 <= i < b.entries@.len(),
    ensures
        b.root@ == merkle_root(hashes_view(b.padded_leaves@)),
        is_padding_of(hashes_view(b.padded_leaves@), batch_leaves(b.entries@)),
        fold_path(
            leaf_of(commitment_view(b.entries@[i].verification_data_commitment)),
            i,
            merkle_path(b.tree.leaves(), i),
        ) == b.root@,
{
    let padded = hashes_view(b.padded_leaves@);
    let leaves = hashes_view(b.leaves@);
    assert(padded.subrange(0, leaves.len() as int)[i] == padded[i]);
    lemma_path_leads_to_root(padded, i);
}

} // verus!
