use crate::hashing::{concat_bytes, keccak256, keccak_of};
use vstd::prelude::*;

verus! {

/// The views of a sequence of 32-byte hashes.
pub open spec fn hashes_view(v: Seq<[u8; 32]>) -> Seq<Seq<u8>> {
    v.map_values(|h: [u8; 32]| h@)
}

/// An inner node of the tree: the digest of the two children, left first.
pub open spec fn parent_hash(left: Seq<u8>, right: Seq<u8>) -> Seq<u8> {
    keccak_of(left + right)
}

/// The level above `l`: each pair of neighbours joined into their parent.
pub open spec fn next_level(l: Seq<Seq<u8>>) -> Seq<Seq<u8>> {
    Seq::new((l.len() / 2) as nat, |i: int| parent_hash(l[2 * i], l[2 * i + 1]))
}

/// Whether `n` is a power of two.
pub open spec fn is_pow2(n: nat) -> bool
    decreases n,
{
    if n == 1 {
        true
    } else if n == 0 || n % 2 == 1 {
        false
    } else {
        is_pow2((n / 2) as nat)
    }
}

/// The root of the binary Merkle tree over the leaves `l`.
pub open spec fn merkle_root(l: Seq<Seq<u8>>) -> Seq<u8>
    decreases l.len(),
{
    if l.len() <= 1 {
        l[0]
    } else {
        merkle_root(next_level(l))
    }
}

/// The sibling of node `i` on level `l`.
pub open spec fn sibling(l: Seq<Seq<u8>>, i: int) -> Seq<u8> {
    if i % 2 == 0 {
        l[i + 1]
    } else {
        l[i - 1]
    }
}

/// The authentication path of leaf `i`: its sibling on each level, bottom up.
pub open spec fn merkle_path(l: Seq<Seq<u8>>, i: int) -> Seq<Seq<u8>>
    decreases l.len(),
{
    if l.len() <= 1 {
        seq![]
    } else {
        seq![sibling(l, i)] + merkle_path(next_level(l), i / 2)
    }
}

/// The parent of `node` at position `i`, given its sibling.
pub open spec fn join_at(node: Seq<u8>, i: int, sib: Seq<u8>) -> Seq<u8> {
    if i % 2 == 0 {
        parent_hash(node, sib)
    } else {
        parent_hash(sib, node)
    }
}

/// The root that a leaf at position `i` leads to along `path`.
pub open spec fn fold_path(leaf: Seq<u8>, i: int, path: Seq<Seq<u8>>) -> Seq<u8>
    decreases path.len(),
{
    if path.len() == 0 {
        leaf
    } else {
        fold_path(join_at(leaf, i, path[0]), i / 2, path.drop_first())
    }
}

/// The leaves padded to a power-of-two count by repeating the last one.
pub open spec fn is_padding_of(padded: Seq<Seq<u8>>, leaves: Seq<Seq<u8>>) -> bool {
    &&& is_pow2(padded.len())
    &&& leaves.len() <= padded.len() < 2 * leaves.len()
    &&& padded.subrange(0, leaves.len() as int) == leaves
    &&& forall|j: int| leaves.len() <= j < padded.len() ==> padded[j] == leaves.last()
}

proof fn lemma_next_level_pow2(n: nat)
    requires
        is_pow2(n),
        n > 1,
    ensures
        is_pow2((n / 2) as nat),
        n % 2 == 0,
{
}

/// Every authentication path leads from its leaf to the root of a tree
/// whose leaf count is a power of two.
pub proof fn lemma_path_leads_to_root(l: Seq<Seq<u8>>, i: int)
    requires
        is_pow2(l.len()),
        0 <= i < l.len(),
    ensures
        fold_path(l[i], i, merkle_path(l, i)) == merkle_root(l),
    decreases l.len(),
{
    if l.len() > 1 {
        lemma_next_level_pow2(l.len());
        let nl = next_level(l);
        assert(nl.len() == l.len() / 2);
        let p = merkle_path(l, i);
        assert(p.drop_first() =~= merkle_path(nl, i / 2));
        assert(join_at(l[i], i, sibling(l, i)) == nl[i / 2]);
        lemma_path_leads_to_root(nl, i / 2);
    }
}

/// A Merkle tree stored level by level, the leaves first and the root last.
pub struct MerkleTree {
    pub levels: Vec<Vec<[u8; 32]>>,
}

impl MerkleTree {
    /// The levels as sequences of hashes.
    pub open spec fn level(&self, k: int) -> Seq<Seq<u8>> {
        hashes_view(self.levels@[k]@)
    }

    /// The leaves of the tree.
    pub open spec fn leaves(&self) -> Seq<Seq<u8>> {
        self.level(0)
    }

    pub open spec fn wf(&self) -> bool {
        &&& self.levels@.len() >= 1
        &&& is_pow2(self.leaves().len())
        &&& forall|k: int|
            1 <= k < self.levels@.len() ==> #[trigger] self.level(k) == next_level(
                self.level(k - 1),
            ) && self.level(k - 1).len() > 1
        &&& self.level(self.levels@.len() - 1).len() == 1
    }

    proof fn lemma_root_from(&self, k: int)
        requires
            self.wf(),
            0 <= k < self.levels@.len(),
        ensures
            merkle_root(self.level(k)) == merkle_root(self.leaves()),
        decreases k,
    {
        if k > 0 {
            self.lemma_root_from(k - 1);
        }
    }

    /// Builds the tree over leaves whose count is a power of two.
    pub fn build(leaves: &Vec<[u8; 32]>) -> (t: MerkleTree)
        requires
            is_pow2(leaves@.len()),
        ensures
            t.wf(),
            t.leaves() == hashes_view(leaves@),
    {
        let mut levels: Vec<Vec<[u8; 32]>> = Vec::new();
        levels.push(copy_hashes(leaves));
        let mut top: usize = 0;
        while levels[top].len() > 1
            invariant
                levels@.len() == top + 1,
                hashes_view(levels@[0]@) == hashes_view(leaves@),
                is_pow2(levels@[top as int]@.len()),
                forall|k: int|
                    1 <= k < levels@.len() ==> #[trigger] hashes_view(levels@[k]@) == next_level(
                        hashes_view(levels@[k - 1]@),
                    ) && hashes_view(levels@[k - 1]@).len() > 1,
            decreases levels@[top as int]@.len(),
        {
            let ghost before = levels@;
            let current = &levels[top];
            proof {
                lemma_next_level_pow2(current@.len());
            }
            let next = join_level(current);
            let ghost cur = hashes_view(current@);
            assert(hashes_view(next@).len() == cur.len() / 2);
            levels.push(next);
            assert(levels@ == before.push(next));
            assert forall|k: int| 1 <= k < levels@.len() implies #[trigger] hashes_view(
                levels@[k]@,
            ) == next_level(hashes_view(levels@[k - 1]@)) && hashes_view(levels@[k - 1]@).len()
                > 1 by {
                if k < levels@.len() - 1 {
                    assert(levels@[k] == before[k]);
                    assert(levels@[k - 1] == before[k - 1]);
                } else {
                    assert(levels@[k - 1] == before[top as int]);
                }
            }
            top = levels.len() - 1;
        }
        let t = MerkleTree { levels };
        assert(t.wf());
        t
    }

    /// The root hash.
    pub fn root(&self) -> (r: [u8; 32])
        requires
            self.wf(),
        ensures
            r@ == merkle_root(self.leaves()),
    {
        let top = self.levels.len() - 1;
        proof {
            self.lemma_root_from(top as int);
        }
        assert(self.level(top as int).len() == 1);
        self.levels[top][0]
    }

    /// The authentication path of leaf `index`.
    pub fn path(&self, index: usize) -> (p: Vec<[u8; 32]>)
        requires
            self.wf(),
            index < self.leaves().len(),
        ensures
            hashes_view(p@) == merkle_path(self.leaves(), index as int),
    {
        let mut p: Vec<[u8; 32]> = Vec::new();
        let top = self.levels.len() - 1;
        let mut k: usize = 0;
        let mut idx: usize = index;
        while k < top
            invariant
                self.wf(),
                top == self.levels@.len() - 1,
                k <= top,
                idx < self.level(k as int).len(),
                hashes_view(p@) + merkle_path(self.level(k as int), idx as int) == merkle_path(
                    self.leaves(),
                    index as int,
                ),
            decreases top - k,
        {
            let level = &self.levels[k];
            let ghost l = self.level(k as int);
            let ghost nl = self.level(k as int + 1);
            assert(nl == next_level(l) && l.len() > 1);
            proof {
                lemma_next_level_pow2_seq(self, k as int);
            }
            assert(l.len() == level@.len());
            let sib = if idx % 2 == 0 {
                level[idx + 1]
            } else {
                level[idx - 1]
            };
            assert(sib@ == sibling(l, idx as int));
            let ghost old_p = p@;
            p.push(sib);
            assert(hashes_view(p@) =~= hashes_view(old_p) + seq![sib@]);
            assert(merkle_path(l, idx as int) == seq![sibling(l, idx as int)] + merkle_path(
                nl,
                idx as int / 2,
            ));
            assert((hashes_view(old_p) + seq![sib@]) + merkle_path(nl, idx as int / 2)
                =~= hashes_view(old_p) + (seq![sib@] + merkle_path(nl, idx as int / 2)));
            idx = idx / 2;
            k = k + 1;
        }
        assert(self.level(k as int).len() == 1);
        assert(hashes_view(p@) + seq![] =~= hashes_view(p@));
        p
    }
}

/// The level above `current`, whose length is even.
fn join_level(current: &Vec<[u8; 32]>) -> (next: Vec<[u8; 32]>)
    requires
        current@.len() % 2 == 0,
    ensures
        hashes_view(next@) == next_level(hashes_view(current@)),
{
    let half = current.len() / 2;
    let mut next: Vec<[u8; 32]> = Vec::new();
    let mut j: usize = 0;
    while j < half
        invariant
            current@.len() == 2 * half,
            current@.len() <= usize::MAX,
            j <= half,
            next@.len() == j,
            forall|m: int|
                0 <= m < j ==> #[trigger] next@[m]@ == parent_hash(
                    current@[2 * m]@,
                    current@[2 * m + 1]@,
                ),
        decreases half - j,
    {
        let joined = concat_bytes(&current[2 * j], &current[2 * j + 1]);
        let h = keccak256(joined.as_slice());
        next.push(h);
        j = j + 1;
    }
    assert(hashes_view(next@) =~= next_level(hashes_view(current@)));
    next
}

proof fn lemma_double_pow2(p: nat)
    requires
        is_pow2(p),
    ensures
        is_pow2(2 * p),
{
    assert((2 * p) / 2 == p);
}

/// The leaves extended to the next power-of-two count by repeating the last
/// leaf; a count that is already a power of two is kept.
pub fn pad_leaves(leaves: &Vec<[u8; 32]>) -> (padded: Vec<[u8; 32]>)
    requires
        leaves@.len() >= 1,
        leaves@.len() <= usize::MAX / 2,
    ensures
        is_padding_of(hashes_view(padded@), hashes_view(leaves@)),
        padded@.subrange(0, leaves@.len() as int) == leaves@,
{
    let n = leaves.len();
    let mut target: usize = 1;
    while target < n
        invariant
            1 <= target < 2 * n,
            n <= usize::MAX / 2,
            is_pow2(target as nat),
        decreases 2 * n - target,
    {
        proof {
            lemma_double_pow2(target as nat);
        }
        target = target * 2;
    }
    let last = leaves[n - 1];
    let mut padded = copy_hashes(leaves);
    while padded.len() < target
        invariant
            n <= padded@.len() <= target,
            padded@.subrange(0, n as int) == leaves@,
            forall|j: int| n <= j < padded@.len() ==> padded@[j] == last,
        decreases target - padded@.len(),
    {
        let ghost before = padded@;
        padded.push(last);
        assert(padded@.subrange(0, n as int) =~= before.subrange(0, n as int));
    }
    let ghost pv = hashes_view(padded@);
    let ghost lv = hashes_view(leaves@);
    assert(pv.subrange(0, n as int) =~= lv);
    padded
}

/// A copy of a sequence of hashes.
fn copy_hashes(v: &Vec<[u8; 32]>) -> (r: Vec<[u8; 32]>)
    ensures
        r@ == v@,
{
    let mut r: Vec<[u8; 32]> = Vec::new();
    let mut i: usize = 0;
    while i < v.len()
        invariant
            i <= v@.len(),
            r@ == v@.subrange(0, i as int),
        decreases v@.len() - i,
    {
        r.push(v[i]);
        i = i + 1;
        assert(r@ =~= v@.subrange(0, i as int));
    }
    assert(r@ =~= v@);
    r
}

/// Every level below the root has an even number of nodes.
proof fn lemma_next_level_pow2_seq(t: &MerkleTree, k: int)
    requires
        t.wf(),
        0 <= k < t.levels@.len() - 1,
    ensures
        t.level(k).len() % 2 == 0,
        is_pow2(t.level(k + 1).len()),
        t.level(k + 1).len() == t.level(k).len() / 2,
    decreases k,
{
    assert(t.level(k + 1) == next_level(t.level(k)));
    if k == 0 {
        lemma_next_level_pow2(t.level(0).len());
    } else {
        lemma_next_level_pow2_seq(t, k - 1);
        lemma_next_level_pow2(t.level(k).len());
    }
}

} // verus!
