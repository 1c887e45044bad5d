//! Block-production policy: which pending transaction goes into the next
//! block, and whether a proposed block may join the tree.
//!
//! The consensus library owns the block tree. Its caller reads from the tree
//! the few hashes that a decision needs and hands them over as plain values.

use vstd::prelude::*;
use std::collections::VecDeque;
use crate::message::NewTransactionRequest;
use crate::table::KeyTable;
use crate::types::{find_key, TransactionHash};

verus! {

/// Number of ancestors of a new block that may still be uncommitted: the
/// parent, the grandparent and the great-grandparent.
pub const PENDING_WINDOW: u64 = 3;

/// What the policy is told about the block on which it is asked to build.
/// The three hashes are data hashes; a missing ancestor is one that the chain
/// does not have above its first block.
#[derive(Debug, Clone, Copy, PartialEq, Eq)]
pub struct Ancestry {
    pub parent_height: u64,
    pub parent: TransactionHash,
    pub grandparent: Option<TransactionHash>,
    pub great_grandparent: Option<TransactionHash>,
}

/// The block that the policy proposes. It carries no update of the
/// application state and no update of the validator set.
#[derive(Debug, Clone, PartialEq, Eq)]
pub struct ProduceBlockResponse {
    pub data_hash: TransactionHash,
    pub data: Vec<Vec<u8>>,
}

/// Verdict on a proposed block. A valid block carries no update either.
#[derive(Debug, Clone, Copy, PartialEq, Eq, Structural)]
pub enum ValidateBlockResponse {
    Valid,
    Invalid,
}

/// The policy's state between two calls.
pub struct AppImpl {
    trans_cache: VecDeque<NewTransactionRequest>,
    committed_block: KeyTable<TransactionHash, ()>,
    highest_committed_height: u64,
}

/// Data hashes of the ancestors that may still be uncommitted. A
/// great-grandparent counts only below a grandparent.
pub open spec fn spec_pending_ancient(ancestry: Option<Ancestry>) -> Set<TransactionHash> {
    match ancestry {
        None => Set::empty(),
        Some(a) => match a.grandparent {
            None => set![a.parent],
            Some(g) => match a.great_grandparent {
                None => set![a.parent, g],
                Some(gg) => set![a.parent, g, gg],
            },
        },
    }
}

/// Highest height that is committed for sure once a block on top of the parent
/// is asked for.
pub open spec fn spec_committed_limit(ancestry: Option<Ancestry>) -> int {
    match ancestry {
        None => 0,
        Some(a) => if a.parent_height >= PENDING_WINDOW {
            a.parent_height - PENDING_WINDOW
        } else {
            0
        },
    }
}

/// How many of `offered` hashes are taken in: those up to the committed limit.
pub open spec fn spec_observed_count(highest: u64, ancestry: Option<Ancestry>, offered: nat) -> int {
    let open = if spec_committed_limit(ancestry) > highest {
        spec_committed_limit(ancestry) - highest
    } else {
        0
    };
    if offered <= open {
        offered as int
    } else {
        open
    }
}

/// The data hashes of [`spec_pending_ancient`] as a list, nearest ancestor
/// first.
pub open spec fn spec_pending_ancient_list(ancestry: Option<Ancestry>) -> Seq<TransactionHash> {
    match ancestry {
        None => seq![],
        Some(a) => match a.grandparent {
            None => seq![a.parent],
            Some(g) => match a.great_grandparent {
                None => seq![a.parent, g],
                Some(gg) => seq![a.parent, g, gg],
            },
        },
    }
}

/// The ancestors that may still be uncommitted, nearest first.
pub fn pending_ancient(ancestry: &Option<Ancestry>) -> (hashes: Vec<TransactionHash>)
    ensures
        hashes@ == spec_pending_ancient_list(*ancestry),
        hashes@.to_set() == spec_pending_ancient(*ancestry),
        hashes.len() <= PENDING_WINDOW,
{
    let mut hashes: Vec<TransactionHash> = Vec::new();
    if let Some(a) = ancestry {
        hashes.push(a.parent);
        if let Some(g) = a.grandparent {
            hashes.push(g);
            if let Some(gg) = a.great_grandparent {
                hashes.push(gg);
            }
        }
    }
    proof {
        let s = hashes@;
        assert(s =~= spec_pending_ancient_list(*ancestry));
        assert forall|h: TransactionHash| s.to_set().contains(h) <==> spec_pending_ancient(
            *ancestry,
        ).contains(h) by {
            if s.contains(h) {
                let i = s.index_of(h);
                assert(s[i] == h);
            }
            if spec_pending_ancient(*ancestry).contains(h) {
                assert(s.len() >= 1 && (s[0] == h || (s.len() >= 2 && (s[1] == h || (s.len() >= 3
                    && s[2] == h)))));
            }
        }
        assert(s.to_set() =~= spec_pending_ancient(*ancestry));
    }
    hashes
}

impl AppImpl {
    /// The inner set of committed hashes is well formed.
    pub closed spec fn wf(&self) -> bool {
        self.committed_block.wf()
    }

    /// The candidates that wait for inclusion, oldest first.
    pub closed spec fn cache(&self) -> Seq<NewTransactionRequest> {
        self.trans_cache@
    }

    /// Data hashes of all committed blocks that the policy has observed.
    pub closed spec fn committed(&self) -> Set<TransactionHash> {
        self.committed_block@.dom()
    }

    /// Height up to which committed blocks have been observed.
    pub closed spec fn highest_committed_height(&self) -> u64 {
        self.highest_committed_height
    }

    /// Whether a candidate with this hash may not be proposed on `ancestry`.
    pub open spec fn spec_blocked(&self, ancestry: Option<Ancestry>, hash: TransactionHash) -> bool {
        spec_pending_ancient(ancestry).contains(hash) || self.committed().contains(hash)
    }

    /// A policy that has seen no request and no block.
    pub fn new() -> (app: Self)
        ensures
            app.wf(),
            app.cache() == Seq::<NewTransactionRequest>::empty(),
            app.committed() == Set::<TransactionHash>::empty(),
            app.highest_committed_height() == 0,
    {
        let app = AppImpl {
            trans_cache: VecDeque::new(),
            committed_block: KeyTable::new(),
            highest_committed_height: 0,
        };
        assert(app.committed() =~= Set::<TransactionHash>::empty());
        app
    }

    /// Identifier of the chain that this application runs on.
    pub fn chain_id(&self) -> (id: u64)
        ensures
            id == 1,
    {
        1
    }

    /// Height of the last committed block that has been observed.
    pub fn observed_height(&self) -> (height: u64)
        ensures
            height == self.highest_committed_height(),
    {
        self.highest_committed_height
    }

    /// Number of candidates that wait for inclusion.
    pub fn cached(&self) -> (n: usize)
        ensures
            n == self.cache().len(),
    {
        self.trans_cache.len()
    }

    /// Whether `hash` belongs to a committed block that has been observed.
    pub fn is_committed(&self, hash: &TransactionHash) -> (known: bool)
        requires
            self.wf(),
        ensures
            known == self.committed().contains(*hash),
    {
        self.committed_block.contains_key(hash)
    }

    /// Puts a request that arrived from a client behind the waiting ones.
    pub fn enqueue(&mut self, request: NewTransactionRequest)
        requires
            old(self).wf(),
        ensures
            final(self).wf(),
            final(self).cache() == old(self).cache().push(request),
            final(self).committed() == old(self).committed(),
            final(self).highest_committed_height() == old(self).highest_committed_height(),
    {
        self.trans_cache.push_back(request);
    }

    /// Heights whose blocks the next call of `produce_block` on `ancestry`
    /// takes in: `count` heights beginning at `first`.
    pub fn unobserved_heights(&self, ancestry: &Option<Ancestry>) -> (range: (u64, u64))
        ensures
            range.0 == if range.1 > 0 {
                self.highest_committed_height() + 1
            } else {
                0
            },
            range.1 == spec_observed_count(
                self.highest_committed_height(),
                *ancestry,
                u64::MAX as nat,
            ),
    {
        let limit = match ancestry {
            None => 0,
            Some(a) => if a.parent_height >= PENDING_WINDOW {
                a.parent_height - PENDING_WINDOW
            } else {
                0
            },
        };
        if limit > self.highest_committed_height {
            (self.highest_committed_height + 1, limit - self.highest_committed_height)
        } else {
            (0, 0)
        }
    }

    /// Takes in the data hashes of newly committed blocks. `hashes[i]` belongs
    /// to the block at height `highest_committed_height() + 1 + i`; hashes of
    /// blocks above the committed limit of `ancestry` are left aside.
    pub fn observe_committed(&mut self, ancestry: &Option<Ancestry>, hashes: &Vec<TransactionHash>)
        requires
            old(self).wf(),
        ensures
            final(self).wf(),
            final(self).cache() == old(self).cache(),
            final(self).highest_committed_height() == old(self).highest_committed_height()
                + spec_observed_count(old(self).highest_committed_height(), *ancestry, hashes@.len()),
            final(self).committed() == old(self).committed().union(
                hashes@.take(
                    spec_observed_count(
                        old(self).highest_committed_height(),
                        *ancestry,
                        hashes@.len(),
                    ),
                ).to_set(),
            ),
    {
        let (_, open) = self.unobserved_heights(ancestry);
        let n: usize = if (hashes.len() as u64) <= open {
            hashes.len()
        } else {
            open as usize
        };
        let mut i: usize = 0;
        while i < n
            invariant
                i <= n <= hashes.len(),
                self.wf(),
                self.trans_cache == old(self).trans_cache,
                self.highest_committed_height == old(self).highest_committed_height,
                self.committed() == old(self).committed().union(hashes@.take(i as int).to_set()),
            decreases n - i,
        {
            self.committed_block.insert(hashes[i], ());
            proof {
                let before = hashes@.take(i as int);
                let after = hashes@.take(i + 1);
                assert(after =~= before.push(hashes@[i as int]));
                assert forall|h: TransactionHash| after.to_set().contains(h) <==> (before.to_set().contains(
                    h,
                ) || h == hashes@[i as int]) by {
                    if after.contains(h) {
                        let j = after.index_of(h);
                        assert(after[j] == h);
                        if j < i {
                            assert(before[j] == h);
                        }
                    }
                    if before.contains(h) {
                        let j = before.index_of(h);
                        assert(before[j] == h);
                        assert(after[j] == h);
                    }
                    assert(after[i as int] == hashes@[i as int]);
                }
                assert(self.committed() =~= old(self).committed().union(after.to_set()));
            }
            i += 1;
        }
        self.highest_committed_height = self.highest_committed_height + n as u64;
    }

    /// Pops candidates until one may be proposed on `ancestry`, and proposes it:
    /// the block's data hash is the candidate's hash and its data is the
    /// candidate's payload alone. The candidates in front of it were accepted
    /// into this chain before and are dropped. Without such a candidate the
    /// cache ends empty and nothing is proposed.
    pub fn select(&mut self, ancestry: &Option<Ancestry>) -> (response: Option<ProduceBlockResponse>)
        requires
            old(self).wf(),
        ensures
            final(self).wf(),
            final(self).committed() == old(self).committed(),
            final(self).highest_committed_height() == old(self).highest_committed_height(),
            match response {
                Some(r) => exists|k: int|
                    {
                        &&& 0 <= k < old(self).cache().len()
                        &&& forall|j: int|
                            0 <= j < k ==> old(self).spec_blocked(
                                *ancestry,
                                #[trigger] old(self).cache()[j].hash,
                            )
                        &&& !old(self).spec_blocked(*ancestry, old(self).cache()[k].hash)
                        &&& r.data_hash == (#[trigger] old(self).cache()[k]).hash
                        &&& r.data@.len() == 1
                        &&& r.data@[0]@ == old(self).cache()[k].data@
                        &&& final(self).cache() == old(self).cache().subrange(
                            k + 1,
                            old(self).cache().len() as int,
                        )
                    },
                None => {
                    &&& forall|j: int|
                        0 <= j < old(self).cache().len() ==> old(self).spec_blocked(
                            *ancestry,
                            #[trigger] old(self).cache()[j].hash,
                        )
                    &&& final(self).cache() == Seq::<NewTransactionRequest>::empty()
                },
            },
            response matches Some(r) ==> !final(self).spec_blocked(*ancestry, r.data_hash),
    {
        let ancient = pending_ancient(ancestry);
        let ghost start = self.trans_cache@;
        let ghost mut popped: int = 0;
        loop
            invariant
                self.wf(),
                self.committed_block == old(self).committed_block,
                self.highest_committed_height == old(self).highest_committed_height,
                start == old(self).trans_cache@,
                ancient@.to_set() == spec_pending_ancient(*ancestry),
                0 <= popped <= start.len(),
                self.trans_cache@ == start.subrange(popped, start.len() as int),
                forall|j: int|
                    0 <= j < popped ==> old(self).spec_blocked(*ancestry, #[trigger] start[j].hash),
            decreases start.len() - popped,
        {
            match self.trans_cache.pop_front() {
                None => {
                    return None;
                },
                Some(candidate) => {
                    assert(candidate == start[popped]);
                    let in_window = find_key(&ancient, &candidate.hash).is_some();
                    let committed = self.committed_block.contains_key(&candidate.hash);
                    if in_window || committed {
                        proof {
                            popped = popped + 1;
                        }
                    } else {
                        assert(self.trans_cache@ =~= start.subrange(popped + 1, start.len() as int));
                        let mut data: Vec<Vec<u8>> = Vec::new();
                        let data_hash = candidate.hash;
                        data.push(candidate.data);
                        proof {
                            let cache = old(self).cache();
                            assert(ancient@.to_set().contains(candidate.hash) == ancient@.contains(
                                candidate.hash,
                            ));
                            assert(!old(self).spec_blocked(*ancestry, cache[popped].hash));
                            assert(data@[0]@ == cache[popped].data@);
                            assert(data_hash == cache[popped].hash);
                        }
                        return Some(ProduceBlockResponse { data_hash, data });
                    }
                },
            }
        }
    }

    /// One round of block production: takes in the newly committed blocks, then
    /// selects. `None` tells the caller to wait for a request, enqueue it and
    /// ask again.
    pub fn produce_block(
        &mut self,
        ancestry: &Option<Ancestry>,
        committed_hashes: &Vec<TransactionHash>,
    ) -> (response: Option<ProduceBlockResponse>)
        requires
            old(self).wf(),
        ensures
            final(self).wf(),
            final(self).highest_committed_height() == old(self).highest_committed_height()
                + spec_observed_count(
                old(self).highest_committed_height(),
                *ancestry,
                committed_hashes@.len(),
            ),
            final(self).committed() == old(self).committed().union(
                committed_hashes@.take(
                    spec_observed_count(
                        old(self).highest_committed_height(),
                        *ancestry,
                        committed_hashes@.len(),
                    ),
                ).to_set(),
            ),
            match response {
                Some(r) => exists|k: int|
                    {
                        &&& 0 <= k < old(self).cache().len()
                        &&& forall|j: int|
                            0 <= j < k ==> final(self).spec_blocked(
                                *ancestry,
                                #[trigger] old(self).cache()[j].hash,
                            )
                        &&& !final(self).spec_blocked(*ancestry, old(self).cache()[k].hash)
                        &&& r.data_hash == (#[trigger] old(self).cache()[k]).hash
                        &&& r.data@.len() == 1
                        &&& r.data@[0]@ == old(self).cache()[k].data@
                        &&& final(self).cache() == old(self).cache().subrange(
                            k + 1,
                            old(self).cache().len() as int,
                        )
                    },
                None => {
                    &&& forall|j: int|
                        0 <= j < old(self).cache().len() ==> final(self).spec_blocked(
                            *ancestry,
                            #[trigger] old(self).cache()[j].hash,
                        )
                    &&& final(self).cache() == Seq::<NewTransactionRequest>::empty()
                },
            },
            response matches Some(r) ==> !spec_pending_ancient(*ancestry).contains(r.data_hash)
                && !final(self).committed().contains(r.data_hash),
    {
        self.observe_committed(ancestry, committed_hashes);
        self.select(ancestry)
    }

    /// A proposed block is invalid exactly when a block of the tree already
    /// carries its data hash. `tree_data_hashes` are the data hashes of the
    /// blocks of the tree.
    pub fn validate_block(
        &self,
        data_hash: &TransactionHash,
        tree_data_hashes: &Vec<TransactionHash>,
    ) -> (verdict: ValidateBlockResponse)
        ensures
            verdict == if tree_data_hashes@.contains(*data_hash) {
                ValidateBlockResponse::Invalid
            } else {
                ValidateBlockResponse::Valid
            },
    {
        match find_key(tree_data_hashes, data_hash) {
            Some(_) => ValidateBlockResponse::Invalid,
            None => ValidateBlockResponse::Valid,
        }
    }
}

} // verus!
