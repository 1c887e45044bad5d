//! The node's side towards clients: taking in their requests, watching the
//! chain for their commitment, and answering with receipts.

use vstd::prelude::*;
use crate::message::{
    spec_decode_request, spec_encode_receipt, NewTransactionRequest, ReceiptView,
    TransactionReceipt, TransactionResult,
};
use crate::table::KeyTable;
use crate::transaction::{sha256, spec_sha256};
use crate::types::{
    bytes32_eq, lemma_bytes32_views, PeerAddr, PublicKeyBytes, TransactionHash,
};

verus! {

/// Requester of each transaction that waits for its commitment, by hash.
pub type OriginatorMap = KeyTable<TransactionHash, PublicKeyBytes>;

/// A commitment seen on the chain: the requester and the transaction's hash.
pub type CommitEvent = (PublicKeyBytes, TransactionHash);

/// The actor that talks to clients.
pub struct ClientActor {
    requesters_addr_map: KeyTable<PublicKeyBytes, PeerAddr>,
    pubkey: PublicKeyBytes,
}

/// Whether a frame holds a request whose hash is the SHA-256 digest of its
/// payload.
pub open spec fn spec_accepted(frame: Seq<u8>) -> bool {
    spec_decode_request(frame) matches Some(r) && r.hash == spec_sha256(r.data)
}

impl ClientActor {
    /// The inner table is well formed.
    pub closed spec fn wf(&self) -> bool {
        self.requesters_addr_map.wf()
    }

    /// Last known address of each requester.
    pub closed spec fn addresses(&self) -> Map<PublicKeyBytes, PeerAddr> {
        self.requesters_addr_map@
    }

    /// The node's own public key.
    pub closed spec fn pubkey(&self) -> PublicKeyBytes {
        self.pubkey
    }

    /// An actor of the node `pubkey` that knows no requester yet.
    pub fn new(pubkey: PublicKeyBytes) -> (actor: Self)
        ensures
            actor.wf(),
            actor.pubkey() == pubkey,
            actor.addresses() == Map::<PublicKeyBytes, PeerAddr>::empty(),
    {
        ClientActor { requesters_addr_map: KeyTable::new(), pubkey }
    }

    /// The address that the requester last wrote from, if it ever wrote.
    pub fn address_of(&self, requester: &PublicKeyBytes) -> (addr: Option<PeerAddr>)
        requires
            self.wf(),
        ensures
            addr == if self.addresses().dom().contains(*requester) {
                Some(self.addresses()[*requester])
            } else {
                None
            },
    {
        match self.requesters_addr_map.get(requester) {
            Some(a) => Some(*a),
            None => None,
        }
    }

    /// Takes a frame that came from `addr`. A frame that holds a request whose
    /// hash is the digest of its payload is accepted: the requester's address
    /// becomes `addr`, the requester is noted as the originator of the hash,
    /// and the request is returned, to be handed to block production. Any
    /// other frame is dropped and changes nothing.
    pub fn on_request(
        &mut self,
        originators: &mut OriginatorMap,
        addr: PeerAddr,
        frame: &Vec<u8>,
    ) -> (request: Option<NewTransactionRequest>)
        requires
            old(self).wf(),
            old(originators).wf(),
        ensures
            final(self).wf(),
            final(originators).wf(),
            final(self).pubkey() == old(self).pubkey(),
            request is Some <==> spec_accepted(frame@),
            match request {
                Some(r) => {
                    &&& spec_decode_request(frame@) == Some(r@)
                    &&& final(self).addresses() == old(self).addresses().insert(r.requester, addr)
                    &&& final(originators)@ == old(originators)@.insert(r.hash, r.requester)
                },
                None => {
                    &&& final(self).addresses() == old(self).addresses()
                    &&& final(originators)@ == old(originators)@
                },
            },
    {
        match NewTransactionRequest::decode(frame) {
            None => None,
            Some(request) => {
                let digest = sha256(&request.data);
                if bytes32_eq(&digest, &request.hash) {
                    self.requesters_addr_map.insert(request.requester, addr);
                    originators.insert(request.hash, request.requester);
                    Some(request)
                } else {
                    proof {
                        lemma_bytes32_views(digest, request.hash);
                    }
                    None
                }
            },
        }
    }

    /// Answers a commitment: the receipt for `hash`, signed off as committed by
    /// this node, encoded and addressed to where the requester last wrote
    /// from. A requester that never wrote gets nothing.
    pub fn on_commit(&self, requester: PublicKeyBytes, hash: TransactionHash) -> (reply: Option<
        (PeerAddr, Vec<u8>),
    >)
        requires
            self.wf(),
        ensures
            match reply {
                Some((addr, frame)) => {
                    &&& self.addresses().dom().contains(requester)
                    &&& addr == self.addresses()[requester]
                    &&& frame@ == spec_encode_receipt(
                        ReceiptView {
                            receiptor: self.pubkey()@,
                            requester: requester@,
                            hash: hash@,
                            result: TransactionResult::Commited,
                        },
                    )
                },
                None => !self.addresses().dom().contains(requester),
            },
    {
        match self.requesters_addr_map.get(&requester) {
            Some(addr) => {
                let receipt = TransactionReceipt {
                    receiptor: self.pubkey,
                    requester,
                    hash,
                    result: TransactionResult::Commited,
                };
                Some((*addr, receipt.encode()))
            },
            None => None,
        }
    }
}

/// The originators that remain and the events that go out after the blocks
/// with the data hashes `hashes` were seen committed, in order: a hash with a
/// known originator gives one event and loses its entry; any other is passed
/// over.
pub open spec fn spec_watch(
    originators: Map<TransactionHash, PublicKeyBytes>,
    hashes: Seq<TransactionHash>,
) -> (Map<TransactionHash, PublicKeyBytes>, Seq<CommitEvent>)
    decreases hashes.len(),
{
    if hashes.len() == 0 {
        (originators, Seq::empty())
    } else {
        let (left, events) = spec_watch(originators, hashes.drop_last());
        let hash = hashes.last();
        if left.dom().contains(hash) {
            (left.remove(hash), events.push((left[hash], hash)))
        } else {
            (left, events)
        }
    }
}

/// How many of `events` are for `hash`.
pub open spec fn spec_events_for(events: Seq<CommitEvent>, hash: TransactionHash) -> nat
    decreases events.len(),
{
    if events.len() == 0 {
        0
    } else {
        spec_events_for(events.drop_last(), hash) + if events.last().1 == hash {
            1nat
        } else {
            0nat
        }
    }
}

/// How many blocks are due when the chain is committed up to
/// `highest_committed` and receipts went out up to `receipted`.
pub open spec fn spec_due(receipted: u64, highest_committed: Option<u64>) -> nat {
    match highest_committed {
        Some(h) if h > receipted => (h - receipted) as nat,
        _ => 0,
    }
}

/// How many of `offered` hashes a tick takes: no more than are due.
pub open spec fn spec_taken(receipted: u64, highest_committed: Option<u64>, offered: nat) -> nat {
    if offered <= spec_due(receipted, highest_committed) {
        offered
    } else {
        spec_due(receipted, highest_committed)
    }
}

/// A transaction whose originator is known and whose block is among those
/// seen gives exactly one event, with its originator, however often its hash
/// occurs; afterwards its originator is forgotten. A hash whose originator is
/// not known, or whose block is not among those seen, gives none.
pub proof fn lemma_watch_once(
    originators: Map<TransactionHash, PublicKeyBytes>,
    hashes: Seq<TransactionHash>,
    hash: TransactionHash,
)
    ensures
        ({
            let (left, events) = spec_watch(originators, hashes);
            let hit = originators.dom().contains(hash) && hashes.contains(hash);
            &&& spec_events_for(events, hash) == if hit {
                1nat
            } else {
                0nat
            }
            &&& left.dom().contains(hash) <==> originators.dom().contains(hash) && !hashes.contains(
                hash,
            )
            &&& left.dom().contains(hash) ==> left[hash] == originators[hash]
            &&& forall|i: int|
                0 <= i < events.len() && (#[trigger] events[i]).1 == hash ==> events[i].0
                    == originators[hash]
        }),
    decreases hashes.len(),
{
    if hashes.len() > 0 {
        let head = hashes.drop_last();
        lemma_watch_once(originators, head, hash);
        let (left0, events0) = spec_watch(originators, head);
        let (left, events) = spec_watch(originators, hashes);
        assert(hashes.contains(hash) <==> (head.contains(hash) || hashes.last() == hash)) by {
            if head.contains(hash) {
                let i = head.index_of(hash);
                assert(hashes[i] == hash);
            }
            if hashes.contains(hash) {
                let i = hashes.index_of(hash);
                if i < head.len() {
                    assert(head[i] == hash);
                }
            }
            assert(hashes[hashes.len() - 1] == hashes.last());
        }
        if left0.dom().contains(hashes.last()) {
            assert(events.drop_last() =~= events0);
        }
    }
}

/// The watcher of the committed chain.
pub struct CommitChecker {
    receipted_height: u64,
}

impl CommitChecker {
    /// Height up to which events went out.
    pub closed spec fn spec_receipted_height(&self) -> u64 {
        self.receipted_height
    }

    /// A watcher that has seen no block.
    pub fn new() -> (checker: Self)
        ensures
            checker.spec_receipted_height() == 0,
    {
        CommitChecker { receipted_height: 0 }
    }

    /// Height up to which events went out.
    pub fn receipted_height(&self) -> (height: u64)
        ensures
            height == self.spec_receipted_height(),
    {
        self.receipted_height
    }

    /// How many blocks are due, beginning at the height above
    /// `receipted_height()`.
    pub fn due(&self, highest_committed: Option<u64>) -> (count: u64)
        ensures
            count == spec_due(self.spec_receipted_height(), highest_committed),
    {
        match highest_committed {
            Some(h) => if h > self.receipted_height {
                h - self.receipted_height
            } else {
                0
            },
            None => 0,
        }
    }

    /// One tick. `hashes[i]` is the data hash of the committed block at height
    /// `receipted_height() + 1 + i`. The blocks that are due are taken in
    /// order: a hash with a known originator gives an event and loses its
    /// entry, any other is passed over. The height moves on by the number of
    /// blocks taken.
    pub fn run(
        &mut self,
        originators: &mut OriginatorMap,
        highest_committed: Option<u64>,
        hashes: &Vec<TransactionHash>,
    ) -> (events: Vec<CommitEvent>)
        requires
            old(originators).wf(),
        ensures
            final(originators).wf(),
            ({
                let taken = spec_taken(
                    old(self).spec_receipted_height(),
                    highest_committed,
                    hashes@.len(),
                );
                &&& final(self).spec_receipted_height() == old(self).spec_receipted_height()
                    + taken
                &&& (final(originators)@, events@) == spec_watch(
                    old(originators)@,
                    hashes@.take(taken as int),
                )
            }),
    {
        let due = self.due(highest_committed);
        let n: usize = if (hashes.len() as u64) <= due {
            hashes.len()
        } else {
            due as usize
        };
        let mut events: Vec<CommitEvent> = Vec::new();
        let mut i: usize = 0;
        while i < n
            invariant
                i <= n <= hashes.len(),
                originators.wf(),
                (originators@, events@) == spec_watch(old(originators)@, hashes@.take(i as int)),
            decreases n - i,
        {
            let hash = hashes[i];
            proof {
                assert(hashes@.take(i + 1).drop_last() =~= hashes@.take(i as int));
                assert(hashes@.take(i + 1).last() == hash);
            }
            match originators.remove(&hash) {
                Some(requester) => {
                    events.push((requester, hash));
                },
                None => {},
            }
            i += 1;
        }
        self.receipted_height = self.receipted_height + n as u64;
        events
    }
}

} // verus!
