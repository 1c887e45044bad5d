//! The client's rules: how many receipts commit a transaction, when a new
//! transaction is made, and what goes to which node.

use vstd::prelude::*;
use crate::message::{
    spec_decode_receipt, spec_encode_request, NewTransactionRequest, TransactionReceipt,
};
use crate::transaction::{
    spec_collect, spec_outcome, spec_sha256, spec_track, CommitOutcome, ManagerView, Timestamp,
    TransactionManager, PAYLOAD_LEN,
};
use crate::types::{PeerAddr, PublicKeyBytes};

verus! {

/// Most transactions that the client keeps in flight.
pub const PENDING_TRANSACTIONS: u64 = 10;

/// Receipts that commit a transaction in a network of `n` validators: more
/// than two thirds of them.
pub open spec fn spec_quorum(n: nat) -> nat {
    2 * n / 3 + 1
}

/// The quorum of a network of `validators` validators.
pub fn quorum_for(validators: u64) -> (quorum: u64)
    ensures
        quorum == spec_quorum(validators as nat),
{
    let thirds = validators / 3;
    let rest = validators % 3;
    thirds * 2 + (rest * 2) / 3 + 1
}

/// A client: its books, without its sockets.
pub struct Client {
    pub transaction_manager: TransactionManager,
}

impl Client {
    /// The books are in order.
    pub open spec fn wf(&self) -> bool {
        self.transaction_manager.wf()
    }

    /// A client with the key `pubkey` that talks to `nodes` validators.
    pub fn new(nodes: u64, pubkey: PublicKeyBytes) -> (client: Self)
        ensures
            client.wf(),
            client.transaction_manager@ == (ManagerView {
                quorum: spec_quorum(nodes as nat) as u64,
                sequence_number: 0,
                pending: Map::empty(),
                committed: Map::empty(),
                pubkey,
                generated: Map::empty(),
            }),
    {
        Client { transaction_manager: TransactionManager::new(quorum_for(nodes), pubkey) }
    }

    /// Whether fewer than [`PENDING_TRANSACTIONS`] transactions are in flight.
    pub fn wants_transaction(&self) -> (wanted: bool)
        requires
            self.wf(),
        ensures
            wanted == (self.transaction_manager@.pending.dom().len() < PENDING_TRANSACTIONS),
    {
        self.transaction_manager.pending_sum() < PENDING_TRANSACTIONS
    }

    /// Makes the next transaction, unless [`PENDING_TRANSACTIONS`] are in
    /// flight already: then nothing is made and nothing changes.
    pub fn next_transaction(&mut self) -> (request: Option<NewTransactionRequest>)
        requires
            old(self).wf(),
        ensures
            final(self).wf(),
            request is Some <==> old(self).transaction_manager@.pending.dom().len()
                < PENDING_TRANSACTIONS,
            request is None ==> final(self).transaction_manager@ == old(
                self,
            ).transaction_manager@,
            request matches Some(r) ==> {
                &&& r.data@.len() == PAYLOAD_LEN
                &&& r.hash@ == spec_sha256(r.data@)
                &&& r.requester == old(self).transaction_manager@.pubkey
                &&& exists|now: Timestamp|
                    final(self).transaction_manager@ == spec_track(
                        old(self).transaction_manager@,
                        r.hash,
                        r.data@,
                        now,
                    )
            },
    {
        if self.wants_transaction() {
            Some(self.transaction_manager.generate_transaction())
        } else {
            None
        }
    }

    /// Takes a frame that a node sent at time `now`. A frame that holds a
    /// receipt is booked; any other frame changes nothing.
    pub fn on_frame_at(&mut self, frame: &Vec<u8>, now: Timestamp) -> (outcome: Option<
        (TransactionReceipt, CommitOutcome),
    >)
        requires
            old(self).wf(),
        ensures
            final(self).wf(),
            match outcome {
                Some((receipt, done)) => {
                    &&& spec_decode_receipt(frame@) == Some(receipt@)
                    &&& done == spec_outcome(old(self).transaction_manager@, receipt.hash)
                    &&& final(self).transaction_manager@ == spec_collect(
                        old(self).transaction_manager@,
                        receipt.hash,
                        now,
                    )
                },
                None => {
                    &&& spec_decode_receipt(frame@) is None
                    &&& final(self).transaction_manager@ == old(self).transaction_manager@
                },
            },
    {
        match TransactionReceipt::decode(frame) {
            Some(receipt) => {
                let done = self.transaction_manager.collect_commit_at(&receipt, now);
                Some((receipt, done))
            },
            None => None,
        }
    }

    /// Takes a frame that a node sent, at the current time.
    pub fn on_frame(&mut self, frame: &Vec<u8>) -> (outcome: Option<
        (TransactionReceipt, CommitOutcome),
    >)
        requires
            old(self).wf(),
        ensures
            final(self).wf(),
            match outcome {
                Some((receipt, done)) => {
                    &&& spec_decode_receipt(frame@) == Some(receipt@)
                    &&& done == spec_outcome(old(self).transaction_manager@, receipt.hash)
                    &&& exists|now: Timestamp|
                        final(self).transaction_manager@ == spec_collect(
                            old(self).transaction_manager@,
                            receipt.hash,
                            now,
                        )
                },
                None => {
                    &&& spec_decode_receipt(frame@) is None
                    &&& final(self).transaction_manager@ == old(self).transaction_manager@
                },
            },
    {
        match TransactionReceipt::decode(frame) {
            Some(receipt) => {
                let done = self.transaction_manager.collect_commit(receipt);
                Some((receipt, done))
            },
            None => None,
        }
    }
}

/// The frames that carry `request` to every node: one per node, in the order
/// of `nodes`, each holding the encoded request.
pub fn fan_out(request: &NewTransactionRequest, nodes: &Vec<PeerAddr>) -> (frames: Vec<
    (PeerAddr, Vec<u8>),
>)
    ensures
        frames@.len() == nodes@.len(),
        forall|i: int|
            0 <= i < nodes@.len() ==> (#[trigger] frames@[i]).0 == nodes@[i] && frames@[i].1@
                == spec_encode_request(request@),
{
    let mut frames: Vec<(PeerAddr, Vec<u8>)> = Vec::new();
    let mut i: usize = 0;
    while i < nodes.len()
        invariant
            i <= nodes.len(),
            frames@.len() == i,
            forall|j: int|
                0 <= j < i ==> (#[trigger] frames@[j]).0 == nodes@[j] && frames@[j].1@
                    == spec_encode_request(request@),
        decreases nodes.len() - i,
    {
        frames.push((nodes[i], request.encode()));
        i += 1;
    }
    frames
}

} // verus!
