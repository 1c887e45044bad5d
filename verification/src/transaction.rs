//! The client's bookkeeping of its transactions: those in flight with the
//! receipts seen so far, and those that a quorum of validators has confirmed.

use vstd::prelude::*;
use crate::message::{NewTransactionRequest, TransactionReceipt};
use crate::table::KeyTable;
use crate::types::{PublicKeyBytes, TransactionHash};
use rand::Rng;
use sha2::Digest;

verus! {

/// Length in bytes of the payload of a generated transaction.
pub const PAYLOAD_LEN: usize = 128;

/// Times are milliseconds since the Unix epoch.
pub type Timestamp = i64;

/// The SHA-256 digest of a byte string, as the `sha2` crate computes it.
pub uninterp spec fn spec_sha256(data: Seq<u8>) -> Seq<u8>;

/// `sha2::Sha256::digest`: the 32-byte SHA-256 digest of `data`. The digest
/// depends on the bytes of `data` alone.
#[verifier::external_body]
pub(crate) fn sha256(data: &Vec<u8>) -> (digest: [u8; 32])
    ensures
        digest@ == spec_sha256(data@),
{
    sha2::Sha256::digest(data).into()
}

/// `rand::thread_rng` and `rand::Rng::fill`: `len` bytes from the thread's
/// random generator. Nothing is known of the bytes but their number.
#[verifier::external_body]
pub(crate) fn generate_random_bytes(len: usize) -> (bytes: Vec<u8>)
    ensures
        bytes@.len() == len,
{
    let mut rng = rand::thread_rng();
    let mut result = vec![0; len];
    rng.fill(&mut result[..]);
    result
}

/// `chrono::Local::now` and `DateTime::timestamp_millis`: the time of the
/// call. Nothing is known of it.
#[verifier::external_body]
pub(crate) fn now_millis() -> Timestamp {
    chrono::Local::now().timestamp_millis()
}

/// What a receipt did to the books.
#[derive(Debug, Clone, Copy, PartialEq, Eq, Structural)]
pub enum CommitOutcome {
    /// The receipt was counted; the quorum is not reached yet.
    Counted,
    /// The receipt brought the count to the quorum; the transaction is committed.
    Finalized,
    /// No transaction in flight has the receipt's hash.
    Unknown,
}

/// Mathematical form of a [`TransactionManager`].
pub struct ManagerView {
    pub quorum: u64,
    pub sequence_number: u64,
    /// Start time and receipts seen, by hash.
    pub pending: Map<TransactionHash, (Timestamp, u64)>,
    /// Start time and commit time, by hash.
    pub committed: Map<TransactionHash, (Timestamp, Timestamp)>,
    pub pubkey: PublicKeyBytes,
    /// The payload of every transaction that was ever tracked, by hash.
    pub generated: Map<TransactionHash, Seq<u8>>,
}

impl ManagerView {
    /// What the books always satisfy: a transaction in flight is short of the
    /// quorum, none is in flight and committed at once, and each one on the
    /// books has a recorded payload whose digest is its hash.
    pub open spec fn wf(self) -> bool {
        &&& forall|h: TransactionHash| #[trigger]
            self.pending.dom().contains(h) ==> self.pending[h].1 < self.quorum
                || self.pending[h].1 == 0
        &&& forall|h: TransactionHash| #[trigger]
            self.pending.dom().contains(h) ==> !self.committed.dom().contains(h)
        &&& forall|h: TransactionHash| #[trigger]
            self.pending.dom().contains(h) ==> self.generated.dom().contains(h)
        &&& forall|h: TransactionHash| #[trigger]
            self.committed.dom().contains(h) ==> self.generated.dom().contains(h)
        &&& forall|h: TransactionHash| #[trigger]
            self.generated.dom().contains(h) ==> spec_sha256(self.generated[h]) == h@
    }
}

/// The books after a transaction with payload `data` and digest `hash` was
/// taken on at time `now`: it is in flight with no receipt seen, whatever the
/// books held under its hash before.
pub open spec fn spec_track(s: ManagerView, hash: TransactionHash, data: Seq<u8>, now: Timestamp)
    -> ManagerView {
    ManagerView {
        sequence_number: if s.sequence_number == u64::MAX {
            0
        } else {
            (s.sequence_number + 1) as u64
        },
        pending: s.pending.insert(hash, (now, 0)),
        committed: s.committed.remove(hash),
        generated: s.generated.insert(hash, data),
        ..s
    }
}

/// Whether a receipt for `hash` is the one that completes the quorum.
pub open spec fn spec_finalizes(s: ManagerView, hash: TransactionHash) -> bool {
    s.pending.dom().contains(hash) && s.pending[hash].1 + 1 >= s.quorum
}

/// What a receipt for `hash` does.
pub open spec fn spec_outcome(s: ManagerView, hash: TransactionHash) -> CommitOutcome {
    if !s.pending.dom().contains(hash) {
        CommitOutcome::Unknown
    } else if spec_finalizes(s, hash) {
        CommitOutcome::Finalized
    } else {
        CommitOutcome::Counted
    }
}

/// The books after a receipt for `hash` arrived at time `now`. A receipt for a
/// transaction in flight counts; the one that brings the count to the quorum
/// moves the transaction to the committed ones. Any other receipt changes
/// nothing.
pub open spec fn spec_collect(s: ManagerView, hash: TransactionHash, now: Timestamp)
    -> ManagerView {
    if !s.pending.dom().contains(hash) {
        s
    } else if spec_finalizes(s, hash) {
        ManagerView {
            pending: s.pending.remove(hash),
            committed: s.committed.insert(hash, (s.pending[hash].0, now)),
            ..s
        }
    } else {
        ManagerView {
            pending: s.pending.insert(hash, (s.pending[hash].0, (s.pending[hash].1 + 1) as u64)),
            ..s
        }
    }
}

/// The books after receipts for `hash` arrived at the times `times`, in order.
pub open spec fn spec_collect_all(s: ManagerView, hash: TransactionHash, times: Seq<Timestamp>)
    -> ManagerView
    decreases times.len(),
{
    if times.len() == 0 {
        s
    } else {
        spec_collect(spec_collect_all(s, hash, times.drop_last()), hash, times.last())
    }
}

/// Taking a transaction on keeps the books in order.
pub proof fn lemma_track_wf(s: ManagerView, hash: TransactionHash, data: Seq<u8>, now: Timestamp)
    requires
        s.wf(),
        hash@ == spec_sha256(data),
    ensures
        spec_track(s, hash, data, now).wf(),
{
}

/// A receipt keeps the books in order.
pub proof fn lemma_collect_wf(s: ManagerView, hash: TransactionHash, now: Timestamp)
    requires
        s.wf(),
    ensures
        spec_collect(s, hash, now).wf(),
{
}

/// Every committed transaction was taken on by this client: its payload is on
/// record, and the SHA-256 digest of that payload is its hash.
pub proof fn lemma_committed_was_generated(s: ManagerView, hash: TransactionHash)
    requires
        s.wf(),
        s.committed.dom().contains(hash),
    ensures
        s.generated.dom().contains(hash),
        spec_sha256(s.generated[hash]) == hash@,
{
}

/// A receipt moves a transaction from the ones in flight to the committed
/// ones exactly when it brings the count of receipts seen to the quorum; it
/// moves no other transaction, and a committed one stays committed.
pub proof fn lemma_finalized_on_quorum(
    s: ManagerView,
    hash: TransactionHash,
    now: Timestamp,
    other: TransactionHash,
)
    requires
        s.wf(),
    ensures
        ({
            let t = spec_collect(s, hash, now);
            &&& (s.pending.dom().contains(hash) && t.committed.dom().contains(hash)) <==> (
            s.pending.dom().contains(hash) && s.pending[hash].1 + 1 >= s.quorum)
            &&& other != hash ==> t.pending.dom().contains(other) == s.pending.dom().contains(
                other,
            ) && t.committed.dom().contains(other) == s.committed.dom().contains(other)
            &&& s.committed.dom().contains(other) ==> t.committed.dom().contains(other)
                && t.committed[other] == s.committed[other]
        }),
{
}

/// The number of transactions in flight falls by one with the receipt that
/// commits a transaction and with no other receipt, and rises by one with a
/// transaction that is taken on, unless one with its hash was in flight
/// already. So a client that stops at a cap can go on only after a commit.
pub proof fn lemma_in_flight_count(
    s: ManagerView,
    hash: TransactionHash,
    data: Seq<u8>,
    now: Timestamp,
)
    requires
        s.wf(),
        s.pending.dom().finite(),
    ensures
        spec_collect(s, hash, now).pending.dom().finite(),
        spec_collect(s, hash, now).pending.dom().len() == if spec_finalizes(s, hash) {
            s.pending.dom().len() - 1
        } else {
            s.pending.dom().len() as int
        },
        spec_track(s, hash, data, now).pending.dom().finite(),
        spec_track(s, hash, data, now).pending.dom().len() == if s.pending.dom().contains(hash) {
            s.pending.dom().len()
        } else {
            s.pending.dom().len() + 1
        },
{
    let collected = spec_collect(s, hash, now).pending.dom();
    let taken_on = spec_track(s, hash, data, now).pending.dom();
    assert(taken_on =~= s.pending.dom().insert(hash));
    if spec_finalizes(s, hash) {
        assert(collected =~= s.pending.dom().remove(hash));
    } else {
        assert(collected =~= s.pending.dom());
    }
}

/// A transaction in flight with no receipt seen stays in flight, with the
/// receipts counted, while fewer than the quorum have arrived. The receipt that
/// completes the quorum commits it with that receipt's time, and later ones
/// change nothing.
pub proof fn lemma_quorum_progress(s: ManagerView, hash: TransactionHash, times: Seq<Timestamp>)
    requires
        s.wf(),
        s.quorum >= 1,
        s.pending.dom().contains(hash),
        s.pending[hash].1 == 0,
    ensures
        ({
            let t = spec_collect_all(s, hash, times);
            &&& t.wf()
            &&& times.len() < s.quorum ==> t.pending.dom().contains(hash) && t.pending[hash] == (
                s.pending[hash].0,
                times.len() as u64,
            ) && !t.committed.dom().contains(hash)
            &&& times.len() >= s.quorum ==> !t.pending.dom().contains(hash)
                && t.committed.dom().contains(hash) && t.committed[hash] == (
                s.pending[hash].0,
                times[s.quorum - 1],
            )
            &&& t.quorum == s.quorum
        }),
    decreases times.len(),
{
    if times.len() > 0 {
        lemma_quorum_progress(s, hash, times.drop_last());
        let before = spec_collect_all(s, hash, times.drop_last());
        lemma_collect_wf(before, hash, times.last());
    }
}

/// The client's books.
#[derive(Clone)]
pub struct TransactionManager {
    quorum: u64,
    sequence_number: u64,
    pending_transactions: KeyTable<TransactionHash, (Timestamp, u64)>,
    commited_transactions: KeyTable<TransactionHash, (Timestamp, Timestamp)>,
    pubkey: PublicKeyBytes,
    generated: Ghost<Map<TransactionHash, Seq<u8>>>,
}

impl View for TransactionManager {
    type V = ManagerView;

    closed spec fn view(&self) -> ManagerView {
        ManagerView {
            quorum: self.quorum,
            sequence_number: self.sequence_number,
            pending: self.pending_transactions@,
            committed: self.commited_transactions@,
            pubkey: self.pubkey,
            generated: self.generated@,
        }
    }
}

impl TransactionManager {
    /// The books are in order.
    pub closed spec fn wf(&self) -> bool {
        &&& self.pending_transactions.wf()
        &&& self.commited_transactions.wf()
        &&& self@.wf()
    }

    /// The books being in order means what [`ManagerView::wf`] says.
    pub proof fn lemma_wf(&self)
        requires
            self.wf(),
        ensures
            self@.wf(),
            self@.pending.dom().finite(),
            self@.committed.dom().finite(),
    {
        self.pending_transactions.lemma_domain();
        self.commited_transactions.lemma_domain();
    }

    /// Empty books for the client `pubkey`, whose transactions need `quorum`
    /// receipts.
    pub fn new(quorum: u64, pubkey: PublicKeyBytes) -> (manager: Self)
        ensures
            manager.wf(),
            manager@ == (ManagerView {
                quorum,
                sequence_number: 0,
                pending: Map::empty(),
                committed: Map::empty(),
                pubkey,
                generated: Map::empty(),
            }),
    {
        TransactionManager {
            quorum,
            sequence_number: 0,
            pending_transactions: KeyTable::new(),
            commited_transactions: KeyTable::new(),
            pubkey,
            generated: Ghost(Map::empty()),
        }
    }

    /// Takes on a transaction whose payload and digest are given.
    fn register(&mut self, data: Vec<u8>, hash: TransactionHash, now: Timestamp) -> (request:
        NewTransactionRequest)
        requires
            old(self).wf(),
            hash@ == spec_sha256(data@),
        ensures
            final(self).wf(),
            final(self)@ == spec_track(old(self)@, hash, data@, now),
            request.requester == old(self)@.pubkey,
            request.hash == hash,
            request.data == data,
    {
        proof {
            lemma_track_wf(self@, hash, data@, now);
        }
        self.sequence_number = self.sequence_number.wrapping_add(1);
        self.pending_transactions.insert(hash, (now, 0));
        self.commited_transactions.remove(&hash);
        self.generated = Ghost(self.generated@.insert(hash, data@));
        NewTransactionRequest { requester: self.pubkey, hash, data }
    }

    /// Takes on a transaction with the payload `data` at time `now`: computes
    /// its hash, books it as in flight with no receipt seen, and returns the
    /// request to send.
    pub fn track(&mut self, data: Vec<u8>, now: Timestamp) -> (request: NewTransactionRequest)
        requires
            old(self).wf(),
        ensures
            final(self).wf(),
            request.hash@ == spec_sha256(data@),
            request.requester == old(self)@.pubkey,
            request.data == data,
            final(self)@ == spec_track(old(self)@, request.hash, data@, now),
    {
        let hash = sha256(&data);
        self.register(data, hash, now)
    }

    /// Makes a transaction with a random payload of [`PAYLOAD_LEN`] bytes and
    /// takes it on at the current time.
    pub fn generate_transaction(&mut self) -> (request: NewTransactionRequest)
        requires
            old(self).wf(),
        ensures
            final(self).wf(),
            request.data@.len() == PAYLOAD_LEN,
            request.hash@ == spec_sha256(request.data@),
            request.requester == old(self)@.pubkey,
            exists|now: Timestamp| final(self)@ == spec_track(
                old(self)@,
                request.hash,
                request.data@,
                now,
            ),
    {
        let data = generate_random_bytes(PAYLOAD_LEN);
        let now = now_millis();
        self.track(data, now)
    }

    /// Books a receipt that arrived at time `now`.
    pub fn collect_commit_at(&mut self, receipt: &TransactionReceipt, now: Timestamp) -> (outcome:
        CommitOutcome)
        requires
            old(self).wf(),
        ensures
            final(self).wf(),
            final(self)@ == spec_collect(old(self)@, receipt.hash, now),
            outcome == spec_outcome(old(self)@, receipt.hash),
    {
        proof {
            lemma_collect_wf(self@, receipt.hash, now);
        }
        let entry = match self.pending_transactions.get(&receipt.hash) {
            Some(e) => Some(*e),
            None => None,
        };
        match entry {
            None => CommitOutcome::Unknown,
            Some((start, seen)) => {
                if seen >= self.quorum || seen + 1 >= self.quorum {
                    self.pending_transactions.remove(&receipt.hash);
                    self.commited_transactions.insert(receipt.hash, (start, now));
                    CommitOutcome::Finalized
                } else {
                    self.pending_transactions.insert(receipt.hash, (start, seen + 1));
                    CommitOutcome::Counted
                }
            },
        }
    }

    /// Books a receipt at the current time.
    pub fn collect_commit(&mut self, receipt: TransactionReceipt) -> (outcome: CommitOutcome)
        requires
            old(self).wf(),
        ensures
            final(self).wf(),
            outcome == spec_outcome(old(self)@, receipt.hash),
            exists|now: Timestamp| final(self)@ == spec_collect(old(self)@, receipt.hash, now),
    {
        let now = now_millis();
        self.collect_commit_at(&receipt, now)
    }

    /// Number of transactions in flight.
    pub fn pending_sum(&self) -> (n: u64)
        requires
            self.wf(),
        ensures
            n == self@.pending.dom().len(),
    {
        self.pending_transactions.len() as u64
    }

    /// Number of committed transactions.
    pub fn commited_sum(&self) -> (n: u64)
        requires
            self.wf(),
        ensures
            n == self@.committed.dom().len(),
    {
        self.commited_transactions.len() as u64
    }

    /// Start time and number of receipts seen of a transaction in flight.
    pub fn pending(&self, hash: &TransactionHash) -> (entry: Option<(Timestamp, u64)>)
        requires
            self.wf(),
        ensures
            entry == if self@.pending.dom().contains(*hash) {
                Some(self@.pending[*hash])
            } else {
                None
            },
    {
        match self.pending_transactions.get(hash) {
            Some(e) => Some(*e),
            None => None,
        }
    }

    /// Start time and commit time of a committed transaction.
    pub fn commited(&self, hash: &TransactionHash) -> (entry: Option<(Timestamp, Timestamp)>)
        requires
            self.wf(),
        ensures
            entry == if self@.committed.dom().contains(*hash) {
                Some(self@.committed[*hash])
            } else {
                None
            },
    {
        match self.commited_transactions.get(hash) {
            Some(e) => Some(*e),
            None => None,
        }
    }

    /// Number of receipts that commit a transaction.
    pub fn quorum(&self) -> (q: u64)
        ensures
            q == self@.quorum,
    {
        self.quorum
    }

    /// Number of transactions taken on so far; it wraps around.
    pub fn sequence_number(&self) -> (n: u64)
        ensures
            n == self@.sequence_number,
    {
        self.sequence_number
    }

    /// The client's public key.
    pub fn pubkey(&self) -> (key: PublicKeyBytes)
        ensures
            key == self@.pubkey,
    {
        self.pubkey
    }
}

} // verus!
