//! The validator overlay: consensus messages travel between validators in
//! envelopes that name sender and recipient by public key.
//!
//! The overlay decides where an outgoing message goes and whether an incoming
//! frame is handed to the consensus library; the sockets belong to its caller.
//! The decisions are made on the serialized form of a consensus message.

use vstd::prelude::*;
use crate::message::{spec_decode_envelope, spec_encode_envelope, Envelope, EnvelopeView};
use crate::table::KeyTable;
use crate::types::{bytes32_eq, lemma_bytes32_views, PeerAddr, PublicKeyBytes};
use borsh::{BorshDeserialize, BorshSerialize};
use hotstuff_rs::messages::Message;
use hotstuff_rs::types::{ValidatorSet, ValidatorSetUpdates};
use std::hash::Hash;

verus! {

/// Voting power of a validator.
pub type Power = u64;

/// `hotstuff_rs::types::ValidatorSet`: the validators and their powers.
#[verifier::external_type_specification]
#[verifier::external_body]
pub struct ExValidatorSet(hotstuff_rs::types::ValidatorSet);

/// `hotstuff_rs::types::UpdateSet`: keys to insert with their values, and
/// keys to delete.
#[verifier::external_type_specification]
#[verifier::external_body]
#[verifier::reject_recursive_types(K)]
#[verifier::reject_recursive_types(V)]
pub struct ExUpdateSet<K: Eq + Hash, V: Eq + Hash>(hotstuff_rs::types::UpdateSet<K, V>);

/// `hotstuff_rs::messages::Message`: a message of the consensus protocol.
#[verifier::external_type_specification]
#[verifier::external_body]
pub struct ExMessage(hotstuff_rs::messages::Message);

/// The list of validators that a set holds, in the order in which the set
/// hands them out.
pub uninterp spec fn spec_validators(set: ValidatorSet) -> Seq<PublicKeyBytes>;

/// Whether a set is as the type's own methods `new`, `put`, `remove` and
/// `apply_updates` leave it: its list of validators ascending by public key
/// and without repeats, and holding exactly the keys of its map of powers. A
/// set that was read from bytes need not be so.
pub uninterp spec fn spec_validators_built(set: ValidatorSet) -> bool;

/// The validators that a set of updates inserts, with their powers.
pub uninterp spec fn spec_update_inserts(updates: ValidatorSetUpdates) -> Map<PublicKeyBytes, Power>;

/// The validators that a set of updates deletes.
pub uninterp spec fn spec_update_deletes(updates: ValidatorSetUpdates) -> Set<PublicKeyBytes>;

/// The validators after `updates`: those that were there and those inserted,
/// without those deleted.
pub open spec fn spec_updated(before: Set<PublicKeyBytes>, updates: ValidatorSetUpdates) -> Set<
    PublicKeyBytes,
> {
    before.union(spec_update_inserts(updates).dom()).difference(spec_update_deletes(updates))
}

/// `hotstuff_rs::types::ValidatorSet::new`: a set without validators, as the
/// type's methods leave it.
#[verifier::external_body]
fn validator_set_new() -> (set: ValidatorSet)
    ensures
        spec_validators(set) == Seq::<PublicKeyBytes>::empty(),
        spec_validators_built(set),
{
    ValidatorSet::new()
}

/// `hotstuff_rs::types::ValidatorSet::put` on a set that is as the type's
/// methods leave it: afterwards it is still so, and its validators are those
/// it had together with `validator`, each once. On another set the method may
/// panic or lose the list's order.
#[verifier::external_body]
fn validator_set_put(set: &mut ValidatorSet, validator: &PublicKeyBytes, power: Power)
    requires
        spec_validators_built(*old(set)),
    ensures
        spec_validators_built(*final(set)),
        spec_validators(*final(set)).to_set() == spec_validators(*old(set)).to_set().insert(
            *validator,
        ),
        spec_validators(*final(set)).no_duplicates(),
{
    set.put(validator, power);
}

/// `hotstuff_rs::types::ValidatorSet::apply_updates` on a set that is as the
/// type's methods leave it: it puts every inserted validator into the set,
/// then removes every deleted one. Afterwards the set is still so and holds
/// each of its validators once. On another set the method may panic or miss a
/// validator.
#[verifier::external_body]
fn validator_set_apply(set: &mut ValidatorSet, updates: &ValidatorSetUpdates)
    requires
        spec_validators_built(*old(set)),
    ensures
        spec_validators_built(*final(set)),
        spec_validators(*final(set)).to_set() == spec_validators(*old(set)).to_set().union(
            spec_update_inserts(*updates).dom(),
        ).difference(spec_update_deletes(*updates)),
        spec_validators(*final(set)).no_duplicates(),
{
    set.apply_updates(updates);
}

/// `hotstuff_rs::types::ValidatorSet::validators`: the set's list of
/// validators, in its order.
#[verifier::external_body]
fn validator_set_members(set: &ValidatorSet) -> (members: Vec<PublicKeyBytes>)
    ensures
        members@ == spec_validators(*set),
{
    set.validators().copied().collect()
}

/// `hotstuff_rs::types::ValidatorSet::power`: the power that the set's map
/// holds for `validator`, if it holds one. In a set that is as the type's
/// methods leave it, every validator of the list has a power.
#[verifier::external_body]
fn validator_set_power(set: &ValidatorSet, validator: &PublicKeyBytes) -> (power: Option<Power>)
    ensures
        spec_validators_built(*set) && spec_validators(*set).contains(*validator) ==> power
            is Some,
{
    set.power(validator).copied()
}

/// A set with the validators of `set` that have a power, each with its power,
/// made anew by the type's own methods.
fn validator_set_rebuilt(set: &ValidatorSet) -> (built: ValidatorSet)
    ensures
        spec_validators_built(built),
        spec_validators(built).no_duplicates(),
        spec_validators(built).to_set().subset_of(spec_validators(*set).to_set()),
        spec_validators_built(*set) ==> spec_validators(built).to_set() == spec_validators(
            *set,
        ).to_set(),
{
    let members = validator_set_members(set);
    let mut built = validator_set_new();
    let mut i: usize = 0;
    while i < members.len()
        invariant
            i <= members.len(),
            members@ == spec_validators(*set),
            spec_validators_built(built),
            spec_validators(built).no_duplicates(),
            spec_validators(built).to_set().subset_of(members@.to_set()),
            spec_validators_built(*set) ==> spec_validators(built).to_set() == members@.take(
                i as int,
            ).to_set(),
        decreases members.len() - i,
    {
        let ghost before = spec_validators(built).to_set();
        assert(members@.contains(members@[i as int]));
        match validator_set_power(set, &members[i]) {
            Some(power) => {
                validator_set_put(&mut built, &members[i], power);
            },
            None => {},
        }
        proof {
            let head = members@.take(i as int);
            let next = members@.take(i + 1);
            assert(next =~= head.push(members@[i as int]));
            assert forall|k: PublicKeyBytes| next.to_set().contains(k) <==> (head.to_set().contains(
                k,
            ) || k == members@[i as int]) by {
                if next.contains(k) {
                    let j = next.index_of(k);
                    assert(next[j] == k);
                    if j < i {
                        assert(head[j] == k);
                    }
                }
                if head.contains(k) {
                    let j = head.index_of(k);
                    assert(head[j] == k);
                    assert(next[j] == k);
                }
                assert(next[i as int] == members@[i as int]);
            }
            if spec_validators_built(*set) {
                assert(spec_validators(built).to_set() =~= next.to_set());
            }
        }
        i += 1;
    }
    assert(members@.take(i as int) =~= members@);
    built
}

/// The serialized form of a consensus message, as `borsh` writes it; nothing
/// for a message that it cannot write.
pub uninterp spec fn spec_message_bytes(message: Message) -> Option<Seq<u8>>;

/// `borsh::BorshSerialize::try_to_vec` on a consensus message: its serialized
/// form, or nothing when it cannot be serialized. Which of the two, and which
/// bytes, depends on the message alone.
#[verifier::external_body]
fn message_to_bytes(message: &Message) -> (bytes: Option<Vec<u8>>)
    ensures
        match bytes {
            Some(b) => spec_message_bytes(*message) == Some(b@),
            None => spec_message_bytes(*message) is None,
        },
{
    message.try_to_vec().ok()
}

/// The consensus message that `borsh` reads from the head of a byte string;
/// nothing for bytes that hold none.
pub uninterp spec fn spec_message_read(bytes: Seq<u8>) -> Option<Message>;

/// `borsh::BorshDeserialize::deserialize` of a consensus message from the head
/// of `bytes`, or nothing when the bytes hold none. Which of the two, and
/// which message, depends on the bytes alone.
#[verifier::external_body]
fn message_from_bytes(bytes: &Vec<u8>) -> (message: Option<Message>)
    ensures
        message == spec_message_read(bytes@),
{
    Message::deserialize(&mut bytes.as_slice()).ok()
}

/// What a node is configured with.
pub struct NetConfig {
    pub initial_peers: KeyTable<PublicKeyBytes, PeerAddr>,
    pub public_key: PublicKeyBytes,
    pub listen_addr: PeerAddr,
}

/// Where an outgoing message goes.
#[derive(Debug, Clone, PartialEq, Eq)]
pub enum Outbound {
    /// To the node itself: the frame goes straight onto its own receive queue.
    Loopback(Vec<u8>),
    /// To another validator: the frame goes to this address.
    Transmit(PeerAddr, Vec<u8>),
    /// The recipient has no known address: nothing is sent.
    Unroutable(PublicKeyBytes),
}

/// What becomes of an incoming frame.
#[derive(Debug, Clone, PartialEq, Eq)]
pub enum Inbound {
    /// The message is for this node: its sender and the consensus message.
    Deliver(PublicKeyBytes, Vec<u8>),
    /// The envelope names another recipient: the frame is dropped.
    NotMine(PublicKeyBytes),
    /// The frame holds no envelope: it is dropped.
    Malformed,
}

/// Mathematical form of an [`Outbound`].
pub enum OutboundView {
    Loopback(Seq<u8>),
    Transmit(PeerAddr, Seq<u8>),
    Unroutable(PublicKeyBytes),
}

/// Mathematical form of an [`Inbound`].
pub enum InboundView {
    Deliver(Seq<u8>, Seq<u8>),
    NotMine(Seq<u8>),
    Malformed,
}

impl View for Outbound {
    type V = OutboundView;

    open spec fn view(&self) -> OutboundView {
        match *self {
            Outbound::Loopback(frame) => OutboundView::Loopback(frame@),
            Outbound::Transmit(addr, frame) => OutboundView::Transmit(addr, frame@),
            Outbound::Unroutable(peer) => OutboundView::Unroutable(peer),
        }
    }
}

impl View for Inbound {
    type V = InboundView;

    open spec fn view(&self) -> InboundView {
        match *self {
            Inbound::Deliver(from, data) => InboundView::Deliver(from@, data@),
            Inbound::NotMine(to) => InboundView::NotMine(to@),
            Inbound::Malformed => InboundView::Malformed,
        }
    }
}

/// The frame that carries `message` from `from` to `to`.
pub open spec fn spec_frame(from: PublicKeyBytes, to: PublicKeyBytes, message: Seq<u8>) -> Seq<u8> {
    spec_encode_envelope(EnvelopeView { from: from@, to: to@, data: message })
}

/// Where the node `me` sends `message` for `peer`, knowing the addresses
/// `peers`.
pub open spec fn spec_send(
    me: PublicKeyBytes,
    peers: Map<PublicKeyBytes, PeerAddr>,
    peer: PublicKeyBytes,
    message: Seq<u8>,
) -> OutboundView {
    if peer == me {
        OutboundView::Loopback(spec_frame(me, peer, message))
    } else if peers.dom().contains(peer) {
        OutboundView::Transmit(peers[peer], spec_frame(me, peer, message))
    } else {
        OutboundView::Unroutable(peer)
    }
}

/// What the node `me` makes of an incoming frame.
pub open spec fn spec_recv(me: PublicKeyBytes, frame: Seq<u8>) -> InboundView {
    match spec_decode_envelope(frame) {
        None => InboundView::Malformed,
        Some(e) => if e.to == me@ {
            InboundView::Deliver(e.from, e.data)
        } else {
            InboundView::NotMine(e.to)
        },
    }
}

/// Whether `out` holds, for each of `members` in order, what `spec_send`
/// decides for `message`.
pub open spec fn spec_sent_to_all(
    out: Seq<Outbound>,
    me: PublicKeyBytes,
    peers: Map<PublicKeyBytes, PeerAddr>,
    members: Seq<PublicKeyBytes>,
    message: Seq<u8>,
) -> bool {
    &&& out.len() == members.len()
    &&& forall|i: int|
        0 <= i < out.len() ==> (#[trigger] out[i])@ == spec_send(me, peers, members[i], message)
}

/// A frame made for a recipient is delivered by that recipient, with the
/// sender and the message it was made from; every other node drops it.
pub proof fn lemma_frame_reaches_recipient(
    from: PublicKeyBytes,
    to: PublicKeyBytes,
    message: Seq<u8>,
    receiver: PublicKeyBytes,
)
    ensures
        receiver == to ==> spec_recv(receiver, spec_frame(from, to, message))
            == InboundView::Deliver(from@, message),
        receiver != to ==> spec_recv(receiver, spec_frame(from, to, message))
            == InboundView::NotMine(to@),
{
    crate::message::lemma_envelope_roundtrip(EnvelopeView { from: from@, to: to@, data: message });
    lemma_bytes32_views(receiver, to);
}

/// A message that a node sends to itself does not touch the network, and the
/// frame that is looped back is delivered to the node as coming from itself.
pub proof fn lemma_self_send(
    me: PublicKeyBytes,
    peers: Map<PublicKeyBytes, PeerAddr>,
    message: Seq<u8>,
)
    ensures
        spec_send(me, peers, me, message) == OutboundView::Loopback(spec_frame(me, me, message)),
        spec_recv(me, spec_frame(me, me, message)) == InboundView::Deliver(me@, message),
{
    lemma_frame_reaches_recipient(me, me, message, me);
}

/// What becomes of an incoming frame, with the consensus message read.
pub enum Received {
    /// A consensus message for this node, with its sender.
    Message(PublicKeyBytes, Message),
    /// An envelope for this node from this sender, around bytes that are no
    /// consensus message: the frame is dropped.
    Unreadable(PublicKeyBytes),
    /// The envelope names another recipient: the frame is dropped.
    NotMine(PublicKeyBytes),
    /// The frame holds no envelope: it is dropped.
    Malformed,
}

/// The overlay of one node.
pub struct NetworkImpl {
    validator_set: ValidatorSet,
    peer_addresses: KeyTable<PublicKeyBytes, PeerAddr>,
    my_publickey: PublicKeyBytes,
    listen_addr: PeerAddr,
}

impl NetworkImpl {
    /// The table of addresses is well formed, and the set of validators is
    /// as its type's methods leave it, with each validator once.
    pub closed spec fn wf(&self) -> bool {
        &&& self.peer_addresses.wf()
        &&& spec_validators_built(self.validator_set)
        &&& spec_validators(self.validator_set).no_duplicates()
    }

    /// The node's own public key.
    pub closed spec fn me(&self) -> PublicKeyBytes {
        self.my_publickey
    }

    /// Address of each peer; it never changes.
    pub closed spec fn peers(&self) -> Map<PublicKeyBytes, PeerAddr> {
        self.peer_addresses@
    }

    /// The validators in the order in which a broadcast reaches them.
    pub closed spec fn members(&self) -> Seq<PublicKeyBytes> {
        spec_validators(self.validator_set)
    }

    /// The address on which the node listens for its peers.
    pub closed spec fn spec_listen_addr(&self) -> PeerAddr {
        self.listen_addr
    }

    /// The overlay of the node that `config` describes, without validators.
    pub fn new(config: NetConfig) -> (network: Self)
        requires
            config.initial_peers.wf(),
        ensures
            network.wf(),
            network.me() == config.public_key,
            network.peers() == config.initial_peers@,
            network.spec_listen_addr() == config.listen_addr,
            network.members() == Seq::<PublicKeyBytes>::empty(),
    {
        NetworkImpl {
            validator_set: validator_set_new(),
            peer_addresses: config.initial_peers,
            my_publickey: config.public_key,
            listen_addr: config.listen_addr,
        }
    }

    /// The address on which the node listens for its peers.
    pub fn listen_addr(&self) -> (addr: PeerAddr)
        ensures
            addr == self.spec_listen_addr(),
    {
        self.listen_addr
    }

    /// The node's own public key.
    pub fn public_key(&self) -> (key: PublicKeyBytes)
        ensures
            key == self.me(),
    {
        self.my_publickey
    }

    /// The address of `peer`, if it is configured.
    pub fn address_of(&self, peer: &PublicKeyBytes) -> (addr: Option<PeerAddr>)
        requires
            self.wf(),
        ensures
            addr == if self.peers().dom().contains(*peer) {
                Some(self.peers()[*peer])
            } else {
                None
            },
    {
        match self.peer_addresses.get(peer) {
            Some(a) => Some(*a),
            None => None,
        }
    }

    /// The validators in the order in which a broadcast reaches them, each
    /// once.
    pub fn validators(&self) -> (members: Vec<PublicKeyBytes>)
        requires
            self.wf(),
        ensures
            members@ == self.members(),
            members@.no_duplicates(),
    {
        validator_set_members(&self.validator_set)
    }

    /// Puts the validators of `validator_set` in place of those known so far.
    /// The set is made anew from the validators of its list that have a power:
    /// of a set of any origin these are some of its list, each once, and of a
    /// set that is as its type's methods leave it they are all of its list.
    pub fn init_validator_set(&mut self, validator_set: ValidatorSet)
        requires
            old(self).wf(),
        ensures
            final(self).wf(),
            final(self).members().no_duplicates(),
            final(self).members().to_set().subset_of(spec_validators(validator_set).to_set()),
            spec_validators_built(validator_set) ==> final(self).members().to_set()
                == spec_validators(validator_set).to_set(),
            final(self).me() == old(self).me(),
            final(self).peers() == old(self).peers(),
            final(self).spec_listen_addr() == old(self).spec_listen_addr(),
    {
        self.validator_set = validator_set_rebuilt(&validator_set);
    }

    /// Applies `updates` to the validators: the inserted ones join, the
    /// deleted ones leave.
    pub fn update_validator_set(&mut self, updates: &ValidatorSetUpdates)
        requires
            old(self).wf(),
        ensures
            final(self).wf(),
            final(self).members().to_set() == spec_updated(old(self).members().to_set(), *updates),
            final(self).members().no_duplicates(),
            final(self).me() == old(self).me(),
            final(self).peers() == old(self).peers(),
            final(self).spec_listen_addr() == old(self).spec_listen_addr(),
    {
        validator_set_apply(&mut self.validator_set, updates);
    }

    /// Decides where the serialized message `message` for `peer` goes: back to
    /// the node itself, to the peer's address, or nowhere when the peer has no
    /// known address. The frame is the envelope from this node to `peer`
    /// around `message`.
    pub fn route(&self, peer: PublicKeyBytes, message: &Vec<u8>) -> (out: Outbound)
        requires
            self.wf(),
        ensures
            out@ == spec_send(self.me(), self.peers(), peer, message@),
    {
        if bytes32_eq(&peer, &self.my_publickey) {
            let envelope = Envelope { from: self.my_publickey, to: peer, data: message.clone() };
            Outbound::Loopback(envelope.encode())
        } else {
            match self.peer_addresses.get(&peer) {
                Some(addr) => {
                    let envelope = Envelope {
                        from: self.my_publickey,
                        to: peer,
                        data: message.clone(),
                    };
                    Outbound::Transmit(*addr, envelope.encode())
                },
                None => Outbound::Unroutable(peer),
            }
        }
    }

    /// Routes the serialized message `message` to every validator, in the
    /// order of `members()`; each is decided on its own, as `route` decides it.
    pub fn route_all(&self, message: &Vec<u8>) -> (out: Vec<Outbound>)
        requires
            self.wf(),
        ensures
            spec_sent_to_all(out@, self.me(), self.peers(), self.members(), message@),
    {
        let members = self.validators();
        let mut out: Vec<Outbound> = Vec::new();
        let mut i: usize = 0;
        while i < members.len()
            invariant
                i <= members.len(),
                self.wf(),
                members@ == self.members(),
                out@.len() == i,
                forall|j: int|
                    0 <= j < i ==> (#[trigger] out@[j])@ == spec_send(
                        self.me(),
                        self.peers(),
                        self.members()[j],
                        message@,
                    ),
            decreases members.len() - i,
        {
            out.push(self.route(members[i], message));
            i += 1;
        }
        out
    }

    /// Judges an incoming frame: the serialized message of an envelope
    /// addressed to this node is delivered with its sender; an envelope for
    /// another node and a frame without an envelope are dropped.
    pub fn accept(&self, frame: &Vec<u8>) -> (inbound: Inbound)
        ensures
            inbound@ == spec_recv(self.me(), frame@),
    {
        match Envelope::decode(frame) {
            None => Inbound::Malformed,
            Some(envelope) => {
                if bytes32_eq(&envelope.to, &self.my_publickey) {
                    Inbound::Deliver(envelope.from, envelope.data)
                } else {
                    proof {
                        lemma_bytes32_views(envelope.to, self.my_publickey);
                    }
                    Inbound::NotMine(envelope.to)
                }
            },
        }
    }

    /// Serializes `message` and routes it to `peer`: the decision is the one
    /// that `route` makes for the serialized message. A message that cannot be
    /// serialized goes nowhere.
    pub fn send(&self, peer: PublicKeyBytes, message: &Message) -> (out: Option<Outbound>)
        requires
            self.wf(),
        ensures
            match spec_message_bytes(*message) {
                Some(bytes) => out is Some && out.unwrap()@ == spec_send(
                    self.me(),
                    self.peers(),
                    peer,
                    bytes,
                ),
                None => out is None,
            },
    {
        match message_to_bytes(message) {
            Some(bytes) => Some(self.route(peer, &bytes)),
            None => None,
        }
    }

    /// Serializes `message` and routes it to every validator, in the order of
    /// `members()`: the decisions are those that `route_all` makes for the
    /// serialized message. A message that cannot be serialized goes nowhere.
    pub fn broadcast(&self, message: &Message) -> (out: Option<Vec<Outbound>>)
        requires
            self.wf(),
        ensures
            match spec_message_bytes(*message) {
                Some(bytes) => out is Some && spec_sent_to_all(
                    out.unwrap()@,
                    self.me(),
                    self.peers(),
                    self.members(),
                    bytes,
                ),
                None => out is None,
            },
    {
        match message_to_bytes(message) {
            Some(bytes) => {
                let routed = Some(self.route_all(&bytes));
                assert(spec_sent_to_all(
                    routed.unwrap()@,
                    self.me(),
                    self.peers(),
                    self.members(),
                    bytes@,
                ));
                routed
            },
            None => None,
        }
    }

    /// Judges an incoming frame and reads the consensus message that it
    /// carries for this node: an envelope addressed to this node whose payload
    /// holds a consensus message gives that message with the envelope's
    /// sender; one whose payload holds none is unreadable; an envelope for
    /// another node and a frame without an envelope are dropped as `accept`
    /// drops them.
    pub fn recv(&self, frame: &Vec<u8>) -> (received: Received)
        ensures
            match spec_recv(self.me(), frame@) {
                InboundView::Deliver(sender, payload) => match spec_message_read(payload) {
                    Some(message) => received matches Received::Message(from, got) && from@
                        == sender && got == message,
                    None => received matches Received::Unreadable(from) && from@ == sender,
                },
                InboundView::NotMine(recipient) => received matches Received::NotMine(to) && to@
                    == recipient,
                InboundView::Malformed => received is Malformed,
            },
    {
        match self.accept(frame) {
            Inbound::Deliver(from, data) => match message_from_bytes(&data) {
                Some(message) => Received::Message(from, message),
                None => Received::Unreadable(from),
            },
            Inbound::NotMine(to) => Received::NotMine(to),
            Inbound::Malformed => Received::Malformed,
        }
    }
}

} // verus!
