use dash_plat::client_actor::{ClientActor, CommitChecker, OriginatorMap};
use dash_plat::message::{NewTransactionRequest, TransactionReceipt, TransactionResult};
use dash_plat::network::{Inbound, NetConfig, NetworkImpl, Outbound, Received};
use dash_plat::table::KeyTable;
use dash_plat::transaction::TransactionManager;
use dash_plat::types::PeerAddr;
use hotstuff_rs::messages::{Message as HsMessage, ProgressMessage, Proposal};
use hotstuff_rs::types::{Block, QuorumCertificate, ValidatorSet, ValidatorSetUpdates};

const NODE: [u8; 32] = [0xa0; 32];
const CLIENT: [u8; 32] = [0xc0; 32];

fn addr(port: u16) -> PeerAddr {
    PeerAddr { ip: 0x0000_ffff_7f00_0001, port }
}

fn hash(n: u8) -> [u8; 32] {
    [n; 32]
}

fn honest_request(requester: [u8; 32], data: Vec<u8>) -> NewTransactionRequest {
    TransactionManager::new(1, requester).track(data, 0)
}

fn overlay(me: [u8; 32], port: u16, peers: &[([u8; 32], u16)]) -> NetworkImpl {
    let mut initial_peers = KeyTable::new();
    for (key, port) in peers {
        initial_peers.insert(*key, addr(*port));
    }
    NetworkImpl::new(NetConfig {
        initial_peers,
        public_key: me,
        listen_addr: addr(port),
    })
}

#[test]
fn request_is_accepted_and_its_origin_noted() {
    let mut actor = ClientActor::new(NODE);
    let mut originators = OriginatorMap::new();
    let request = honest_request(CLIENT, vec![1, 2, 3]);
    let accepted = actor.on_request(&mut originators, addr(4000), &request.encode());
    assert_eq!(accepted, Some(request.clone()));
    assert_eq!(actor.address_of(&CLIENT), Some(addr(4000)));
    assert_eq!(originators.get(&request.hash), Some(&CLIENT));
    assert_eq!(originators.len(), 1);
}

#[test]
fn later_request_moves_the_requester_address() {
    let mut actor = ClientActor::new(NODE);
    let mut originators = OriginatorMap::new();
    let first = honest_request(CLIENT, vec![1]);
    let second = honest_request(CLIENT, vec![2]);
    actor.on_request(&mut originators, addr(4000), &first.encode());
    actor.on_request(&mut originators, addr(4010), &second.encode());
    assert_eq!(actor.address_of(&CLIENT), Some(addr(4010)));
    assert_eq!(originators.len(), 2);
}

#[test]
fn request_with_a_wrong_hash_is_dropped() {
    let mut actor = ClientActor::new(NODE);
    let mut originators = OriginatorMap::new();
    let mut request = honest_request(CLIENT, vec![1, 2, 3]);
    request.hash[0] ^= 1;
    assert_eq!(actor.on_request(&mut originators, addr(4000), &request.encode()), None);
    assert_eq!(actor.address_of(&CLIENT), None);
    assert_eq!(originators.len(), 0);
}

#[test]
fn malformed_request_frame_is_dropped() {
    let mut actor = ClientActor::new(NODE);
    let mut originators = OriginatorMap::new();
    assert_eq!(actor.on_request(&mut originators, addr(4000), &vec![0u8; 10]), None);
    assert_eq!(originators.len(), 0);
}

#[test]
fn commit_is_answered_with_a_receipt_of_this_node() {
    let mut actor = ClientActor::new(NODE);
    let mut originators = OriginatorMap::new();
    let request = honest_request(CLIENT, vec![4, 5]);
    actor.on_request(&mut originators, addr(4000), &request.encode());
    let (to, frame) = actor.on_commit(CLIENT, request.hash).unwrap();
    assert_eq!(to, addr(4000));
    assert_eq!(
        TransactionReceipt::decode(&frame),
        Some(TransactionReceipt {
            receiptor: NODE,
            requester: CLIENT,
            hash: request.hash,
            result: TransactionResult::Commited,
        })
    );
}

#[test]
fn commit_for_an_unknown_requester_is_dropped() {
    let actor = ClientActor::new(NODE);
    assert_eq!(actor.on_commit(CLIENT, hash(1)), None);
}

#[test]
fn watcher_emits_one_event_per_committed_transaction() {
    let mut checker = CommitChecker::new();
    let mut originators = OriginatorMap::new();
    originators.insert(hash(1), CLIENT);
    originators.insert(hash(2), [0xc1; 32]);
    originators.insert(hash(3), CLIENT);
    assert_eq!(checker.due(None), 0);
    assert_eq!(checker.due(Some(2)), 2);
    let events = checker.run(&mut originators, Some(2), &vec![hash(2), hash(9)]);
    assert_eq!(events, vec![([0xc1; 32], hash(2))]);
    assert_eq!(checker.receipted_height(), 2);
    assert_eq!(originators.len(), 2);
    assert_eq!(checker.due(Some(2)), 0);
    let events = checker.run(&mut originators, Some(2), &vec![hash(1)]);
    assert_eq!(events, Vec::new());
    assert_eq!(checker.receipted_height(), 2);
    let events = checker.run(&mut originators, Some(5), &vec![hash(1), hash(2), hash(1)]);
    assert_eq!(events, vec![(CLIENT, hash(1))]);
    assert_eq!(checker.receipted_height(), 5);
    assert_eq!(originators.get(&hash(3)), Some(&CLIENT));
    assert_eq!(originators.len(), 1);
}

#[test]
fn watcher_takes_no_more_blocks_than_are_due() {
    let mut checker = CommitChecker::new();
    let mut originators = OriginatorMap::new();
    originators.insert(hash(1), CLIENT);
    originators.insert(hash(2), CLIENT);
    let events = checker.run(&mut originators, Some(1), &vec![hash(1), hash(2)]);
    assert_eq!(events, vec![(CLIENT, hash(1))]);
    assert_eq!(checker.receipted_height(), 1);
    let events = checker.run(&mut originators, None, &vec![hash(2)]);
    assert_eq!(events, Vec::new());
    let events = checker.run(&mut originators, Some(3), &vec![hash(2)]);
    assert_eq!(events, vec![(CLIENT, hash(2))]);
    assert_eq!(checker.receipted_height(), 2);
    assert_eq!(checker.due(Some(3)), 1);
}

#[test]
fn one_validator_commits_one_transaction() {
    let mut client = TransactionManager::new(1, CLIENT);
    let mut actor = ClientActor::new(NODE);
    let mut checker = CommitChecker::new();
    let mut originators = OriginatorMap::new();
    let request = client.track(vec![0u8; 128], 0);
    let accepted = actor.on_request(&mut originators, addr(5000), &request.encode()).unwrap();
    let events = checker.run(&mut originators, Some(1), &vec![accepted.hash]);
    assert_eq!(events.len(), 1);
    let (to, frame) = actor.on_commit(events[0].0, events[0].1).unwrap();
    assert_eq!(to, addr(5000));
    let receipt = TransactionReceipt::decode(&frame).unwrap();
    assert_eq!(receipt.receiptor, NODE);
    client.collect_commit_at(&receipt, 9);
    assert_eq!(client.commited(&request.hash), Some((0, 9)));
    assert_eq!(checker.run(&mut originators, Some(1), &Vec::new()), Vec::new());
}

fn proposal(view: u64) -> HsMessage {
    HsMessage::ProgressMessage(ProgressMessage::Proposal(Proposal {
        chain_id: 0,
        view,
        block: Block::new(
            0,
            QuorumCertificate::genesis_qc(),
            Default::default(),
            Default::default(),
        ),
    }))
}

fn serialized(message: &HsMessage) -> Vec<u8> {
    borsh::BorshSerialize::try_to_vec(message).unwrap()
}

#[test]
fn new_test() {
    let network = NetworkImpl::new(NetConfig {
        initial_peers: KeyTable::new(),
        public_key: [0; 32],
        listen_addr: addr(8082),
    });
    assert_eq!(network.public_key(), [0; 32]);
    assert_eq!(network.listen_addr(), addr(8082));
    assert_eq!(network.validators(), Vec::<[u8; 32]>::new());
    assert_eq!(network.route_all(&vec![1]), Vec::new());
}

#[test]
fn send_receive_test() {
    let sender_pubkey = [0; 32];
    let receiver_pubkey = [1; 32];
    let peers = [(sender_pubkey, 8080), (receiver_pubkey, 8081)];
    let receiver = overlay(receiver_pubkey, 8081, &peers);
    let sender = overlay(sender_pubkey, 8080, &peers);
    let message = proposal(0);
    let frame = match sender.send(receiver_pubkey, &message) {
        Some(Outbound::Transmit(to, frame)) => {
            assert_eq!(to, addr(8081));
            frame
        }
        other => panic!("unexpected decision {:?}", other),
    };
    match receiver.recv(&frame) {
        Received::Message(key, received) => {
            println!("received {:?}", key);
            assert_eq!(key, sender_pubkey);
            assert_eq!(serialized(&received), serialized(&message));
        }
        _ => panic!("the message did not arrive"),
    }
}

#[test]
fn frame_carries_the_serialized_message() {
    let sender = overlay([0; 32], 8080, &[([1; 32], 8081)]);
    let message = proposal(7);
    let bytes = serialized(&message);
    assert_eq!(sender.send([1; 32], &message), Some(sender.route([1; 32], &bytes)));
    let frame = match sender.route([1; 32], &bytes) {
        Outbound::Transmit(_, frame) => frame,
        other => panic!("unexpected decision {:?}", other),
    };
    assert_eq!(&frame[0..32], &[0u8; 32]);
    assert_eq!(&frame[32..64], &[1u8; 32]);
    assert_eq!(&frame[64..], &bytes[..]);
    assert_ne!(serialized(&proposal(8)), bytes);
}

#[test]
fn envelope_around_rubbish_is_unreadable() {
    let a = overlay([1; 32], 8080, &[([2; 32], 8081)]);
    let b = overlay([2; 32], 8081, &[]);
    let frame = match a.route([2; 32], &vec![0xff, 0xff, 0xff]) {
        Outbound::Transmit(_, frame) => frame,
        other => panic!("unexpected decision {:?}", other),
    };
    assert!(matches!(b.recv(&frame), Received::Unreadable(from) if from == [1; 32]));
    assert!(matches!(b.recv(&vec![0u8; 10]), Received::Malformed));
    let c = overlay([3; 32], 8082, &[]);
    assert!(matches!(c.recv(&frame), Received::NotMine(to) if to == [2; 32]));
}

#[test]
fn self_send_is_looped_back() {
    let me = [7; 32];
    let node = overlay(me, 8080, &[]);
    let message = vec![1, 2, 3];
    match node.route(me, &message) {
        Outbound::Loopback(frame) => {
            assert_eq!(node.accept(&frame), Inbound::Deliver(me, message));
        }
        other => panic!("unexpected decision {:?}", other),
    }
    let message = proposal(3);
    match node.send(me, &message) {
        Some(Outbound::Loopback(frame)) => match node.recv(&frame) {
            Received::Message(from, received) => {
                assert_eq!(from, me);
                assert_eq!(serialized(&received), serialized(&message));
            }
            _ => panic!("the message did not come back"),
        },
        other => panic!("unexpected decision {:?}", other),
    }
}

#[test]
fn unknown_recipient_is_unroutable() {
    let node = overlay([7; 32], 8080, &[([8; 32], 8081)]);
    assert_eq!(node.route([9; 32], &vec![1]), Outbound::Unroutable([9; 32]));
    assert_eq!(node.address_of(&[8; 32]), Some(addr(8081)));
    assert_eq!(node.address_of(&[9; 32]), None);
}

#[test]
fn envelope_for_another_node_is_dropped() {
    let a = overlay([1; 32], 8080, &[([2; 32], 8081), ([3; 32], 8082)]);
    let b = overlay([2; 32], 8081, &[]);
    let frame = match a.route([3; 32], &vec![5, 5]) {
        Outbound::Transmit(_, frame) => frame,
        other => panic!("unexpected decision {:?}", other),
    };
    assert_eq!(b.accept(&frame), Inbound::NotMine([3; 32]));
}

#[test]
fn frame_without_an_envelope_is_malformed() {
    let node = overlay([1; 32], 8080, &[]);
    assert_eq!(node.accept(&vec![0u8; 63]), Inbound::Malformed);
    assert_eq!(node.accept(&vec![1u8; 64]), Inbound::Deliver([1; 32], Vec::new()));
}

#[test]
fn broadcast_reaches_each_validator_on_its_own() {
    let me = [2; 32];
    let mut node = overlay(me, 8080, &[([1; 32], 8081)]);
    let mut set = ValidatorSet::new();
    set.put(&[3; 32], 1);
    set.put(&me, 1);
    set.put(&[1; 32], 1);
    node.init_validator_set(set);
    assert_eq!(node.validators(), vec![[1u8; 32], [2; 32], [3; 32]]);
    let out = node.route_all(&vec![9]);
    assert_eq!(out.len(), 3);
    match &out[0] {
        Outbound::Transmit(to, frame) => {
            assert_eq!(*to, addr(8081));
            assert_eq!(&frame[0..32], &me);
            assert_eq!(&frame[32..64], &[1u8; 32]);
            assert_eq!(&frame[64..], &[9]);
        }
        other => panic!("unexpected decision {:?}", other),
    }
    assert!(matches!(&out[1], Outbound::Loopback(frame) if frame[32..64] == me));
    assert_eq!(out[2], Outbound::Unroutable([3; 32]));
    let message = proposal(1);
    assert_eq!(node.broadcast(&message), Some(node.route_all(&serialized(&message))));
}

#[test]
fn overlay_updates_its_validators() {
    let mut node = overlay([1; 32], 8080, &[([2; 32], 8081)]);
    let mut updates = ValidatorSetUpdates::new();
    updates.insert([2; 32], 1);
    updates.insert([5; 32], 1);
    updates.insert([4; 32], 1);
    node.update_validator_set(&updates);
    assert_eq!(node.validators(), vec![[2u8; 32], [4; 32], [5; 32]]);
    assert_eq!(node.route_all(&Vec::new()).len(), 3);
    let mut updates = ValidatorSetUpdates::new();
    updates.delete([2; 32]);
    updates.delete([9; 32]);
    updates.insert([3; 32], 7);
    node.update_validator_set(&updates);
    assert_eq!(node.validators(), vec![[3u8; 32], [4; 32], [5; 32]]);
    let mut updates = ValidatorSetUpdates::new();
    updates.delete([3; 32]);
    updates.delete([4; 32]);
    updates.delete([5; 32]);
    node.update_validator_set(&updates);
    assert_eq!(node.route_all(&Vec::new()), Vec::new());
}

#[test]
fn table_keeps_one_value_per_key() {
    let mut table: KeyTable<[u8; 32], u32> = KeyTable::new();
    assert_eq!(table.insert(hash(1), 10), None);
    assert_eq!(table.insert(hash(2), 20), None);
    assert_eq!(table.insert(hash(1), 11), Some(10));
    assert_eq!(table.len(), 2);
    assert_eq!(table.key_list(), vec![hash(1), hash(2)]);
    assert!(table.contains_key(&hash(2)));
    assert_eq!(table.get(&hash(1)), Some(&11));
    assert_eq!(table.remove(&hash(1)), Some(11));
    assert_eq!(table.remove(&hash(1)), None);
    assert_eq!(table.get(&hash(1)), None);
    assert_eq!(table.key_list(), vec![hash(2)]);
}

#[test]
fn validator_set_of_unknown_origin_is_made_anew() {
    let mut bytes = Vec::new();
    bytes.extend_from_slice(&4u32.to_le_bytes());
    for key in [2u8, 1, 1, 3] {
        bytes.extend_from_slice(&[key; 32]);
    }
    bytes.extend_from_slice(&2u32.to_le_bytes());
    for (key, power) in [(1u8, 1u64), (2, 5)] {
        bytes.extend_from_slice(&[key; 32]);
        bytes.extend_from_slice(&power.to_le_bytes());
    }
    let odd: ValidatorSet = borsh::BorshDeserialize::try_from_slice(&bytes).unwrap();
    let listed: Vec<[u8; 32]> = odd.validators().copied().collect();
    assert_eq!(listed, vec![[2u8; 32], [1; 32], [1; 32], [3; 32]]);
    let mut node = overlay([1; 32], 8080, &[]);
    node.init_validator_set(odd);
    assert_eq!(node.validators(), vec![[1u8; 32], [2; 32]]);
    let mut updates = ValidatorSetUpdates::new();
    updates.insert([3; 32], 1);
    updates.delete([1; 32]);
    node.update_validator_set(&updates);
    assert_eq!(node.validators(), vec![[2u8; 32], [3; 32]]);
}

#[test]
fn readable_message_is_handed_out_and_rubbish_is_not() {
    let a = overlay([1; 32], 8080, &[([2; 32], 8081)]);
    let b = overlay([2; 32], 8081, &[]);
    let message = proposal(4);
    let frame = match a.send([2; 32], &message) {
        Some(Outbound::Transmit(_, frame)) => frame,
        other => panic!("unexpected decision {:?}", other),
    };
    match b.recv(&frame) {
        Received::Message(from, got) => {
            assert_eq!(from, [1; 32]);
            assert_eq!(serialized(&got), serialized(&message));
        }
        _ => panic!("a readable message was not handed out"),
    }
    let mut cut = frame.clone();
    cut.truncate(70);
    assert!(matches!(b.recv(&cut), Received::Unreadable(from) if from == [1; 32]));
}
