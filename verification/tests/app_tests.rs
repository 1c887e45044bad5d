use dash_plat::app::{
    pending_ancient, Ancestry, AppImpl, ProduceBlockResponse, ValidateBlockResponse,
};
use dash_plat::message::NewTransactionRequest;

fn hash(n: u8) -> [u8; 32] {
    [n; 32]
}

fn request(n: u8) -> NewTransactionRequest {
    NewTransactionRequest {
        requester: [0xc1; 32],
        hash: hash(n),
        data: vec![n, n, n],
    }
}

fn chain(parent_height: u64, parent: u8, grandparent: u8, great_grandparent: u8) -> Option<Ancestry> {
    Some(Ancestry {
        parent_height,
        parent: hash(parent),
        grandparent: Some(hash(grandparent)),
        great_grandparent: Some(hash(great_grandparent)),
    })
}

#[test]
fn chain_id_is_one() {
    assert_eq!(AppImpl::new().chain_id(), 1);
}

#[test]
fn pending_ancient_follows_the_chain() {
    assert_eq!(pending_ancient(&None), Vec::<[u8; 32]>::new());
    assert_eq!(pending_ancient(&chain(9, 1, 2, 3)), vec![hash(1), hash(2), hash(3)]);
    let short = Some(Ancestry {
        parent_height: 1,
        parent: hash(1),
        grandparent: Some(hash(2)),
        great_grandparent: None,
    });
    assert_eq!(pending_ancient(&short), vec![hash(1), hash(2)]);
    let orphan = Some(Ancestry {
        parent_height: 0,
        parent: hash(1),
        grandparent: None,
        great_grandparent: Some(hash(3)),
    });
    assert_eq!(pending_ancient(&orphan), vec![hash(1)]);
}

#[test]
fn ancestor_duplicate_is_discarded_and_the_next_candidate_proposed() {
    let mut app = AppImpl::new();
    app.enqueue(request(2));
    app.enqueue(request(9));
    let response = app.produce_block(&chain(2, 1, 2, 3), &Vec::new());
    assert_eq!(
        response,
        Some(ProduceBlockResponse {
            data_hash: hash(9),
            data: vec![vec![9, 9, 9]],
        })
    );
    assert_eq!(app.cached(), 0);
}

#[test]
fn first_block_takes_the_oldest_candidate() {
    let mut app = AppImpl::new();
    app.enqueue(request(4));
    app.enqueue(request(5));
    let response = app.produce_block(&None, &Vec::new()).unwrap();
    assert_eq!(response.data_hash, hash(4));
    assert_eq!(response.data, vec![vec![4, 4, 4]]);
    assert_eq!(app.cached(), 1);
    let response = app.produce_block(&None, &Vec::new()).unwrap();
    assert_eq!(response.data_hash, hash(5));
}

#[test]
fn empty_cache_proposes_nothing() {
    let mut app = AppImpl::new();
    assert_eq!(app.produce_block(&chain(5, 1, 2, 3), &vec![hash(7), hash(8)]), None);
    assert_eq!(app.observed_height(), 2);
}

#[test]
fn cache_of_blocked_candidates_is_emptied() {
    let mut app = AppImpl::new();
    app.enqueue(request(1));
    app.enqueue(request(2));
    app.enqueue(request(3));
    assert_eq!(app.select(&chain(2, 1, 2, 3)), None);
    assert_eq!(app.cached(), 0);
}

#[test]
fn each_of_the_three_ancestors_blocks() {
    for blocked in [1u8, 2, 3] {
        let mut app = AppImpl::new();
        app.enqueue(request(blocked));
        app.enqueue(request(50));
        let response = app.produce_block(&chain(2, 1, 2, 3), &Vec::new()).unwrap();
        assert_eq!(response.data_hash, hash(50));
    }
}

#[test]
fn committed_hashes_block_for_good() {
    let mut app = AppImpl::new();
    let committed: Vec<[u8; 32]> = vec![hash(10), hash(11), hash(12)];
    app.enqueue(request(11));
    app.enqueue(request(20));
    let response = app.produce_block(&chain(6, 13, 14, 15), &committed).unwrap();
    assert_eq!(response.data_hash, hash(20));
    assert_eq!(app.observed_height(), 3);
    assert!(app.is_committed(&hash(10)) && app.is_committed(&hash(11)) && app.is_committed(&hash(12)));
    assert!(!app.is_committed(&hash(13)));
    app.enqueue(request(10));
    app.enqueue(request(21));
    let response = app.produce_block(&chain(7, 20, 13, 14), &Vec::new()).unwrap();
    assert_eq!(response.data_hash, hash(21));
}

#[test]
fn unobserved_heights_end_three_below_the_parent() {
    let mut app = AppImpl::new();
    assert_eq!(app.unobserved_heights(&None), (0, 0));
    assert_eq!(app.unobserved_heights(&chain(3, 1, 2, 3)), (0, 0));
    assert_eq!(app.unobserved_heights(&chain(4, 1, 2, 3)), (1, 1));
    assert_eq!(app.unobserved_heights(&chain(10, 1, 2, 3)), (1, 7));
    app.observe_committed(&chain(10, 1, 2, 3), &vec![hash(30), hash(31)]);
    assert_eq!(app.observed_height(), 2);
    assert_eq!(app.unobserved_heights(&chain(10, 1, 2, 3)), (3, 5));
    assert_eq!(app.unobserved_heights(&chain(5, 1, 2, 3)), (0, 0));
}

#[test]
fn hashes_above_the_committed_limit_are_left_aside() {
    let mut app = AppImpl::new();
    let offered: Vec<[u8; 32]> = vec![hash(40), hash(41), hash(42)];
    app.observe_committed(&chain(5, 1, 2, 3), &offered);
    assert_eq!(app.observed_height(), 2);
    assert!(app.is_committed(&hash(40)));
    assert!(app.is_committed(&hash(41)));
    assert!(!app.is_committed(&hash(42)));
    app.observe_committed(&None, &offered);
    assert_eq!(app.observed_height(), 2);
}

#[test]
fn proposal_is_never_among_ancestors_or_committed() {
    let mut app = AppImpl::new();
    for n in 0..40u8 {
        app.enqueue(request(n % 20));
    }
    let ancestry = chain(12, 3, 4, 5);
    let committed: Vec<[u8; 32]> = (6..15u8).map(hash).collect();
    let mut proposed = Vec::new();
    while let Some(response) = app.produce_block(&ancestry, &committed) {
        assert!(!pending_ancient(&ancestry).contains(&response.data_hash));
        assert!(!app.is_committed(&response.data_hash));
        proposed.push(response.data_hash[0]);
    }
    assert_eq!(
        proposed,
        vec![0, 1, 2, 15, 16, 17, 18, 19, 0, 1, 2, 15, 16, 17, 18, 19]
    );
}

#[test]
fn duplicate_data_hash_is_invalid() {
    let app = AppImpl::new();
    let tree: Vec<[u8; 32]> = vec![hash(1), hash(2), hash(3)];
    assert_eq!(app.validate_block(&hash(2), &tree), ValidateBlockResponse::Invalid);
}

#[test]
fn novel_data_hash_is_valid() {
    let app = AppImpl::new();
    let tree: Vec<[u8; 32]> = vec![hash(1), hash(2), hash(3)];
    assert_eq!(app.validate_block(&hash(4), &tree), ValidateBlockResponse::Valid);
    assert_eq!(app.validate_block(&hash(4), &Vec::new()), ValidateBlockResponse::Valid);
}
