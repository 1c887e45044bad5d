use dash_plat::framing::{decode_frame, decode_frames, encode_frame, Frame, MAX_FRAME_LEN};
use dash_plat::message::{Envelope, NewTransactionRequest, TransactionReceipt, TransactionResult};

fn sample_request() -> NewTransactionRequest {
    NewTransactionRequest {
        requester: [1; 32],
        hash: [2; 32],
        data: vec![9, 8, 7],
    }
}

#[test]
fn request_layout_is_ids_then_length_then_payload() {
    let bytes = sample_request().encode();
    let mut expected = vec![1u8; 32];
    expected.extend_from_slice(&[2u8; 32]);
    expected.extend_from_slice(&[3, 0, 0, 0, 0, 0, 0, 0]);
    expected.extend_from_slice(&[9, 8, 7]);
    assert_eq!(bytes, expected);
    assert_eq!(bytes.len(), 75);
}

#[test]
fn request_roundtrip() {
    let request = sample_request();
    assert_eq!(NewTransactionRequest::decode(&request.encode()), Some(request));
}

#[test]
fn request_roundtrip_with_empty_payload() {
    let request = NewTransactionRequest {
        requester: [0xaa; 32],
        hash: [0xbb; 32],
        data: Vec::new(),
    };
    let bytes = request.encode();
    assert_eq!(bytes.len(), 72);
    assert_eq!(NewTransactionRequest::decode(&bytes), Some(request));
}

#[test]
fn request_roundtrip_with_long_payload() {
    let request = NewTransactionRequest {
        requester: [3; 32],
        hash: [4; 32],
        data: (0..700u32).map(|i| (i % 251) as u8).collect(),
    };
    let bytes = request.encode();
    assert_eq!(&bytes[64..72], &[0xbc, 0x02, 0, 0, 0, 0, 0, 0]);
    assert_eq!(NewTransactionRequest::decode(&bytes), Some(request));
}

#[test]
fn request_decode_passes_over_trailing_bytes() {
    let request = sample_request();
    let mut bytes = request.encode();
    bytes.extend_from_slice(&[0xff, 0xee]);
    assert_eq!(NewTransactionRequest::decode(&bytes), Some(request));
}

#[test]
fn request_decode_refuses_short_input() {
    assert_eq!(NewTransactionRequest::decode(&Vec::new()), None);
    assert_eq!(NewTransactionRequest::decode(&vec![0u8; 71]), None);
}

#[test]
fn request_decode_refuses_cut_payload() {
    let mut bytes = sample_request().encode();
    bytes.pop();
    assert_eq!(NewTransactionRequest::decode(&bytes), None);
}

#[test]
fn request_decode_refuses_huge_length() {
    let mut bytes = vec![0u8; 64];
    bytes.extend_from_slice(&[0xff; 8]);
    bytes.extend_from_slice(&[1, 2, 3]);
    assert_eq!(NewTransactionRequest::decode(&bytes), None);
}

#[test]
fn receipt_layout_is_three_ids_and_a_tag() {
    let receipt = TransactionReceipt {
        receiptor: [5; 32],
        requester: [6; 32],
        hash: [7; 32],
        result: TransactionResult::Commited,
    };
    let bytes = receipt.encode();
    assert_eq!(bytes.len(), 97);
    assert_eq!(&bytes[0..32], &[5u8; 32]);
    assert_eq!(&bytes[32..64], &[6u8; 32]);
    assert_eq!(&bytes[64..96], &[7u8; 32]);
    assert_eq!(bytes[96], 0);
}

#[test]
fn receipt_tags() {
    assert_eq!(TransactionResult::Commited.tag(), 0);
    assert_eq!(TransactionResult::Unaccepted.tag(), 1);
}

#[test]
fn receipt_roundtrip_for_both_results() {
    for result in [TransactionResult::Commited, TransactionResult::Unaccepted] {
        let receipt = TransactionReceipt {
            receiptor: [5; 32],
            requester: [6; 32],
            hash: [7; 32],
            result,
        };
        assert_eq!(TransactionReceipt::decode(&receipt.encode()), Some(receipt));
    }
}

#[test]
fn receipt_decode_refuses_unknown_tag_and_short_input() {
    let mut bytes = vec![0u8; 97];
    bytes[96] = 2;
    assert_eq!(TransactionReceipt::decode(&bytes), None);
    assert_eq!(TransactionReceipt::decode(&vec![0u8; 96]), None);
}

#[test]
fn receipt_decode_reads_unaccepted() {
    let mut bytes = vec![0u8; 97];
    bytes[96] = 1;
    let receipt = TransactionReceipt::decode(&bytes).unwrap();
    assert_eq!(receipt.result, TransactionResult::Unaccepted);
    assert_eq!(receipt.hash, [0u8; 32]);
}

#[test]
fn envelope_roundtrip() {
    let envelope = Envelope {
        from: [1; 32],
        to: [2; 32],
        data: vec![10, 20, 30, 40],
    };
    let bytes = envelope.encode();
    assert_eq!(bytes.len(), 68);
    assert_eq!(&bytes[64..], &[10, 20, 30, 40]);
    assert_eq!(Envelope::decode(&bytes), Some(envelope));
}

#[test]
fn envelope_with_empty_message_roundtrip() {
    let envelope = Envelope {
        from: [1; 32],
        to: [2; 32],
        data: Vec::new(),
    };
    assert_eq!(Envelope::decode(&envelope.encode()), Some(envelope));
}

#[test]
fn envelope_decode_refuses_short_frame() {
    assert_eq!(Envelope::decode(&vec![0u8; 63]), None);
}

#[test]
fn frame_prefix_is_big_endian() {
    assert_eq!(encode_frame(&vec![1, 2, 3]), Some(vec![0, 0, 0, 3, 1, 2, 3]));
    assert_eq!(encode_frame(&Vec::new()), Some(vec![0, 0, 0, 0]));
    let frame = encode_frame(&vec![7u8; 0x0102]).unwrap();
    assert_eq!(&frame[0..4], &[0, 0, 1, 2]);
    assert_eq!(frame.len(), 4 + 0x0102);
}

#[test]
fn frame_of_largest_length_is_accepted_and_longer_refused() {
    let largest = vec![0u8; MAX_FRAME_LEN];
    let frame = encode_frame(&largest).unwrap();
    assert_eq!(&frame[0..4], &[1, 0, 0, 0]);
    assert_eq!(decode_frame(&frame, 0), Frame::Whole(largest));
    assert_eq!(encode_frame(&vec![0u8; MAX_FRAME_LEN + 1]), None);
}

#[test]
fn decode_frame_tells_whole_partial_and_too_long() {
    assert_eq!(decode_frame(&vec![0, 0, 0, 2, 5, 6], 0), Frame::Whole(vec![5, 6]));
    assert_eq!(decode_frame(&vec![0, 0, 0, 2, 5], 0), Frame::Partial);
    assert_eq!(decode_frame(&vec![0, 0, 0], 0), Frame::Partial);
    assert_eq!(decode_frame(&vec![1, 0, 0, 1, 5], 0), Frame::TooLong);
    assert_eq!(decode_frame(&vec![9, 9, 0, 0, 0, 1, 7], 2), Frame::Whole(vec![7]));
    assert_eq!(decode_frame(&vec![9, 9], 2), Frame::Partial);
}

#[test]
fn stream_of_frames_is_read_back_in_order() {
    let bodies: Vec<Vec<u8>> = vec![vec![1], Vec::new(), vec![2, 3, 4], vec![5; 300]];
    let mut stream = Vec::new();
    for body in &bodies {
        stream.extend_from_slice(&encode_frame(body).unwrap());
    }
    let (read, consumed) = decode_frames(&stream);
    assert_eq!(read, bodies);
    assert_eq!(consumed, stream.len());
}

#[test]
fn stream_keeps_the_beginning_of_the_next_frame() {
    let mut stream = encode_frame(&vec![1, 2]).unwrap();
    stream.extend_from_slice(&[0, 0, 0, 5, 9]);
    let (read, consumed) = decode_frames(&stream);
    assert_eq!(read, vec![vec![1, 2]]);
    assert_eq!(consumed, 6);
}

#[test]
fn stream_stops_at_a_frame_that_is_too_long() {
    let mut stream = encode_frame(&vec![1]).unwrap();
    stream.extend_from_slice(&[0xff, 0xff, 0xff, 0xff, 1, 2, 3]);
    let (read, consumed) = decode_frames(&stream);
    assert_eq!(read, vec![vec![1]]);
    assert_eq!(consumed, 5);
}

#[test]
fn framed_request_survives_the_link() {
    let request = sample_request();
    let frame = encode_frame(&request.encode()).unwrap();
    let (read, _) = decode_frames(&frame);
    assert_eq!(read.len(), 1);
    assert_eq!(NewTransactionRequest::decode(&read[0]), Some(request));
}
