//! The messages that cross the wire and their canonical binary layout.
//!
//! Every field is written in declaration order. A 32-byte identifier is written
//! as it is, a byte string as its length in eight little-endian bytes followed
//! by its bytes, and a choice as one tag byte.

use vstd::prelude::*;
use vstd::bytes::*;
use crate::types::{PublicKeyBytes, TransactionHash};

verus! {

/// Outcome that a validator reports for a transaction.
#[derive(Debug, Clone, Copy, PartialEq, Eq, Structural)]
pub enum TransactionResult {
    Commited,
    Unaccepted,
}

/// A transaction as a client submits it.
#[derive(Debug, Clone, PartialEq, Eq)]
pub struct NewTransactionRequest {
    pub requester: PublicKeyBytes,
    pub hash: TransactionHash,
    pub data: Vec<u8>,
}

/// A validator's statement on one transaction of one requester.
#[derive(Debug, Clone, Copy, PartialEq, Eq)]
pub struct TransactionReceipt {
    pub receiptor: PublicKeyBytes,
    pub requester: PublicKeyBytes,
    pub hash: TransactionHash,
    pub result: TransactionResult,
}

/// A consensus message on its way between two validators. `data` is the
/// message in the consensus library's own serialization.
#[derive(Debug, Clone, PartialEq, Eq)]
pub struct Envelope {
    pub from: PublicKeyBytes,
    pub to: PublicKeyBytes,
    pub data: Vec<u8>,
}

/// Mathematical form of a [`NewTransactionRequest`].
pub struct RequestView {
    pub requester: Seq<u8>,
    pub hash: Seq<u8>,
    pub data: Seq<u8>,
}

/// Mathematical form of a [`TransactionReceipt`].
pub struct ReceiptView {
    pub receiptor: Seq<u8>,
    pub requester: Seq<u8>,
    pub hash: Seq<u8>,
    pub result: TransactionResult,
}

/// Mathematical form of an [`Envelope`].
pub struct EnvelopeView {
    pub from: Seq<u8>,
    pub to: Seq<u8>,
    pub data: Seq<u8>,
}

impl View for NewTransactionRequest {
    type V = RequestView;

    open spec fn view(&self) -> RequestView {
        RequestView { requester: self.requester@, hash: self.hash@, data: self.data@ }
    }
}

impl View for TransactionReceipt {
    type V = ReceiptView;

    open spec fn view(&self) -> ReceiptView {
        ReceiptView {
            receiptor: self.receiptor@,
            requester: self.requester@,
            hash: self.hash@,
            result: self.result,
        }
    }
}

impl View for Envelope {
    type V = EnvelopeView;

    open spec fn view(&self) -> EnvelopeView {
        EnvelopeView { from: self.from@, to: self.to@, data: self.data@ }
    }
}

impl RequestView {
    /// Both identifiers have 32 bytes and the payload's length fits its prefix.
    pub open spec fn wf(self) -> bool {
        self.requester.len() == 32 && self.hash.len() == 32 && self.data.len() <= u64::MAX
    }
}

impl ReceiptView {
    /// The three identifiers have 32 bytes each.
    pub open spec fn wf(self) -> bool {
        self.receiptor.len() == 32 && self.requester.len() == 32 && self.hash.len() == 32
    }
}

impl EnvelopeView {
    /// Both identifiers have 32 bytes.
    pub open spec fn wf(self) -> bool {
        self.from.len() == 32 && self.to.len() == 32
    }
}

/// Tag byte of a result.
pub open spec fn spec_result_tag(result: TransactionResult) -> u8 {
    match result {
        TransactionResult::Commited => 0,
        TransactionResult::Unaccepted => 1,
    }
}

/// Layout of a request: requester, hash, length of the payload, payload.
pub open spec fn spec_encode_request(r: RequestView) -> Seq<u8> {
    r.requester + r.hash + spec_u64_to_le_bytes(r.data.len() as u64) + r.data
}

/// The request at the head of `b`; bytes behind it are not looked at.
pub open spec fn spec_decode_request(b: Seq<u8>) -> Option<RequestView> {
    if b.len() < 72 {
        None
    } else {
        let n = spec_u64_from_le_bytes(b.subrange(64, 72));
        if n > b.len() - 72 {
            None
        } else {
            Some(
                RequestView {
                    requester: b.subrange(0, 32),
                    hash: b.subrange(32, 64),
                    data: b.subrange(72, 72 + n),
                },
            )
        }
    }
}

/// Layout of a receipt: receiptor, requester, hash, tag of the result.
pub open spec fn spec_encode_receipt(r: ReceiptView) -> Seq<u8> {
    r.receiptor + r.requester + r.hash + seq![spec_result_tag(r.result)]
}

/// The receipt at the head of `b`; bytes behind it are not looked at.
pub open spec fn spec_decode_receipt(b: Seq<u8>) -> Option<ReceiptView> {
    if b.len() < 97 || b[96] > 1 {
        None
    } else {
        Some(
            ReceiptView {
                receiptor: b.subrange(0, 32),
                requester: b.subrange(32, 64),
                hash: b.subrange(64, 96),
                result: if b[96] == 0 {
                    TransactionResult::Commited
                } else {
                    TransactionResult::Unaccepted
                },
            },
        )
    }
}

/// Layout of an envelope: sender, recipient, then the consensus message,
/// which runs to the end of the frame.
pub open spec fn spec_encode_envelope(e: EnvelopeView) -> Seq<u8> {
    e.from + e.to + e.data
}

/// The envelope that `b` holds.
pub open spec fn spec_decode_envelope(b: Seq<u8>) -> Option<EnvelopeView> {
    if b.len() < 64 {
        None
    } else {
        Some(
            EnvelopeView {
                from: b.subrange(0, 32),
                to: b.subrange(32, 64),
                data: b.subrange(64, b.len() as int),
            },
        )
    }
}

/// Decoding an encoded request gives the request back, whatever follows it.
pub proof fn lemma_request_roundtrip(r: RequestView, rest: Seq<u8>)
    requires
        r.wf(),
    ensures
        spec_decode_request(spec_encode_request(r) + rest) == Some(r),
        spec_decode_request(spec_encode_request(r)) == Some(r),
        spec_encode_request(r).len() == 72 + r.data.len(),
{
    lemma_auto_spec_u64_to_from_le_bytes();
    let n = r.data.len() as u64;
    let e = spec_encode_request(r);
    assert(e.len() == 72 + r.data.len());
    assert forall|tail: Seq<u8>| spec_decode_request(e + tail) == Some(r) by {
        let b = e + tail;
        assert(b.subrange(64, 72) =~= spec_u64_to_le_bytes(n));
        assert(b.subrange(0, 32) =~= r.requester);
        assert(b.subrange(32, 64) =~= r.hash);
        assert(b.subrange(72, 72 + n) =~= r.data);
    }
    assert(e + Seq::<u8>::empty() =~= e);
}

/// Decoding an encoded receipt gives the receipt back, whatever follows it.
pub proof fn lemma_receipt_roundtrip(r: ReceiptView, rest: Seq<u8>)
    requires
        r.wf(),
    ensures
        spec_decode_receipt(spec_encode_receipt(r) + rest) == Some(r),
        spec_decode_receipt(spec_encode_receipt(r)) == Some(r),
        spec_encode_receipt(r).len() == 97,
{
    let e = spec_encode_receipt(r);
    assert forall|tail: Seq<u8>| spec_decode_receipt(e + tail) == Some(r) by {
        let b = e + tail;
        assert(b[96] == spec_result_tag(r.result));
        assert(b.subrange(0, 32) =~= r.receiptor);
        assert(b.subrange(32, 64) =~= r.requester);
        assert(b.subrange(64, 96) =~= r.hash);
    }
    assert(e + Seq::<u8>::empty() =~= e);
}

/// Decoding an encoded envelope gives the envelope back.
pub proof fn lemma_envelope_roundtrip(e: EnvelopeView)
    requires
        e.wf(),
    ensures
        spec_decode_envelope(spec_encode_envelope(e)) == Some(e),
        spec_encode_envelope(e).len() == 64 + e.data.len(),
{
    let b = spec_encode_envelope(e);
    assert(b.subrange(0, 32) =~= e.from);
    assert(b.subrange(32, 64) =~= e.to);
    assert(b.subrange(64, b.len() as int) =~= e.data);
}

/// Appends the 32 bytes of `id` to `out`.
fn push_id(out: &mut Vec<u8>, id: &[u8; 32])
    ensures
        final(out)@ == old(out)@ + id@,
{
    let mut i: usize = 0;
    while i < 32
        invariant
            i <= 32,
            out@ == old(out)@ + id@.subrange(0, i as int),
        decreases 32 - i,
    {
        out.push(id[i]);
        i += 1;
    }
    assert(id@.subrange(0, 32) =~= id@);
}

/// Appends all of `bytes` to `out`.
fn push_bytes(out: &mut Vec<u8>, bytes: &Vec<u8>)
    ensures
        final(out)@ == old(out)@ + bytes@,
{
    let mut i: usize = 0;
    while i < bytes.len()
        invariant
            i <= bytes.len(),
            out@ == old(out)@ + bytes@.subrange(0, i as int),
        decreases bytes.len() - i,
    {
        out.push(bytes[i]);
        i += 1;
    }
    assert(bytes@.subrange(0, bytes.len() as int) =~= bytes@);
}

/// The 32 bytes of `bytes` that start at `at`.
fn read_id(bytes: &Vec<u8>, at: usize) -> (id: [u8; 32])
    requires
        at + 32 <= bytes.len(),
    ensures
        id@ == bytes@.subrange(at as int, at + 32),
{
    let mut id = [0u8;32];
    let mut i: usize = 0;
    while i < 32
        invariant
            i <= 32,
            at + 32 <= bytes.len(),
            forall|j: int| 0 <= j < i ==> id[j] == bytes[at + j],
        decreases 32 - i,
    {
        id[i] = bytes[at + i];
        i += 1;
    }
    assert(id@ =~= bytes@.subrange(at as int, at + 32));
    id
}

/// The bytes of `bytes` from `from` up to `to`.
fn read_bytes(bytes: &Vec<u8>, from: usize, to: usize) -> (part: Vec<u8>)
    requires
        from <= to <= bytes.len(),
    ensures
        part@ == bytes@.subrange(from as int, to as int),
{
    let mut part: Vec<u8> = Vec::new();
    let mut i: usize = from;
    while i < to
        invariant
            from <= i <= to <= bytes.len(),
            part@ == bytes@.subrange(from as int, i as int),
        decreases to - i,
    {
        part.push(bytes[i]);
        i += 1;
    }
    part
}

impl TransactionResult {
    /// The tag byte of this result.
    pub fn tag(&self) -> (t: u8)
        ensures
            t == spec_result_tag(*self),
    {
        match self {
            TransactionResult::Commited => 0,
            TransactionResult::Unaccepted => 1,
        }
    }
}

impl NewTransactionRequest {
    /// The request in its wire layout.
    pub fn encode(&self) -> (bytes: Vec<u8>)
        ensures
            bytes@ == spec_encode_request(self@),
    {
        let mut out: Vec<u8> = Vec::new();
        push_id(&mut out, &self.requester);
        push_id(&mut out, &self.hash);
        let len = u64_to_le_bytes(self.data.len() as u64);
        push_bytes(&mut out, &len);
        push_bytes(&mut out, &self.data);
        assert(out@ =~= spec_encode_request(self@));
        out
    }

    /// Reads the request at the head of `bytes`. Fails when the fixed part is
    /// cut short or the payload is shorter than its length prefix says.
    pub fn decode(bytes: &Vec<u8>) -> (request: Option<NewTransactionRequest>)
        ensures
            match request {
                Some(r) => spec_decode_request(bytes@) == Some(r@),
                None => spec_decode_request(bytes@) is None,
            },
    {
        if bytes.len() < 72 {
            return None;
        }
        let prefix = read_bytes(bytes, 64, 72);
        let n = u64_from_le_bytes(prefix.as_slice());
        if n > (bytes.len() - 72) as u64 {
            return None;
        }
        let requester = read_id(bytes, 0);
        let hash = read_id(bytes, 32);
        let data = read_bytes(bytes, 72, 72 + n as usize);
        Some(NewTransactionRequest { requester, hash, data })
    }
}

impl TransactionReceipt {
    /// The receipt in its wire layout.
    pub fn encode(&self) -> (bytes: Vec<u8>)
        ensures
            bytes@ == spec_encode_receipt(self@),
    {
        let mut out: Vec<u8> = Vec::new();
        push_id(&mut out, &self.receiptor);
        push_id(&mut out, &self.requester);
        push_id(&mut out, &self.hash);
        out.push(self.result.tag());
        assert(out@ =~= spec_encode_receipt(self@));
        out
    }

    /// Reads the receipt at the head of `bytes`. Fails when fewer than 97
    /// bytes are there or the tag byte names no result.
    pub fn decode(bytes: &Vec<u8>) -> (receipt: Option<TransactionReceipt>)
        ensures
            match receipt {
                Some(r) => spec_decode_receipt(bytes@) == Some(r@),
                None => spec_decode_receipt(bytes@) is None,
            },
    {
        if bytes.len() < 97 {
            return None;
        }
        let tag = bytes[96];
        if tag > 1 {
            return None;
        }
        let result = if tag == 0 {
            TransactionResult::Commited
        } else {
            TransactionResult::Unaccepted
        };
        let receiptor = read_id(bytes, 0);
        let requester = read_id(bytes, 32);
        let hash = read_id(bytes, 64);
        Some(TransactionReceipt { receiptor, requester, hash, result })
    }
}

impl Envelope {
    /// The envelope in its wire layout.
    pub fn encode(&self) -> (bytes: Vec<u8>)
        ensures
            bytes@ == spec_encode_envelope(self@),
    {
        let mut out: Vec<u8> = Vec::new();
        push_id(&mut out, &self.from);
        push_id(&mut out, &self.to);
        push_bytes(&mut out, &self.data);
        out
    }

    /// Reads an envelope from a whole frame. Fails when the frame is too
    /// short to hold the two identifiers.
    pub fn decode(bytes: &Vec<u8>) -> (envelope: Option<Envelope>)
        ensures
            match envelope {
                Some(e) => spec_decode_envelope(bytes@) == Some(e@),
                None => spec_decode_envelope(bytes@) is None,
            },
    {
        if bytes.len() < 64 {
            return None;
        }
        let from = read_id(bytes, 0);
        let to = read_id(bytes, 32);
        let data = read_bytes(bytes, 64, bytes.len());
        Some(Envelope { from, to, data })
    }
}

} // verus!
