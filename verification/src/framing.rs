//! Frames on a link: each body follows its length, written as four bytes with
//! the most significant first.

use vstd::prelude::*;

verus! {

/// Bytes of a length prefix.
pub const PREFIX_LEN: usize = 4;

/// Longest body of a frame: 16 MiB.
pub const MAX_FRAME_LEN: usize = 16_777_216;

/// A length as four bytes, most significant first.
pub open spec fn spec_be32(n: nat) -> Seq<u8> {
    seq![
        (n / 0x100_0000 % 0x100) as u8,
        (n / 0x1_0000 % 0x100) as u8,
        (n / 0x100 % 0x100) as u8,
        (n % 0x100) as u8,
    ]
}

/// The length that four bytes stand for.
pub open spec fn spec_from_be32(b: Seq<u8>) -> nat {
    (b[0] * 0x100_0000 + b[1] * 0x1_0000 + b[2] * 0x100 + b[3]) as nat
}

/// A body as it goes on the link.
pub open spec fn spec_encode_frame(body: Seq<u8>) -> Seq<u8> {
    spec_be32(body.len()) + body
}

/// Bodies as they go on the link, one behind the other.
pub open spec fn spec_encode_stream(bodies: Seq<Seq<u8>>) -> Seq<u8>
    decreases bodies.len(),
{
    if bodies.len() == 0 {
        Seq::empty()
    } else {
        spec_encode_frame(bodies[0]) + spec_encode_stream(bodies.drop_first())
    }
}

/// What the head of a buffer holds.
pub enum FrameView {
    /// A whole frame with this body.
    Whole(Seq<u8>),
    /// The beginning of a frame; more bytes are needed.
    Partial,
    /// A prefix that announces more than [`MAX_FRAME_LEN`] bytes.
    TooLong,
}

/// Reads the head of `buf`.
pub open spec fn spec_decode_frame(buf: Seq<u8>) -> FrameView {
    if buf.len() < PREFIX_LEN {
        FrameView::Partial
    } else {
        let n = spec_from_be32(buf.subrange(0, 4));
        if n > MAX_FRAME_LEN {
            FrameView::TooLong
        } else if buf.len() < PREFIX_LEN + n {
            FrameView::Partial
        } else {
            FrameView::Whole(buf.subrange(4, 4 + n as int))
        }
    }
}

/// The bodies of the whole frames at the head of `buf`, in order. Reading
/// stops at the first frame that is not whole or is too long.
pub open spec fn spec_decode_stream(buf: Seq<u8>) -> Seq<Seq<u8>>
    decreases buf.len(),
{
    match spec_decode_frame(buf) {
        FrameView::Whole(body) => seq![body] + spec_decode_stream(buf.skip(4 + body.len() as int)),
        _ => Seq::empty(),
    }
}

/// Number of bytes that the whole frames at the head of `buf` take.
pub open spec fn spec_consumed(buf: Seq<u8>) -> nat
    decreases buf.len(),
{
    match spec_decode_frame(buf) {
        FrameView::Whole(body) => 4 + body.len() + spec_consumed(buf.skip(4 + body.len() as int)),
        _ => 0,
    }
}

/// A length below 2^32 is read back from its four bytes.
pub proof fn lemma_be32_roundtrip(n: nat)
    requires
        n < 0x1_0000_0000,
    ensures
        spec_be32(n).len() == 4,
        spec_from_be32(spec_be32(n)) == n,
{
}

/// An encoded frame is read back whole, whatever follows it.
pub proof fn lemma_frame_roundtrip(body: Seq<u8>, rest: Seq<u8>)
    requires
        body.len() <= MAX_FRAME_LEN,
    ensures
        spec_decode_frame(spec_encode_frame(body) + rest) == FrameView::Whole(body),
        (spec_encode_frame(body) + rest).skip(4 + body.len() as int) == rest,
{
    lemma_be32_roundtrip(body.len());
    let buf = spec_encode_frame(body) + rest;
    assert(buf.subrange(0, 4) =~= spec_be32(body.len()));
    assert(buf.subrange(4, 4 + body.len() as int) =~= body);
    assert(buf.skip(4 + body.len() as int) =~= rest);
}

/// Frames written one behind the other are read back as they were written:
/// the same bodies in the same order, and every byte is used.
pub proof fn lemma_stream_roundtrip(bodies: Seq<Seq<u8>>)
    requires
        forall|i: int| 0 <= i < bodies.len() ==> (#[trigger] bodies[i]).len() <= MAX_FRAME_LEN,
    ensures
        spec_decode_stream(spec_encode_stream(bodies)) == bodies,
        spec_consumed(spec_encode_stream(bodies)) == spec_encode_stream(bodies).len(),
    decreases bodies.len(),
{
    if bodies.len() == 0 {
        assert(spec_decode_stream(spec_encode_stream(bodies)) =~= bodies);
    } else {
        let rest = spec_encode_stream(bodies.drop_first());
        lemma_stream_roundtrip(bodies.drop_first());
        lemma_frame_roundtrip(bodies[0], rest);
        assert(seq![bodies[0]] + bodies.drop_first() =~= bodies);
    }
}

/// The views of buffers.
pub open spec fn spec_views(bodies: Seq<Vec<u8>>) -> Seq<Seq<u8>> {
    bodies.map_values(|b: Vec<u8>| b@)
}

/// What the head of a buffer holds.
#[derive(Debug, Clone, PartialEq, Eq)]
pub enum Frame {
    /// A whole frame with this body.
    Whole(Vec<u8>),
    /// The beginning of a frame; more bytes are needed.
    Partial,
    /// A prefix that announces more than [`MAX_FRAME_LEN`] bytes.
    TooLong,
}

impl View for Frame {
    type V = FrameView;

    open spec fn view(&self) -> FrameView {
        match *self {
            Frame::Whole(body) => FrameView::Whole(body@),
            Frame::Partial => FrameView::Partial,
            Frame::TooLong => FrameView::TooLong,
        }
    }
}

/// Puts the length prefix in front of `body`. A body of more than
/// [`MAX_FRAME_LEN`] bytes makes no frame.
pub fn encode_frame(body: &Vec<u8>) -> (frame: Option<Vec<u8>>)
    ensures
        match frame {
            Some(f) => body@.len() <= MAX_FRAME_LEN && f@ == spec_encode_frame(body@),
            None => body@.len() > MAX_FRAME_LEN,
        },
{
    if body.len() > MAX_FRAME_LEN {
        return None;
    }
    let n = body.len();
    let mut frame: Vec<u8> = Vec::new();
    frame.push((n / 0x100_0000 % 0x100) as u8);
    frame.push((n / 0x1_0000 % 0x100) as u8);
    frame.push((n / 0x100 % 0x100) as u8);
    frame.push((n % 0x100) as u8);
    let mut i: usize = 0;
    while i < n
        invariant
            i <= n,
            n == body.len(),
            frame@ == spec_be32(n as nat) + body@.subrange(0, i as int),
        decreases n - i,
    {
        frame.push(body[i]);
        i += 1;
    }
    assert(body@.subrange(0, n as int) =~= body@);
    Some(frame)
}

/// Reads the frame that begins at `at`.
pub fn decode_frame(buf: &Vec<u8>, at: usize) -> (frame: Frame)
    requires
        at <= buf.len(),
    ensures
        frame@ == spec_decode_frame(buf@.skip(at as int)),
{
    let ghost tail = buf@.skip(at as int);
    if buf.len() - at < PREFIX_LEN {
        return Frame::Partial;
    }
    let n: usize = (buf[at] as usize) * 0x100_0000 + (buf[at + 1] as usize) * 0x1_0000 + (buf[at
        + 2] as usize) * 0x100 + (buf[at + 3] as usize);
    proof {
        let p = tail.subrange(0, 4);
        assert(p[0] == buf[at as int] && p[1] == buf[at + 1] && p[2] == buf[at + 2] && p[3]
            == buf[at + 3]);
        assert(n == spec_from_be32(p));
    }
    if n > MAX_FRAME_LEN {
        return Frame::TooLong;
    }
    if buf.len() - at - PREFIX_LEN < n {
        return Frame::Partial;
    }
    let mut body: Vec<u8> = Vec::new();
    let start = at + PREFIX_LEN;
    let mut i: usize = 0;
    while i < n
        invariant
            i <= n,
            start + n <= buf.len(),
            body@ == buf@.subrange(start as int, start + i),
        decreases n - i,
    {
        body.push(buf[start + i]);
        i += 1;
    }
    assert(body@ =~= tail.subrange(4, 4 + n));
    Frame::Whole(body)
}

/// Reads all whole frames at the head of `buf` and says how many bytes they
/// took. The bytes behind them are the beginning of the next frame.
pub fn decode_frames(buf: &Vec<u8>) -> (read: (Vec<Vec<u8>>, usize))
    ensures
        spec_views(read.0@) == spec_decode_stream(buf@),
        read.1 == spec_consumed(buf@),
        read.1 <= buf@.len(),
{
    let mut bodies: Vec<Vec<u8>> = Vec::new();
    let mut at: usize = 0;
    proof {
        assert(buf@.skip(0) =~= buf@);
        assert(spec_views(bodies@) + spec_decode_stream(buf@) =~= spec_decode_stream(buf@));
    }
    loop
        invariant
            at <= buf.len(),
            spec_decode_stream(buf@) == spec_views(bodies@) + spec_decode_stream(
                buf@.skip(at as int),
            ),
            spec_consumed(buf@) == at + spec_consumed(buf@.skip(at as int)),
        decreases buf.len() - at,
    {
        match decode_frame(buf, at) {
            Frame::Whole(body) => {
                proof {
                    let tail = buf@.skip(at as int);
                    assert(tail.skip(4 + body@.len() as int) =~= buf@.skip(at + 4 + body@.len() as int));
                    assert(spec_views(bodies@.push(body)) =~= spec_views(bodies@) + seq![body@]);
                    assert(spec_views(bodies@) + (seq![body@] + spec_decode_stream(
                        tail.skip(4 + body@.len() as int),
                    )) =~= (spec_views(bodies@) + seq![body@]) + spec_decode_stream(
                        tail.skip(4 + body@.len() as int),
                    ));
                }
                at = at + PREFIX_LEN + body.len();
                bodies.push(body);
            },
            _ => {
                assert(spec_views(bodies@) + Seq::<Seq<u8>>::empty() =~= spec_views(bodies@));
                return (bodies, at);
            },
        }
    }
}

} // verus!
