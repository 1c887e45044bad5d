//! The outbound connector of one remote peer, as a state machine.
//!
//! The driver owns the socket, the timer and the queue of frames to send. It
//! reports what happened as an [`Event`] and carries out the [`Action`] that
//! [`Connection::step`] answers with. Frames leave in the order in which they
//! came; while the peer cannot be reached they wait in a bounded buffer that
//! gives up its oldest frames when it runs over. The connector ends when its
//! driver reports that the queue of frames is closed.

use vstd::prelude::*;
use std::collections::VecDeque;
use crate::backoff::{
    next_delay, spec_delay_at, spec_next_delay, INITIAL_DELAY_MS, MAX_DELAY_MS,
};
use crate::framing::{
    lemma_stream_roundtrip, spec_decode_stream, spec_encode_stream, spec_views, MAX_FRAME_LEN,
};

verus! {

/// Most frames that wait for a peer that cannot be reached.
pub const BUFFER_CAPACITY: usize = 1000;

/// How many of the oldest frames are given up when the buffer runs over.
pub const DROP_COUNT: usize = 400;

/// Where the connector stands.
#[derive(Debug, Clone, Copy, PartialEq, Eq, Structural)]
pub enum Phase {
    /// No link and no dial under way.
    Disconnected,
    /// A dial is under way.
    Connecting,
    /// The link is up.
    Connected,
    /// The queue of frames is closed: the connector has ended.
    Stopped,
}

/// What the driver reports.
#[derive(Debug, Clone, PartialEq, Eq)]
pub enum Event {
    /// The connector is to begin its work.
    Start,
    /// The dial succeeded.
    DialSucceeded,
    /// The dial failed.
    DialFailed,
    /// The reconnect timer fired.
    TimerFired,
    /// A frame is to be sent.
    Frame(Vec<u8>),
    /// The last write is done.
    Written,
    /// Reading from or writing to the link failed.
    LinkFailed,
    /// The queue of frames to send is closed.
    Closed,
}

/// What the driver is to do next.
#[derive(Debug, Clone, PartialEq, Eq)]
pub enum Action {
    /// Nothing.
    Idle,
    /// Dial the peer.
    Dial,
    /// Start the reconnect timer with this many milliseconds.
    StartTimer(u64),
    /// Write this frame to the link, then report `Written` or `LinkFailed`.
    Write(Vec<u8>),
    /// Give up the link, the timer and what is being written: the connector
    /// has ended.
    Stop,
}

/// State of a connector.
pub struct Connection {
    phase: Phase,
    delay: u64,
    retry: u64,
    buffer: VecDeque<Vec<u8>>,
}

/// Mathematical form of a [`Connection`].
pub struct ConnectionView {
    pub phase: Phase,
    pub delay: u64,
    pub retry: u64,
    pub buffer: Seq<Vec<u8>>,
}

/// The buffer after `frame` joined it: when it then holds more than
/// [`BUFFER_CAPACITY`] frames, the oldest [`DROP_COUNT`] are gone.
pub open spec fn spec_buffered(buffer: Seq<Vec<u8>>, frame: Vec<u8>) -> Seq<Vec<u8>> {
    let joined = buffer.push(frame);
    if joined.len() > BUFFER_CAPACITY {
        joined.skip(DROP_COUNT as int)
    } else {
        joined
    }
}

/// The retry count after one more failed attempt; it stops at its maximum.
pub open spec fn spec_next_retry(retry: u64) -> u64 {
    if retry == u64::MAX {
        retry
    } else {
        (retry + 1) as u64
    }
}

/// The frames that an action hands to the link.
pub open spec fn spec_written(action: Action) -> Seq<Vec<u8>> {
    match action {
        Action::Write(frame) => seq![frame],
        _ => Seq::empty(),
    }
}

/// The frames that an event brings.
pub open spec fn spec_offered(event: Event) -> Seq<Vec<u8>> {
    match event {
        Event::Frame(frame) => seq![frame],
        _ => Seq::empty(),
    }
}

/// State and action after the head of the buffer, if any, went to the link.
pub open spec fn spec_write_next(s: ConnectionView) -> (ConnectionView, Action) {
    if s.buffer.len() == 0 {
        (s, Action::Idle)
    } else {
        (ConnectionView { buffer: s.buffer.skip(1), ..s }, Action::Write(s.buffer[0]))
    }
}

/// The connector's rule: the state and the action that follow an event.
/// When the queue of frames is closed the connector ends, whatever it was
/// doing, and from then on it asks for nothing. An event that the phase does
/// not expect changes nothing; a frame that comes while the link is not up
/// waits in the buffer.
pub open spec fn spec_step(s: ConnectionView, event: Event) -> (ConnectionView, Action) {
    match (s.phase, event) {
        (_, Event::Closed) => (ConnectionView { phase: Phase::Stopped, ..s }, Action::Stop),
        (Phase::Disconnected, Event::Start) => (
            ConnectionView { phase: Phase::Connecting, ..s },
            Action::Dial,
        ),
        (Phase::Disconnected, Event::TimerFired) => (
            ConnectionView {
                phase: Phase::Connecting,
                delay: spec_next_delay(s.delay),
                retry: spec_next_retry(s.retry),
                ..s
            },
            Action::Dial,
        ),
        (Phase::Connecting, Event::DialFailed) => (
            ConnectionView { phase: Phase::Disconnected, ..s },
            Action::StartTimer(s.delay),
        ),
        (Phase::Connecting, Event::DialSucceeded) => spec_write_next(
            ConnectionView { phase: Phase::Connected, delay: INITIAL_DELAY_MS, retry: 0, ..s },
        ),
        (Phase::Connected, Event::Written) => spec_write_next(s),
        (Phase::Connected, Event::Frame(frame)) => spec_write_next(
            ConnectionView { buffer: s.buffer.push(frame), ..s },
        ),
        (Phase::Connected, Event::LinkFailed) => (
            ConnectionView { phase: Phase::Connecting, ..s },
            Action::Dial,
        ),
        (_, Event::Frame(frame)) => (
            ConnectionView { buffer: spec_buffered(s.buffer, frame), ..s },
            Action::Idle,
        ),
        _ => (s, Action::Idle),
    }
}

/// The state after a run of events, with the frames that went to the link
/// during the run, in order.
pub open spec fn spec_run(s: ConnectionView, events: Seq<Event>) -> (ConnectionView, Seq<Vec<u8>>)
    decreases events.len(),
{
    if events.len() == 0 {
        (s, Seq::empty())
    } else {
        let (before, written) = spec_run(s, events.drop_last());
        let (after, action) = spec_step(before, events.last());
        (after, written + spec_written(action))
    }
}

/// All frames that a run of events brings, in order.
pub open spec fn spec_offered_all(events: Seq<Event>) -> Seq<Vec<u8>>
    decreases events.len(),
{
    if events.len() == 0 {
        Seq::empty()
    } else {
        spec_offered_all(events.drop_last()) + spec_offered(events.last())
    }
}

/// How many frames a run of events gives up, counted over its overflows.
pub open spec fn spec_dropped(s: ConnectionView, events: Seq<Event>) -> nat
    decreases events.len(),
{
    if events.len() == 0 {
        0
    } else {
        let before = spec_run(s, events.drop_last()).0;
        let here: nat = if before.phase != Phase::Connected && events.last() is Frame
            && before.buffer.len() + 1 > BUFFER_CAPACITY {
            DROP_COUNT as nat
        } else {
            0
        };
        spec_dropped(s, events.drop_last()) + here
    }
}

impl ConnectionView {
    /// The buffer is within its capacity and the delay within its bounds.
    pub open spec fn wf(self) -> bool {
        &&& self.buffer.len() <= BUFFER_CAPACITY
        &&& INITIAL_DELAY_MS <= self.delay <= MAX_DELAY_MS
    }
}

/// A step keeps the state well formed.
pub proof fn lemma_step_wf(s: ConnectionView, event: Event)
    requires
        s.wf(),
    ensures
        spec_step(s, event).0.wf(),
{
}

/// One step loses no frame but by overflow, and changes no order: what goes to
/// the link, followed by what waits afterwards, is what waited before followed
/// by the new frame, less the oldest frames given up. Frames are given up only
/// when one arrives at a full buffer while the link is down, and then exactly
/// [`DROP_COUNT`] of them.
pub proof fn lemma_step_order(s: ConnectionView, event: Event)
    requires
        s.wf(),
    ensures
        ({
            let (after, action) = spec_step(s, event);
            let all = s.buffer + spec_offered(event);
            let overflow = s.phase != Phase::Connected && event is Frame && s.buffer.len()
                == BUFFER_CAPACITY;
            spec_written(action) + after.buffer == if overflow {
                all.skip(DROP_COUNT as int)
            } else {
                all
            }
        }),
{
    let (after, action) = spec_step(s, event);
    let all = s.buffer + spec_offered(event);
    match event {
        Event::Frame(frame) => {
            assert(all =~= s.buffer.push(frame));
            if s.phase == Phase::Connected {
                assert(spec_written(action) + after.buffer =~= all);
            } else {
                assert(spec_written(action) + after.buffer =~= spec_buffered(s.buffer, frame));
            }
        },
        _ => {
            assert(all =~= s.buffer);
            assert(spec_written(action) + after.buffer =~= s.buffer);
        },
    }
}

/// A run of events keeps the state well formed.
pub proof fn lemma_run_wf(s: ConnectionView, events: Seq<Event>)
    requires
        s.wf(),
    ensures
        spec_run(s, events).0.wf(),
    decreases events.len(),
{
    if events.len() > 0 {
        lemma_run_wf(s, events.drop_last());
        lemma_step_wf(spec_run(s, events.drop_last()).0, events.last());
    }
}

/// Over a run of events without overflow, the frames that went to the link
/// followed by those that still wait are the frames that waited at the start
/// followed by those that came, in the order in which they came.
pub proof fn lemma_run_order(s: ConnectionView, events: Seq<Event>)
    requires
        s.wf(),
        spec_dropped(s, events) == 0,
    ensures
        ({
            let (after, written) = spec_run(s, events);
            written + after.buffer == s.buffer + spec_offered_all(events)
        }),
    decreases events.len(),
{
    let (after, written) = spec_run(s, events);
    if events.len() == 0 {
        assert(written + after.buffer =~= s.buffer + spec_offered_all(events));
    } else {
        let head = events.drop_last();
        lemma_run_order(s, head);
        lemma_run_wf(s, head);
        let (before, written0) = spec_run(s, head);
        lemma_step_order(before, events.last());
        let (_, action) = spec_step(before, events.last());
        assert(written + after.buffer =~= written0 + (spec_written(action) + after.buffer));
        assert(written0 + (before.buffer + spec_offered(events.last())) =~= (written0
            + before.buffer) + spec_offered(events.last()));
        assert((s.buffer + spec_offered_all(head)) + spec_offered(events.last()) =~= s.buffer
            + spec_offered_all(events));
    }
}

/// When a run of events without overflow has handed every frame to the link,
/// the peer that reads the link's bytes frame by frame reads the frames that
/// waited at the start and those that came, in the order in which they came.
pub proof fn lemma_peer_reads_in_order(s: ConnectionView, events: Seq<Event>)
    requires
        s.wf(),
        spec_dropped(s, events) == 0,
        spec_run(s, events).0.buffer.len() == 0,
        forall|i: int|
            0 <= i < (s.buffer + spec_offered_all(events)).len() ==> (#[trigger] (s.buffer
                + spec_offered_all(events))[i])@.len() <= MAX_FRAME_LEN,
    ensures
        spec_decode_stream(spec_encode_stream(spec_views(spec_run(s, events).1))) == spec_views(
            s.buffer + spec_offered_all(events),
        ),
{
    let (after, written) = spec_run(s, events);
    lemma_run_order(s, events);
    assert(written =~= written + after.buffer);
    lemma_stream_roundtrip(spec_views(written));
}

/// Once the queue of frames is closed the connector has ended: it answers
/// `Stop`, and whatever is reported to it afterwards, it stays ended and asks
/// for no dial, no timer and no write.
pub proof fn lemma_closed_ends(s: ConnectionView, events: Seq<Event>)
    ensures
        spec_step(s, Event::Closed).1 == Action::Stop,
        spec_step(s, Event::Closed).0.phase == Phase::Stopped,
        s.phase == Phase::Stopped ==> spec_run(s, events).0.phase == Phase::Stopped && spec_run(
            s,
            events,
        ).1 == Seq::<Vec<u8>>::empty(),
        s.phase == Phase::Stopped && events.len() > 0 ==> ({
            let action = spec_step(spec_run(s, events.drop_last()).0, events.last()).1;
            action == Action::Idle || action == Action::Stop
        }),
    decreases events.len(),
{
    if events.len() > 0 {
        lemma_closed_ends(s, events.drop_last());
        if s.phase == Phase::Stopped {
            let (before, written) = spec_run(s, events.drop_last());
            let action = spec_step(before, events.last()).1;
            assert(written + spec_written(action) =~= Seq::<Vec<u8>>::empty());
        }
    }
}

/// A frame that arrives at a full buffer while the link is down drives out
/// exactly the oldest [`DROP_COUNT`] frames: the others wait on, in their
/// order, with the new frame behind them.
pub proof fn lemma_overflow_drops_oldest(s: ConnectionView, frame: Vec<u8>)
    requires
        s.wf(),
        s.phase != Phase::Connected,
        s.buffer.len() == BUFFER_CAPACITY,
    ensures
        ({
            let (after, action) = spec_step(s, Event::Frame(frame));
            &&& action == Action::Idle
            &&& after.buffer == s.buffer.skip(DROP_COUNT as int).push(frame)
            &&& after.buffer.len() == BUFFER_CAPACITY + 1 - DROP_COUNT
            &&& after.phase == s.phase && after.delay == s.delay && after.retry == s.retry
        }),
{
    let after = spec_step(s, Event::Frame(frame)).0;
    assert(after.buffer =~= s.buffer.skip(DROP_COUNT as int).push(frame));
}

/// The state after `n` dials in a row have failed and been waited out.
pub open spec fn spec_after_failures(s: ConnectionView, n: nat) -> ConnectionView
    decreases n,
{
    if n == 0 {
        s
    } else {
        let before = spec_after_failures(s, (n - 1) as nat);
        spec_step(spec_step(before, Event::DialFailed).0, Event::TimerFired).0
    }
}

/// A connector that dials with the first delay and fails `n` times in a row
/// dials again, and the timer that follows its next failure runs for the
/// `n`-th delay of the backoff sequence. What waits in the buffer stays.
pub proof fn lemma_failed_dials_back_off(s: ConnectionView, n: nat)
    requires
        s.phase == Phase::Connecting,
        s.delay == INITIAL_DELAY_MS,
    ensures
        ({
            let after = spec_after_failures(s, n);
            &&& after.phase == Phase::Connecting
            &&& after.delay == spec_delay_at(n)
            &&& after.buffer == s.buffer
            &&& spec_step(after, Event::DialFailed).1 == Action::StartTimer(spec_delay_at(n))
        }),
    decreases n,
{
    if n > 0 {
        lemma_failed_dials_back_off(s, (n - 1) as nat);
    }
}

/// `sub` is made of entries of `all`, in the order that they have in `all`:
/// `at[i]` is the place in `all` of the `i`-th entry of `sub`.
pub open spec fn spec_embeds(at: Seq<int>, sub: Seq<Vec<u8>>, all: Seq<Vec<u8>>) -> bool {
    &&& at.len() == sub.len()
    &&& forall|i: int| 0 <= i < at.len() ==> 0 <= #[trigger] at[i] < all.len() && sub[i] == all[at[i]]
    &&& forall|i: int, j: int| 0 <= i < j < at.len() ==> #[trigger] at[i] < #[trigger] at[j]
}

/// `sub` can be had from `all` by leaving entries out, without changing the
/// order of the others.
pub open spec fn spec_keeps_order(sub: Seq<Vec<u8>>, all: Seq<Vec<u8>>) -> bool {
    exists|at: Seq<int>| spec_embeds(at, sub, all)
}

/// Whatever a run of events does, the frames that went to the link and those
/// that still wait are frames that waited at the start or came during the run,
/// each at most once and in the order in which they came.
pub proof fn lemma_run_keeps_order(s: ConnectionView, events: Seq<Event>)
    requires
        s.wf(),
    ensures
        ({
            let (after, written) = spec_run(s, events);
            spec_keeps_order(written + after.buffer, s.buffer + spec_offered_all(events))
        }),
    decreases events.len(),
{
    let (after, written) = spec_run(s, events);
    let all = s.buffer + spec_offered_all(events);
    let sub = written + after.buffer;
    if events.len() == 0 {
        let at = Seq::new(s.buffer.len(), |i: int| i);
        assert(sub =~= s.buffer);
        assert(all =~= s.buffer);
        assert(spec_embeds(at, sub, all));
    } else {
        let head = events.drop_last();
        lemma_run_keeps_order(s, head);
        lemma_run_wf(s, head);
        let (before, written0) = spec_run(s, head);
        let all0 = s.buffer + spec_offered_all(head);
        let sub0 = written0 + before.buffer;
        let at0 = choose|at: Seq<int>| spec_embeds(at, sub0, all0);
        lemma_step_order(before, events.last());
        let (_, action) = spec_step(before, events.last());
        let offered = spec_offered(events.last());
        assert(all =~= all0 + offered);
        assert(sub =~= written0 + (spec_written(action) + after.buffer));
        match events.last() {
            Event::Frame(frame) => {
                let at1 = at0.push(all0.len() as int);
                let sub1 = sub0.push(frame);
                assert(all =~= all0.push(frame));
                assert(spec_embeds(at1, sub1, all));
                let overflow = before.phase != Phase::Connected && before.buffer.len()
                    == BUFFER_CAPACITY;
                if overflow {
                    let k = written0.len() as int;
                    let d = DROP_COUNT as int;
                    let at = at1.subrange(0, k) + at1.skip(k + d);
                    assert(before.buffer + offered =~= before.buffer.push(frame));
                    assert(sub =~= sub1.subrange(0, k) + sub1.skip(k + d));
                    assert forall|i: int| 0 <= i < at.len() implies 0 <= #[trigger] at[i]
                        < all.len() && sub[i] == all[at[i]] by {
                        if i < k {
                            assert(at[i] == at1[i]);
                        } else {
                            assert(at[i] == at1[i + d]);
                        }
                    }
                    assert forall|i: int, j: int| 0 <= i < j < at.len() implies #[trigger] at[i]
                        < #[trigger] at[j] by {
                        let i1 = if i < k { i } else { i + d };
                        let j1 = if j < k { j } else { j + d };
                        assert(at[i] == at1[i1] && at[j] == at1[j1]);
                    }
                    assert(spec_embeds(at, sub, all));
                } else {
                    assert(sub =~= sub1);
                }
            },
            _ => {
                assert(all =~= all0);
                assert(sub =~= sub0);
                assert(spec_embeds(at0, sub, all));
            },
        }
    }
}

impl View for Connection {
    type V = ConnectionView;

    closed spec fn view(&self) -> ConnectionView {
        ConnectionView {
            phase: self.phase,
            delay: self.delay,
            retry: self.retry,
            buffer: self.buffer@,
        }
    }
}

impl Connection {
    /// The buffer is within its capacity and the delay within its bounds.
    pub open spec fn wf(&self) -> bool {
        self@.wf()
    }

    /// A connector before its first dial: no link, the first delay, no retry,
    /// nothing buffered.
    pub fn new() -> (c: Self)
        ensures
            c.wf(),
            c@ == (ConnectionView {
                phase: Phase::Disconnected,
                delay: INITIAL_DELAY_MS,
                retry: 0,
                buffer: Seq::empty(),
            }),
    {
        Connection {
            phase: Phase::Disconnected,
            delay: INITIAL_DELAY_MS,
            retry: 0,
            buffer: VecDeque::new(),
        }
    }

    /// The phase the connector is in.
    pub fn phase(&self) -> (p: Phase)
        ensures
            p == self@.phase,
    {
        self.phase
    }

    /// The delay of the next reconnect timer, in milliseconds.
    pub fn delay(&self) -> (d: u64)
        ensures
            d == self@.delay,
    {
        self.delay
    }

    /// How many dials in a row have failed and been waited out.
    pub fn retry(&self) -> (r: u64)
        ensures
            r == self@.retry,
    {
        self.retry
    }

    /// How many frames wait in the buffer.
    pub fn buffered(&self) -> (n: usize)
        ensures
            n == self@.buffer.len(),
    {
        self.buffer.len()
    }

    /// Takes a frame into the buffer and gives up the oldest frames when the
    /// buffer runs over.
    fn buffer_frame(&mut self, frame: Vec<u8>)
        requires
            old(self).wf(),
        ensures
            final(self).wf(),
            final(self)@ == (ConnectionView {
                buffer: spec_buffered(old(self)@.buffer, frame),
                ..old(self)@
            }),
    {
        self.buffer.push_back(frame);
        if self.buffer.len() > BUFFER_CAPACITY {
            let ghost joined = self.buffer@;
            let mut i: usize = 0;
            while i < DROP_COUNT
                invariant
                    i <= DROP_COUNT,
                    joined.len() == BUFFER_CAPACITY + 1,
                    self.buffer@ == joined.skip(i as int),
                    self.phase == old(self).phase,
                    self.delay == old(self).delay,
                    self.retry == old(self).retry,
                decreases DROP_COUNT - i,
            {
                let _ = self.buffer.pop_front();
                assert(self.buffer@ =~= joined.skip(i + 1));
                i += 1;
            }
        }
    }

    /// Hands the head of the buffer, if any, to the link.
    fn write_next(&mut self) -> (action: Action)
        requires
            old(self).wf(),
        ensures
            final(self).wf(),
            (final(self)@, action) == spec_write_next(old(self)@),
    {
        match self.buffer.pop_front() {
            Some(frame) => {
                assert(self.buffer@ =~= old(self)@.buffer.skip(1));
                Action::Write(frame)
            },
            None => Action::Idle,
        }
    }

    /// Takes one event and says what to do next.
    pub fn step(&mut self, event: Event) -> (action: Action)
        requires
            old(self).wf(),
        ensures
            final(self).wf(),
            (final(self)@, action) == spec_step(old(self)@, event),
    {
        match event {
            Event::Start => {
                if self.phase == Phase::Disconnected {
                    self.phase = Phase::Connecting;
                    Action::Dial
                } else {
                    Action::Idle
                }
            },
            Event::TimerFired => {
                if self.phase == Phase::Disconnected {
                    self.phase = Phase::Connecting;
                    self.delay = next_delay(self.delay);
                    if self.retry < u64::MAX {
                        self.retry = self.retry + 1;
                    }
                    Action::Dial
                } else {
                    Action::Idle
                }
            },
            Event::DialFailed => {
                if self.phase == Phase::Connecting {
                    self.phase = Phase::Disconnected;
                    Action::StartTimer(self.delay)
                } else {
                    Action::Idle
                }
            },
            Event::DialSucceeded => {
                if self.phase == Phase::Connecting {
                    self.phase = Phase::Connected;
                    self.delay = INITIAL_DELAY_MS;
                    self.retry = 0;
                    self.write_next()
                } else {
                    Action::Idle
                }
            },
            Event::Written => {
                if self.phase == Phase::Connected {
                    self.write_next()
                } else {
                    Action::Idle
                }
            },
            Event::Frame(frame) => {
                if self.phase == Phase::Connected {
                    self.buffer.push_back(frame);
                    match self.buffer.pop_front() {
                        Some(head) => {
                            assert(self.buffer@ =~= old(self)@.buffer.push(frame).skip(1));
                            Action::Write(head)
                        },
                        None => Action::Idle,
                    }
                } else {
                    self.buffer_frame(frame);
                    Action::Idle
                }
            },
            Event::LinkFailed => {
                if self.phase == Phase::Connected {
                    self.phase = Phase::Connecting;
                    Action::Dial
                } else {
                    Action::Idle
                }
            },
            Event::Closed => {
                self.phase = Phase::Stopped;
                Action::Stop
            },
        }
    }
}

} // verus!
