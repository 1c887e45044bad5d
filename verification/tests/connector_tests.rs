use dash_plat::backoff::{next_delay, INITIAL_DELAY_MS, MAX_DELAY_MS};
use dash_plat::connector::{Action, Connection, Event, Phase, BUFFER_CAPACITY, DROP_COUNT};
use dash_plat::fabric::{Client, Server};
use dash_plat::types::PeerAddr;

fn frame(n: u32) -> Vec<u8> {
    n.to_be_bytes().to_vec()
}

fn down_connector() -> Connection {
    let mut c = Connection::new();
    assert_eq!(c.step(Event::Start), Action::Dial);
    assert_eq!(c.step(Event::DialFailed), Action::StartTimer(200));
    c
}

#[test]
fn delays_double_up_to_the_cap() {
    let mut delay = INITIAL_DELAY_MS;
    let mut seen = vec![delay];
    for _ in 0..11 {
        delay = next_delay(delay);
        seen.push(delay);
    }
    assert_eq!(
        seen,
        vec![200, 400, 800, 1600, 3200, 6400, 12800, 25600, 51200, 60000, 60000, 60000]
    );
}

#[test]
fn next_delay_at_the_edges() {
    assert_eq!(next_delay(0), 0);
    assert_eq!(next_delay(29_999), 59_998);
    assert_eq!(next_delay(30_000), MAX_DELAY_MS);
    assert_eq!(next_delay(MAX_DELAY_MS), MAX_DELAY_MS);
    assert_eq!(next_delay(u64::MAX), MAX_DELAY_MS);
}

#[test]
fn connector_starts_disconnected() {
    let c = Connection::new();
    assert_eq!(c.phase(), Phase::Disconnected);
    assert_eq!(c.delay(), 200);
    assert_eq!(c.retry(), 0);
    assert_eq!(c.buffered(), 0);
}

#[test]
fn failed_dials_back_off() {
    let mut c = Connection::new();
    assert_eq!(c.step(Event::Start), Action::Dial);
    assert_eq!(c.phase(), Phase::Connecting);
    let mut timers = Vec::new();
    for _ in 0..11 {
        match c.step(Event::DialFailed) {
            Action::StartTimer(ms) => timers.push(ms),
            other => panic!("unexpected action {:?}", other),
        }
        assert_eq!(c.phase(), Phase::Disconnected);
        assert_eq!(c.step(Event::TimerFired), Action::Dial);
        assert_eq!(c.phase(), Phase::Connecting);
    }
    assert_eq!(
        timers,
        vec![200, 400, 800, 1600, 3200, 6400, 12800, 25600, 51200, 60000, 60000]
    );
    assert_eq!(c.retry(), 11);
}

#[test]
fn successful_dial_resets_delay_and_retry() {
    let mut c = down_connector();
    assert_eq!(c.step(Event::TimerFired), Action::Dial);
    assert_eq!(c.step(Event::DialFailed), Action::StartTimer(400));
    assert_eq!(c.step(Event::TimerFired), Action::Dial);
    assert_eq!(c.delay(), 800);
    assert_eq!(c.retry(), 2);
    assert_eq!(c.step(Event::DialSucceeded), Action::Idle);
    assert_eq!(c.phase(), Phase::Connected);
    assert_eq!(c.delay(), 200);
    assert_eq!(c.retry(), 0);
}

#[test]
fn connected_frames_go_straight_to_the_link() {
    let mut c = Connection::new();
    c.step(Event::Start);
    assert_eq!(c.step(Event::DialSucceeded), Action::Idle);
    for n in 0..5 {
        assert_eq!(c.step(Event::Frame(frame(n))), Action::Write(frame(n)));
        assert_eq!(c.step(Event::Written), Action::Idle);
    }
    assert_eq!(c.buffered(), 0);
}

#[test]
fn buffered_frames_are_flushed_in_order_after_connect() {
    let mut c = down_connector();
    for n in 0..3 {
        assert_eq!(c.step(Event::Frame(frame(n))), Action::Idle);
    }
    assert_eq!(c.buffered(), 3);
    assert_eq!(c.step(Event::TimerFired), Action::Dial);
    assert_eq!(c.step(Event::DialSucceeded), Action::Write(frame(0)));
    assert_eq!(c.step(Event::Written), Action::Write(frame(1)));
    assert_eq!(c.step(Event::Written), Action::Write(frame(2)));
    assert_eq!(c.step(Event::Written), Action::Idle);
    assert_eq!(c.step(Event::Frame(frame(3))), Action::Write(frame(3)));
}

#[test]
fn frame_that_comes_during_a_flush_waits_its_turn() {
    let mut c = down_connector();
    c.step(Event::Frame(frame(0)));
    c.step(Event::Frame(frame(1)));
    c.step(Event::TimerFired);
    assert_eq!(c.step(Event::DialSucceeded), Action::Write(frame(0)));
    assert_eq!(c.step(Event::Frame(frame(2))), Action::Write(frame(1)));
    assert_eq!(c.step(Event::Written), Action::Write(frame(2)));
    assert_eq!(c.step(Event::Written), Action::Idle);
}

#[test]
fn full_buffer_drops_the_oldest_four_hundred() {
    let mut c = down_connector();
    for n in 0..BUFFER_CAPACITY as u32 {
        assert_eq!(c.step(Event::Frame(frame(n))), Action::Idle);
    }
    assert_eq!(c.buffered(), 1000);
    assert_eq!(c.step(Event::Frame(frame(1000))), Action::Idle);
    assert_eq!(c.buffered(), BUFFER_CAPACITY + 1 - DROP_COUNT);
    assert_eq!(c.buffered(), 601);
    c.step(Event::TimerFired);
    assert_eq!(c.step(Event::DialSucceeded), Action::Write(frame(400)));
    assert_eq!(c.step(Event::Written), Action::Write(frame(401)));
}

#[test]
fn peer_down_for_fifteen_hundred_frames() {
    let mut c = down_connector();
    for n in 0..1500u32 {
        assert_eq!(c.step(Event::Frame(frame(n))), Action::Idle);
        if n % 100 == 99 {
            c.step(Event::TimerFired);
            c.step(Event::DialFailed);
        }
    }
    assert_eq!(c.buffered(), 700);
    assert_eq!(c.step(Event::TimerFired), Action::Dial);
    let mut action = c.step(Event::DialSucceeded);
    let mut received = Vec::new();
    while let Action::Write(body) = action {
        received.push(body);
        action = c.step(Event::Written);
    }
    let expected: Vec<Vec<u8>> = (800..1500u32).map(frame).collect();
    assert_eq!(received, expected);
    assert_eq!(c.buffered(), 0);
    assert_eq!(c.step(Event::Frame(frame(1500))), Action::Write(frame(1500)));
    assert_eq!(c.step(Event::Written), Action::Idle);
    assert_eq!(c.step(Event::Frame(frame(1501))), Action::Write(frame(1501)));
}

#[test]
fn link_failure_redials_and_keeps_the_buffer() {
    let mut c = down_connector();
    c.step(Event::Frame(frame(0)));
    c.step(Event::Frame(frame(1)));
    c.step(Event::TimerFired);
    assert_eq!(c.step(Event::DialSucceeded), Action::Write(frame(0)));
    assert_eq!(c.step(Event::LinkFailed), Action::Dial);
    assert_eq!(c.phase(), Phase::Connecting);
    assert_eq!(c.buffered(), 1);
    assert_eq!(c.step(Event::DialSucceeded), Action::Write(frame(1)));
}

#[test]
fn events_out_of_place_change_nothing() {
    let mut c = Connection::new();
    assert_eq!(c.step(Event::DialSucceeded), Action::Idle);
    assert_eq!(c.step(Event::DialFailed), Action::Idle);
    assert_eq!(c.step(Event::Written), Action::Idle);
    assert_eq!(c.step(Event::LinkFailed), Action::Idle);
    assert_eq!(c.phase(), Phase::Disconnected);
    assert_eq!(c.delay(), 200);
    c.step(Event::Start);
    assert_eq!(c.step(Event::Start), Action::Idle);
    assert_eq!(c.step(Event::TimerFired), Action::Idle);
    assert_eq!(c.delay(), 200);
    assert_eq!(c.retry(), 0);
    c.step(Event::DialSucceeded);
    assert_eq!(c.step(Event::TimerFired), Action::Idle);
    assert_eq!(c.step(Event::DialFailed), Action::Idle);
    assert_eq!(c.phase(), Phase::Connected);
}

#[test]
fn fabric_makes_a_connector_on_first_use_and_keeps_it() {
    let a = PeerAddr { ip: 1, port: 3000 };
    let b = PeerAddr { ip: 1, port: 3002 };
    let mut fabric = Client::new();
    assert_eq!(fabric.worker_count(), 0);
    assert!(!fabric.has_worker(&a));
    let first = fabric.route(a, frame(0));
    assert!(first.created);
    assert_eq!(first.action, Action::Idle);
    let second = fabric.route(a, frame(1));
    assert!(!second.created);
    assert_eq!(second.action, Action::Idle);
    let other = fabric.route(b, frame(9));
    assert!(other.created);
    assert_eq!(fabric.worker_count(), 2);
    assert!(fabric.has_worker(&a) && fabric.has_worker(&b));
    let up = fabric.dispatch(a, Event::DialSucceeded);
    assert!(!up.created);
    assert_eq!(up.action, Action::Write(frame(0)));
    assert_eq!(fabric.dispatch(a, Event::Written).action, Action::Write(frame(1)));
    assert_eq!(fabric.dispatch(b, Event::DialSucceeded).action, Action::Write(frame(9)));
    assert_eq!(fabric.route(a, frame(2)).action, Action::Write(frame(2)));
    assert_eq!(fabric.dispatch(a, Event::Written).action, Action::Idle);
}

#[test]
fn server_routes_to_accepted_connections_only() {
    let a = PeerAddr { ip: 7, port: 1 };
    let b = PeerAddr { ip: 7, port: 2 };
    let mut server: Server<u32> = Server::new();
    assert_eq!(server.route(&a), None);
    assert_eq!(server.accept(a, 10), None);
    assert_eq!(server.accept(b, 20), None);
    assert_eq!(server.route(&a), Some(&10));
    assert_eq!(server.accept(a, 11), Some(10));
    assert_eq!(server.route(&a), Some(&11));
    assert_eq!(server.disconnect(&a), Some(11));
    assert_eq!(server.route(&a), None);
    assert_eq!(server.disconnect(&a), None);
    assert_eq!(server.route(&b), Some(&20));
}

#[test]
fn closed_queue_ends_the_connector_in_every_phase() {
    let mut idle = Connection::new();
    assert_eq!(idle.step(Event::Closed), Action::Stop);
    assert_eq!(idle.phase(), Phase::Stopped);

    let mut waiting = down_connector();
    waiting.step(Event::Frame(frame(0)));
    assert_eq!(waiting.step(Event::Closed), Action::Stop);
    assert_eq!(waiting.phase(), Phase::Stopped);

    let mut up = Connection::new();
    up.step(Event::Start);
    up.step(Event::DialSucceeded);
    assert_eq!(up.step(Event::Frame(frame(1))), Action::Write(frame(1)));
    assert_eq!(up.step(Event::Closed), Action::Stop);
    assert_eq!(up.phase(), Phase::Stopped);
}

#[test]
fn ended_connector_asks_for_nothing() {
    let mut c = down_connector();
    c.step(Event::Frame(frame(0)));
    assert_eq!(c.step(Event::Closed), Action::Stop);
    for event in [
        Event::Start,
        Event::TimerFired,
        Event::DialSucceeded,
        Event::DialFailed,
        Event::Written,
        Event::LinkFailed,
        Event::Frame(frame(1)),
    ] {
        assert_eq!(c.step(event), Action::Idle);
        assert_eq!(c.phase(), Phase::Stopped);
    }
    assert_eq!(c.step(Event::Closed), Action::Stop);
    assert_eq!(c.delay(), 200);
    assert_eq!(c.retry(), 0);
}

#[test]
fn fabric_hands_back_the_dial_of_a_new_connector() {
    let a = PeerAddr { ip: 9, port: 1 };
    let mut fabric = Client::new();
    let first = fabric.route(a, frame(0));
    assert!(first.created);
    assert_eq!(first.first, Action::Dial);
    assert_eq!(first.action, Action::Idle);
    let second = fabric.route(a, frame(1));
    assert!(!second.created);
    assert_eq!(second.first, Action::Idle);
    let closed = fabric.dispatch(a, Event::Closed);
    assert_eq!(closed.first, Action::Idle);
    assert_eq!(closed.action, Action::Stop);
    assert_eq!(fabric.dispatch(a, Event::DialSucceeded).action, Action::Idle);
}
