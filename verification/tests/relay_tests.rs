use rs_proxy::connection::{AttemptPhase, Connection, ConnectionAttempt};
use rs_proxy::filter::FilterDecision;
use rs_proxy::relay::{DirectionStatus, RelayDirection, RelayEvent, RelayStep, StopCause};

#[test]
fn fresh_direction_counts_nothing() {
    let d = RelayDirection::new();
    assert_eq!(d.bytes_total(), 0);
    assert_eq!(d.status, DirectionStatus::Running);
    assert!(!d.is_done());
}

#[test]
fn chunk_is_forwarded_unchanged_and_counted() {
    let mut d = RelayDirection::new();
    let step = d.on_read(RelayEvent::ChunkRead(b"hello".to_vec()));
    match step {
        RelayStep::Forward(bytes) => assert_eq!(bytes, b"hello".to_vec()),
        RelayStep::Stop(_) => panic!("a successful read must be forwarded"),
    }
    d.on_write_result(true);
    assert_eq!(d.bytes_total(), 5);
    assert_eq!(d.status, DirectionStatus::Running);
}

#[test]
fn counter_accumulates_across_chunks() {
    let mut d = RelayDirection::new();
    let chunks: Vec<&[u8]> = vec![b"ab", b"cde", b"f"];
    for chunk in chunks {
        match d.on_read(RelayEvent::ChunkRead(chunk.to_vec())) {
            RelayStep::Forward(bytes) => assert_eq!(bytes, chunk.to_vec()),
            RelayStep::Stop(_) => panic!("a successful read must be forwarded"),
        }
        d.on_write_result(true);
    }
    assert_eq!(d.bytes_total(), 6);
}

#[test]
fn zero_read_stops_cleanly() {
    let mut d = RelayDirection::new();
    match d.on_read(RelayEvent::PeerClosed) {
        RelayStep::Stop(cause) => assert_eq!(cause, StopCause::CleanEof),
        RelayStep::Forward(_) => panic!("a close must stop the direction"),
    }
    assert_eq!(d.status, DirectionStatus::ClosedByPeer);
    assert!(d.is_done());
    assert_eq!(d.bytes_total(), 0);
}

#[test]
fn read_error_stops_abnormally() {
    let mut d = RelayDirection::new();
    match d.on_read(RelayEvent::ReadFailed) {
        RelayStep::Stop(cause) => assert_eq!(cause, StopCause::IoError),
        RelayStep::Forward(_) => panic!("a failed read must stop the direction"),
    }
    assert_eq!(d.status, DirectionStatus::Failed);
    assert!(d.is_done());
}

#[test]
fn write_error_stops_and_keeps_counter() {
    let mut d = RelayDirection::new();
    match d.on_read(RelayEvent::ChunkRead(b"xyz".to_vec())) {
        RelayStep::Forward(bytes) => assert_eq!(bytes.len(), 3),
        RelayStep::Stop(_) => panic!("a successful read must be forwarded"),
    }
    d.on_write_result(false);
    assert_eq!(d.status, DirectionStatus::Failed);
    assert_eq!(d.bytes_total(), 3);
}

#[test]
fn fresh_connection_starts_at_zero() {
    let c = Connection::new();
    assert_eq!(c.rx_bytes(), 0);
    assert_eq!(c.tx_bytes(), 0);
    assert!(!c.relay_done());
    assert!(!c.sockets_closed);
}

#[test]
fn counters_do_not_carry_over_between_connections() {
    let mut first = Connection::new();
    match first.on_client_read(RelayEvent::ChunkRead(b"old traffic".to_vec())) {
        RelayStep::Forward(_) => {}
        RelayStep::Stop(_) => panic!("a successful read must be forwarded"),
    }
    first.on_target_write_result(true);
    assert_eq!(first.rx_bytes(), 11);
    let second = Connection::new();
    assert_eq!(second.rx_bytes(), 0);
    assert_eq!(second.tx_bytes(), 0);
}

#[test]
fn echo_round_trip_through_connection() {
    let mut c = Connection::new();
    match c.on_client_read(RelayEvent::ChunkRead(b"hello".to_vec())) {
        RelayStep::Forward(bytes) => assert_eq!(bytes, b"hello".to_vec()),
        RelayStep::Stop(_) => panic!("a successful read must be forwarded"),
    }
    c.on_target_write_result(true);
    match c.on_target_read(RelayEvent::ChunkRead(b"hello".to_vec())) {
        RelayStep::Forward(bytes) => assert_eq!(bytes, b"hello".to_vec()),
        RelayStep::Stop(_) => panic!("a successful read must be forwarded"),
    }
    c.on_client_write_result(true);
    assert_eq!(c.rx_bytes(), 5);
    assert_eq!(c.tx_bytes(), 5);
    match c.on_client_read(RelayEvent::PeerClosed) {
        RelayStep::Stop(cause) => assert_eq!(cause, StopCause::CleanEof),
        RelayStep::Forward(_) => panic!("a close must stop the direction"),
    }
    match c.on_target_read(RelayEvent::PeerClosed) {
        RelayStep::Stop(cause) => assert_eq!(cause, StopCause::CleanEof),
        RelayStep::Forward(_) => panic!("a close must stop the direction"),
    }
    assert!(c.relay_done());
    c.close();
    assert!(c.sockets_closed);
    assert_eq!(c.rx_bytes(), 5);
    assert_eq!(c.tx_bytes(), 5);
}

#[test]
fn one_direction_may_outlive_the_other() {
    let mut c = Connection::new();
    match c.on_client_read(RelayEvent::PeerClosed) {
        RelayStep::Stop(cause) => assert_eq!(cause, StopCause::CleanEof),
        RelayStep::Forward(_) => panic!("a close must stop the direction"),
    }
    assert!(!c.relay_done());
    match c.on_target_read(RelayEvent::ChunkRead(b"late reply".to_vec())) {
        RelayStep::Forward(bytes) => assert_eq!(bytes, b"late reply".to_vec()),
        RelayStep::Stop(_) => panic!("a successful read must be forwarded"),
    }
    c.on_client_write_result(true);
    match c.on_target_read(RelayEvent::PeerClosed) {
        RelayStep::Stop(_) => {}
        RelayStep::Forward(_) => panic!("a close must stop the direction"),
    }
    assert!(c.relay_done());
    c.close();
    assert_eq!(c.rx_bytes(), 0);
    assert_eq!(c.tx_bytes(), 10);
}

#[test]
fn denied_attempt_never_reaches_dialing() {
    let mut attempt = ConnectionAttempt::new();
    assert_eq!(attempt.phase, AttemptPhase::Accepted);
    let allow = vec![String::from("10.0.0.1")];
    let d = attempt.screen(&allow, &String::from("127.0.0.1"));
    assert_eq!(d, FilterDecision::Denied);
    assert_eq!(attempt.phase, AttemptPhase::Denied);
    attempt.finish();
    assert_eq!(attempt.phase, AttemptPhase::Closed);
}

#[test]
fn permitted_attempt_dials_and_relays() {
    let mut attempt = ConnectionAttempt::new();
    let empty: Vec<String> = Vec::new();
    let d = attempt.screen(&empty, &String::from("198.51.100.7"));
    assert_eq!(d, FilterDecision::Permitted);
    assert_eq!(attempt.phase, AttemptPhase::Dialing);
    attempt.on_dial_result(true);
    assert_eq!(attempt.phase, AttemptPhase::Relaying);
    attempt.finish();
    assert_eq!(attempt.phase, AttemptPhase::Closed);
}

#[test]
fn dial_failure_ends_only_this_attempt() {
    let mut attempt = ConnectionAttempt::new();
    let empty: Vec<String> = Vec::new();
    let d = attempt.screen(&empty, &String::from("203.0.113.9"));
    assert_eq!(d, FilterDecision::Permitted);
    attempt.on_dial_result(false);
    assert_eq!(attempt.phase, AttemptPhase::DialFailed);
    attempt.finish();
    assert_eq!(attempt.phase, AttemptPhase::Closed);
    let next = ConnectionAttempt::new();
    assert_eq!(next.phase, AttemptPhase::Accepted);
}
