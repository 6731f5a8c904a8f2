use fdcanusb::{CanFdFrame, Framer, ReadError, Step};

fn frame() -> CanFdFrame {
    CanFdFrame::new(0x8001, &[1, 2, 3]).unwrap()
}

fn done(step: Step) -> Result<Option<CanFdFrame>, ReadError> {
    match step {
        Step::Done(r) => r,
        other => panic!("expected Done, got {:?}", other),
    }
}

#[test]
fn start_returns_command_and_awaits_ack() {
    let mut framer = Framer::new();
    assert!(!framer.in_transfer());
    let line = framer.start(frame(), false);
    assert_eq!(line.as_bytes(), b"can send 8001 010203\n");
    assert!(framer.in_transfer());
    assert_eq!(framer.free_space(), 256);
    assert!(matches!(framer.step(false), Step::Read));
}

#[test]
fn ack_without_response_is_fire_and_forget() {
    let mut framer = Framer::new();
    framer.start(frame(), false);
    framer.receive(b"OK\n");
    assert!(matches!(done(framer.step(false)), Ok(None)));
    assert!(!framer.in_transfer());
}

#[test]
fn ack_then_response_in_pieces() {
    let mut framer = Framer::with_buffer(vec![0; 64]);
    framer.start(frame(), true);
    framer.receive(b"O");
    assert!(matches!(framer.step(false), Step::Read));
    framer.receive(b"K\nrcv 8001 01");
    assert!(matches!(framer.step(false), Step::Acknowledged));
    assert!(matches!(framer.step(false), Step::Read));
    framer.receive(b"0203 B t42\n");
    let f = done(framer.step(false)).unwrap().unwrap();
    assert_eq!(f.arbitration_id, 0x8001);
    assert_eq!(f.data, vec![1, 2, 3]);
    assert_eq!(f.brs, Some(true));
    assert_eq!(f.timestamp, Some(42));
    assert!(!framer.in_transfer());
    assert_eq!(framer.free_space(), 64 - 25);
}

#[test]
fn bad_ack_loses_sync_and_skips_response() {
    let mut framer = Framer::new();
    framer.start(frame(), true);
    framer.receive(b"ERR\nrcv 8001 010203\n");
    match done(framer.step(false)) {
        Err(ReadError::LostSync { expected, received }) => {
            assert_eq!(expected, "OK");
            assert_eq!(received, "ERR\n");
        }
        other => panic!("unexpected {:?}", other),
    }
    assert!(!framer.in_transfer());
}

#[test]
fn next_transfer_discards_stale_bytes() {
    let mut framer = Framer::new();
    framer.start(frame(), true);
    framer.receive(b"ERR\nrcv 8001 010203\n");
    let _ = framer.step(false);
    framer.start(frame(), false);
    assert!(matches!(framer.step(false), Step::Read));
    framer.receive(b"OK\n");
    assert!(matches!(done(framer.step(false)), Ok(None)));
}

#[test]
fn ack_timeout_is_lost_sync() {
    let mut framer = Framer::new();
    framer.start(frame(), false);
    framer.receive(b"OK");
    match done(framer.step(true)) {
        Err(ReadError::LostSync { expected, received }) => {
            assert_eq!(expected, "OK");
            assert_eq!(received, "timeout");
        }
        other => panic!("unexpected {:?}", other),
    }
}

#[test]
fn response_timeout_is_lost_sync() {
    let mut framer = Framer::new();
    framer.start(frame(), true);
    framer.receive(b"OK\n");
    assert!(matches!(framer.step(true), Step::Acknowledged));
    match done(framer.step(true)) {
        Err(ReadError::LostSync { expected, received }) => {
            assert_eq!(expected, "rcv");
            assert_eq!(received, "timeout");
        }
        other => panic!("unexpected {:?}", other),
    }
}

#[test]
fn wrong_response_is_lost_sync() {
    let mut framer = Framer::new();
    framer.start(frame(), true);
    framer.receive(b"OK\nOK\n");
    assert!(matches!(framer.step(false), Step::Acknowledged));
    match done(framer.step(false)) {
        Err(ReadError::LostSync { expected, received }) => {
            assert_eq!(expected, "rcv");
            assert_eq!(received, "OK\n");
        }
        other => panic!("unexpected {:?}", other),
    }
}

#[test]
fn lost_sync_reports_invalid_bytes_lossily() {
    let mut framer = Framer::new();
    framer.start(frame(), false);
    framer.receive(b"E\xffR\n");
    match done(framer.step(false)) {
        Err(ReadError::LostSync { received, .. }) => assert_eq!(received, "E\u{FFFD}R\n"),
        other => panic!("unexpected {:?}", other),
    }
}

#[test]
fn response_that_is_not_utf8() {
    let mut framer = Framer::new();
    framer.start(frame(), true);
    framer.receive(b"OK\nrcv \xff\n");
    assert!(matches!(framer.step(false), Step::Acknowledged));
    assert!(matches!(done(framer.step(false)), Err(ReadError::Utf8(_))));
}

#[test]
fn response_that_does_not_parse() {
    let mut framer = Framer::new();
    framer.start(frame(), true);
    framer.receive(b"OK\nrcv 8001 0\n");
    assert!(matches!(framer.step(false), Step::Acknowledged));
    assert!(matches!(
        done(framer.step(false)),
        Err(ReadError::Parse(fdcanusb::ParseError::Data(_)))
    ));
}

#[test]
fn await_response_reads_buffered_line() {
    let mut framer = Framer::new();
    framer.start(frame(), false);
    framer.receive(b"OK\nrcv 0002 FF\n");
    assert!(matches!(done(framer.step(false)), Ok(None)));
    framer.await_response();
    let f = done(framer.step(false)).unwrap().unwrap();
    assert_eq!(f.arbitration_id, 2);
    assert_eq!(f.data, vec![0xFF]);
}

#[test]
fn full_buffer_without_newline_times_out() {
    let mut framer = Framer::with_buffer(vec![0; 4]);
    framer.start(frame(), false);
    framer.receive(b"OKOK");
    assert_eq!(framer.free_space(), 0);
    assert!(matches!(framer.step(false), Step::Read));
    assert!(matches!(done(framer.step(true)), Err(ReadError::LostSync { .. })));
}

#[test]
fn response_over_sixty_four_bytes_is_refused() {
    let mut framer = Framer::with_buffer(vec![0; 512]);
    framer.start(frame(), true);
    let packet = format!("OK\nrcv 8001 {}\n", "AB".repeat(65));
    framer.receive(packet.as_bytes());
    assert!(matches!(framer.step(false), Step::Acknowledged));
    assert!(matches!(
        done(framer.step(false)),
        Err(ReadError::Parse(fdcanusb::ParseError::DataLength(65)))
    ));
}
