//! The pseudo-terminal driver, event by event.

use ht_core::nbio::IoFailure;
use ht_core::pty::{Action, Clear, Driver, Event, Fault, Phase, READ_BUF_SIZE};

const WAIT: Action = Action::Select { write: false, clear: Clear::Nothing };
const WAIT_TO_WRITE: Action = Action::Select { write: true, clear: Clear::Nothing };

fn would_block() -> IoFailure {
    IoFailure { would_block: true, os_code: Some(11) }
}

fn peer_closed() -> IoFailure {
    IoFailure { would_block: false, os_code: Some(5) }
}

fn broken() -> IoFailure {
    IoFailure { would_block: false, os_code: Some(9) }
}

/// Hangs up on the child and reaps it; returns what the driver reports.
fn shut_down(driver: &mut Driver) -> Action {
    assert_eq!(driver.step(Event::HungUp), Action::Reap);
    driver.step(Event::Reaped)
}

#[test]
fn a_fresh_driver_waits_with_nothing_to_write() {
    let mut driver = Driver::new();
    assert_eq!(driver.phase(), Phase::Selecting);
    assert!(driver.pending().is_empty());
    assert!(!driver.wants_write());
    assert_eq!(driver.result(), None);
    // write readiness without pending input starts no write
    assert_eq!(driver.step(Event::Writable(Ok(()))), WAIT);
    assert_eq!(READ_BUF_SIZE, 128 * 1024);
}

#[test]
fn input_is_appended_and_written_from_the_head() {
    let mut driver = Driver::new();
    assert_eq!(driver.step(Event::Input(Some(b"hello ".to_vec()))), WAIT_TO_WRITE);
    assert_eq!(driver.step(Event::Input(Some(b"world".to_vec()))), WAIT_TO_WRITE);
    assert_eq!(driver.pending().as_slice(), b"hello world");

    assert_eq!(driver.step(Event::Writable(Ok(()))), Action::Write);
    assert_eq!(driver.phase(), Phase::Writing);
    // a short write leaves the remainder
    assert_eq!(driver.step(Event::WriteDone(Ok(4))), Action::Write);
    assert_eq!(driver.pending().as_slice(), b"o world");
    // would-block clears the readiness flag and suspends
    assert_eq!(
        driver.step(Event::WriteDone(Err(would_block()))),
        Action::Select { write: true, clear: Clear::Writable }
    );
    assert_eq!(driver.pending().as_slice(), b"o world");
    // input that arrives meanwhile goes to the tail
    assert_eq!(driver.step(Event::Input(Some(b"!".to_vec()))), WAIT_TO_WRITE);
    assert_eq!(driver.step(Event::Writable(Ok(()))), Action::Write);
    assert_eq!(driver.step(Event::WriteDone(Ok(8))), WAIT);
    assert!(driver.pending().is_empty());
    assert_eq!(driver.phase(), Phase::Selecting);
}

#[test]
fn ten_markers_keep_their_order() {
    let mut driver = Driver::new();
    let mut sent = Vec::new();
    for i in 0..10 {
        let marker = format!("MARKER{:02};", i).into_bytes();
        sent.extend_from_slice(&marker);
        assert_eq!(driver.step(Event::Input(Some(marker))), WAIT_TO_WRITE);
    }
    assert_eq!(driver.pending(), &sent);
    let mut delivered = Vec::new();
    let mut step_size = 1;
    while driver.wants_write() {
        assert_eq!(driver.step(Event::Writable(Ok(()))), Action::Write);
        let n = std::cmp::min(step_size, driver.pending().len());
        delivered.extend_from_slice(&driver.pending()[..n]);
        driver.step(Event::WriteDone(Ok(n)));
        if driver.phase() == Phase::Writing {
            driver.step(Event::WriteDone(Err(would_block())));
        }
        step_size += 3;
    }
    assert_eq!(delivered, sent);
}

#[test]
fn no_byte_is_lost_for_any_payload_size() {
    for size in [100usize, 1000, 1500, 2000, 5000, 10000] {
        let payload: Vec<u8> = (0..size).map(|i| (i % 253) as u8).collect();
        let policy = ht_core::chunking::ChunkPolicy::standard();
        let mut driver = Driver::new();
        let mut delivered = Vec::new();
        for piece in policy.pace(payload.clone()) {
            driver.step(Event::Input(Some(piece)));
            // the transport takes at most 300 bytes per readiness
            assert_eq!(driver.step(Event::Writable(Ok(()))), Action::Write);
            let n = std::cmp::min(300, driver.pending().len());
            delivered.extend_from_slice(&driver.pending()[..n]);
            if driver.step(Event::WriteDone(Ok(n))) == Action::Write {
                driver.step(Event::WriteDone(Err(would_block())));
            }
        }
        while driver.wants_write() {
            driver.step(Event::Writable(Ok(())));
            let n = std::cmp::min(300, driver.pending().len());
            delivered.extend_from_slice(&driver.pending()[..n]);
            if driver.step(Event::WriteDone(Ok(n))) == Action::Write {
                driver.step(Event::WriteDone(Err(would_block())));
            }
        }
        assert_eq!(delivered.len(), size);
        assert_eq!(delivered, payload);
    }
}

#[test]
fn every_read_is_forwarded_as_one_chunk() {
    let mut driver = Driver::new();
    assert_eq!(driver.step(Event::Readable(Ok(()))), Action::Read);
    assert_eq!(driver.step(Event::ReadDone(Ok(17))), Action::Forward(17));
    assert_eq!(driver.phase(), Phase::Forwarding(17));
    assert_eq!(driver.step(Event::Forwarded(true)), Action::Read);
    assert_eq!(driver.step(Event::ReadDone(Ok(READ_BUF_SIZE))), Action::Forward(READ_BUF_SIZE));
    assert_eq!(driver.step(Event::Forwarded(true)), Action::Read);
    assert_eq!(
        driver.step(Event::ReadDone(Err(would_block()))),
        Action::Select { write: false, clear: Clear::Readable }
    );
    assert_eq!(driver.phase(), Phase::Selecting);
}

#[test]
fn end_of_stream_ends_the_session_cleanly() {
    let mut driver = Driver::new();
    driver.step(Event::Readable(Ok(())));
    assert_eq!(driver.step(Event::ReadDone(Ok(0))), Action::Hangup);
    assert_eq!(shut_down(&mut driver), Action::Report(Ok(())));

    // so does the peer-closed condition, on read and on write
    let mut driver = Driver::new();
    driver.step(Event::Readable(Ok(())));
    assert_eq!(driver.step(Event::ReadDone(Err(peer_closed()))), Action::Hangup);
    assert_eq!(shut_down(&mut driver), Action::Report(Ok(())));

    let mut driver = Driver::new();
    driver.step(Event::Input(Some(vec![1, 2, 3])));
    driver.step(Event::Writable(Ok(())));
    assert_eq!(driver.step(Event::WriteDone(Err(peer_closed()))), Action::Hangup);
    assert_eq!(shut_down(&mut driver), Action::Report(Ok(())));

    let mut driver = Driver::new();
    driver.step(Event::Input(Some(vec![1, 2, 3])));
    driver.step(Event::Writable(Ok(())));
    assert_eq!(driver.step(Event::WriteDone(Ok(0))), Action::Hangup);
    assert_eq!(shut_down(&mut driver), Action::Report(Ok(())));
    assert_eq!(driver.result(), Some(Ok(())));
}

#[test]
fn closing_the_input_channel_shuts_the_session_down() {
    let mut driver = Driver::new();
    assert_eq!(driver.step(Event::Input(None)), Action::Hangup);
    assert_eq!(driver.phase(), Phase::HangingUp(Ok(())));
    assert_eq!(driver.result(), None);
    assert_eq!(driver.step(Event::HungUp), Action::Reap);
    assert_eq!(driver.phase(), Phase::Reaping(Ok(())));
    assert_eq!(driver.step(Event::Reaped), Action::Report(Ok(())));
    assert_eq!(driver.phase(), Phase::Finished(Ok(())));
    assert_eq!(driver.result(), Some(Ok(())));
    // and stays down
    assert_eq!(driver.step(Event::Input(Some(vec![1]))), Action::Report(Ok(())));
    assert_eq!(driver.step(Event::Readable(Ok(()))), Action::Report(Ok(())));
    assert!(driver.pending().is_empty());
}

#[test]
fn closing_the_input_channel_with_bytes_pending_is_an_error() {
    // in the middle of a write
    let mut driver = Driver::new();
    driver.step(Event::Input(Some(vec![1, 2, 3])));
    driver.step(Event::Writable(Ok(())));
    assert_eq!(driver.step(Event::Input(None)), Action::Hangup);
    assert_eq!(driver.phase(), Phase::HangingUp(Err(Fault::Undelivered(3))));
    assert_eq!(shut_down(&mut driver), Action::Report(Err(Fault::Undelivered(3))));
    assert_eq!(driver.result(), Some(Err(Fault::Undelivered(3))));
    assert_eq!(driver.pending().as_slice(), &[1, 2, 3]);

    // while waiting, after a short write
    let mut driver = Driver::new();
    driver.step(Event::Input(Some(b"hello".to_vec())));
    driver.step(Event::Writable(Ok(())));
    driver.step(Event::WriteDone(Ok(2)));
    driver.step(Event::WriteDone(Err(would_block())));
    assert_eq!(driver.phase(), Phase::Selecting);
    assert_eq!(driver.step(Event::Input(None)), Action::Hangup);
    assert_eq!(shut_down(&mut driver), Action::Report(Err(Fault::Undelivered(3))));

    // while reading
    let mut driver = Driver::new();
    driver.step(Event::Input(Some(vec![9])));
    driver.step(Event::Readable(Ok(())));
    assert_eq!(driver.step(Event::Input(None)), Action::Hangup);
    assert_eq!(shut_down(&mut driver), Action::Report(Err(Fault::Undelivered(1))));

    // once everything has been written, the close is clean again
    let mut driver = Driver::new();
    driver.step(Event::Input(Some(b"hello".to_vec())));
    driver.step(Event::Writable(Ok(())));
    driver.step(Event::WriteDone(Ok(5)));
    assert_eq!(driver.step(Event::Input(None)), Action::Hangup);
    assert_eq!(shut_down(&mut driver), Action::Report(Ok(())));

    // an empty message leaves nothing pending
    let mut driver = Driver::new();
    driver.step(Event::Input(Some(Vec::new())));
    assert_eq!(driver.step(Event::Input(None)), Action::Hangup);
    assert_eq!(shut_down(&mut driver), Action::Report(Ok(())));
}

#[test]
fn fatal_failures_end_the_session_with_the_failure() {
    let mut driver = Driver::new();
    driver.step(Event::Readable(Ok(())));
    assert_eq!(driver.step(Event::ReadDone(Err(broken()))), Action::Hangup);
    assert_eq!(shut_down(&mut driver), Action::Report(Err(Fault::Io(broken()))));

    let mut driver = Driver::new();
    driver.step(Event::Input(Some(vec![1])));
    driver.step(Event::Writable(Ok(())));
    assert_eq!(driver.step(Event::WriteDone(Err(broken()))), Action::Hangup);
    assert_eq!(shut_down(&mut driver), Action::Report(Err(Fault::Io(broken()))));

    let mut driver = Driver::new();
    assert_eq!(driver.step(Event::Readable(Err(broken()))), Action::Hangup);
    assert_eq!(shut_down(&mut driver), Action::Report(Err(Fault::Io(broken()))));

    let mut driver = Driver::new();
    driver.step(Event::Input(Some(vec![1])));
    assert_eq!(driver.step(Event::Writable(Err(broken()))), Action::Hangup);
    assert_eq!(shut_down(&mut driver), Action::Report(Err(Fault::Io(broken()))));

    let mut driver = Driver::new();
    driver.step(Event::Readable(Ok(())));
    driver.step(Event::ReadDone(Ok(5)));
    assert_eq!(driver.step(Event::Forwarded(false)), Action::Hangup);
    assert_eq!(shut_down(&mut driver), Action::Report(Err(Fault::OutputClosed)));
    assert_eq!(driver.result(), Some(Err(Fault::OutputClosed)));
}

#[test]
fn a_transport_that_overruns_its_buffer_is_a_fault() {
    let mut driver = Driver::new();
    driver.step(Event::Readable(Ok(())));
    assert_eq!(driver.step(Event::ReadDone(Ok(READ_BUF_SIZE + 1))), Action::Hangup);
    assert_eq!(shut_down(&mut driver), Action::Report(Err(Fault::Overrun)));

    let mut driver = Driver::new();
    driver.step(Event::Input(Some(vec![1, 2, 3])));
    driver.step(Event::Writable(Ok(())));
    assert_eq!(driver.step(Event::WriteDone(Ok(4))), Action::Hangup);
    assert_eq!(driver.pending().as_slice(), &[1, 2, 3]);
    assert_eq!(shut_down(&mut driver), Action::Report(Err(Fault::Overrun)));
}

#[test]
fn events_out_of_turn_change_nothing() {
    let mut driver = Driver::new();
    assert_eq!(driver.step(Event::ReadDone(Ok(5))), WAIT);
    assert_eq!(driver.step(Event::WriteDone(Ok(5))), WAIT);
    assert_eq!(driver.step(Event::Forwarded(true)), WAIT);
    assert_eq!(driver.step(Event::HungUp), WAIT);
    assert_eq!(driver.step(Event::Reaped), WAIT);
    assert_eq!(driver.phase(), Phase::Selecting);

    driver.step(Event::Readable(Ok(())));
    assert_eq!(driver.step(Event::Writable(Ok(()))), Action::Read);
    assert_eq!(driver.step(Event::Readable(Ok(()))), Action::Read);
    // input is taken in every phase of the loop
    assert_eq!(driver.step(Event::Input(Some(vec![7, 8]))), Action::Read);
    assert_eq!(driver.pending().as_slice(), &[7, 8]);
    driver.step(Event::ReadDone(Ok(3)));
    assert_eq!(driver.step(Event::ReadDone(Ok(9))), Action::Forward(3));

    driver.step(Event::Input(None));
    assert_eq!(driver.step(Event::Reaped), Action::Hangup);
    assert_eq!(driver.step(Event::Input(Some(vec![9]))), Action::Hangup);
    assert_eq!(driver.pending().as_slice(), &[7, 8]);
    driver.step(Event::HungUp);
    assert_eq!(driver.step(Event::HungUp), Action::Reap);
}
