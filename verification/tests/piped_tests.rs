//! The piped-process driver, event by event.

use ht_core::nbio::IoFailure;
use ht_core::piped::{Action, Driver, Event, Phase, Stop, Stream};

const WAIT: Action = Action::Select { stderr: true };

fn broken() -> IoFailure {
    IoFailure { would_block: false, os_code: Some(109) }
}

#[test]
fn input_is_written_then_flushed() {
    let mut driver = Driver::new();
    assert_eq!(driver.phase(), Phase::Selecting);
    assert!(driver.stderr_open());
    assert_eq!(driver.step(Event::Input(Some(b"dir\r\n".to_vec()))), Action::WriteStdin(5));
    assert_eq!(driver.pending().as_slice(), b"dir\r\n");
    assert_eq!(driver.step(Event::StdinWritten(true)), Action::FlushStdin);
    assert!(driver.pending().is_empty());
    assert_eq!(driver.step(Event::StdinFlushed(true)), WAIT);
    assert_eq!(driver.phase(), Phase::Selecting);

    // an empty message is written and flushed too
    assert_eq!(driver.step(Event::Input(Some(Vec::new()))), Action::WriteStdin(0));
    assert_eq!(driver.step(Event::StdinWritten(true)), Action::FlushStdin);
    assert_eq!(driver.step(Event::StdinFlushed(true)), WAIT);
}

#[test]
fn input_that_arrives_during_a_write_waits_its_turn() {
    let mut driver = Driver::new();
    assert_eq!(driver.step(Event::Input(Some(b"one".to_vec()))), Action::WriteStdin(3));
    assert_eq!(driver.step(Event::Input(Some(b"two".to_vec()))), Action::WriteStdin(3));
    assert_eq!(driver.pending().as_slice(), b"onetwo");
    assert_eq!(driver.step(Event::StdinWritten(true)), Action::FlushStdin);
    assert_eq!(driver.pending().as_slice(), b"two");
    assert_eq!(driver.step(Event::StdinFlushed(true)), Action::WriteStdin(3));
    assert_eq!(driver.step(Event::StdinWritten(true)), Action::FlushStdin);
    assert_eq!(driver.step(Event::StdinFlushed(true)), WAIT);
    assert!(driver.pending().is_empty());
}

#[test]
fn lines_of_both_pipes_go_to_the_one_output_channel() {
    let mut driver = Driver::new();
    assert_eq!(driver.step(Event::Line(Stream::Stdout, Ok(12))), Action::Forward(Stream::Stdout));
    assert_eq!(driver.phase(), Phase::Forwarding(Stream::Stdout));
    assert_eq!(driver.step(Event::Forwarded(true)), WAIT);
    assert_eq!(driver.step(Event::Line(Stream::Stderr, Ok(1))), Action::Forward(Stream::Stderr));
    assert_eq!(driver.step(Event::Forwarded(true)), WAIT);
}

#[test]
fn stderr_closing_is_not_fatal() {
    let mut driver = Driver::new();
    assert_eq!(driver.step(Event::Line(Stream::Stderr, Ok(0))), Action::Select { stderr: false });
    assert!(!driver.stderr_open());
    assert_eq!(driver.phase(), Phase::Selecting);
    // stdout goes on
    assert_eq!(driver.step(Event::Line(Stream::Stdout, Ok(3))), Action::Forward(Stream::Stdout));
    assert_eq!(driver.step(Event::Forwarded(true)), Action::Select { stderr: false });
    // a late line of the closed pipe is not forwarded
    assert_eq!(driver.step(Event::Line(Stream::Stderr, Ok(3))), Action::Select { stderr: false });

    let mut driver = Driver::new();
    assert_eq!(
        driver.step(Event::Line(Stream::Stderr, Err(broken()))),
        Action::Select { stderr: false }
    );
    assert_eq!(driver.result(), None);
}

#[test]
fn stdout_closing_is_fatal() {
    let mut driver = Driver::new();
    assert_eq!(driver.step(Event::Line(Stream::Stdout, Ok(0))), Action::Kill);
    assert_eq!(driver.phase(), Phase::Killing(Stop::StdoutClosed));
    assert_eq!(driver.step(Event::Killed), Action::Report(Stop::StdoutClosed));
    assert_eq!(driver.result(), Some(Stop::StdoutClosed));

    let mut driver = Driver::new();
    assert_eq!(driver.step(Event::Line(Stream::Stdout, Err(broken()))), Action::Kill);
    assert_eq!(driver.step(Event::Killed), Action::Report(Stop::StdoutFailed(broken())));
}

#[test]
fn every_way_out_kills_the_child_first() {
    let ways: Vec<(Vec<Event>, Stop)> = vec![
        (vec![Event::Input(None)], Stop::InputClosed),
        (vec![Event::ChildExited], Stop::ChildExited),
        (
            vec![Event::Input(Some(vec![1])), Event::StdinWritten(false)],
            Stop::StdinWriteFailed,
        ),
        (
            vec![Event::Line(Stream::Stdout, Ok(4)), Event::Forwarded(false)],
            Stop::OutputClosed,
        ),
        (
            vec![Event::Line(Stream::Stderr, Ok(4)), Event::Forwarded(false)],
            Stop::OutputClosed,
        ),
        (
            vec![Event::Input(Some(vec![1])), Event::ChildExited],
            Stop::ChildExited,
        ),
        (
            vec![Event::Line(Stream::Stdout, Ok(4)), Event::Input(None)],
            Stop::InputClosed,
        ),
        (
            vec![Event::Input(Some(vec![1, 2])), Event::Input(None)],
            Stop::InputUndelivered(2),
        ),
        (
            vec![
                Event::Input(Some(vec![1, 2])),
                Event::Input(Some(vec![3])),
                Event::StdinWritten(true),
                Event::Input(None),
            ],
            Stop::InputUndelivered(1),
        ),
        (
            vec![
                Event::Input(Some(vec![1, 2])),
                Event::StdinWritten(true),
                Event::Input(None),
            ],
            Stop::InputClosed,
        ),
    ];
    for (events, stop) in ways {
        let mut driver = Driver::new();
        let mut last = WAIT;
        for event in events {
            last = driver.step(event);
        }
        assert_eq!(last, Action::Kill, "{:?}", stop);
        assert_eq!(driver.result(), None);
        assert_eq!(driver.step(Event::Forwarded(true)), Action::Kill);
        assert_eq!(driver.step(Event::Killed), Action::Report(stop));
        assert_eq!(driver.result(), Some(stop));
        assert_eq!(driver.step(Event::Input(Some(vec![1]))), Action::Report(stop));
        assert_eq!(driver.step(Event::Killed), Action::Report(stop));
    }
}

#[test]
fn a_failed_flush_does_not_end_the_session() {
    let mut driver = Driver::new();
    assert_eq!(driver.step(Event::Input(Some(b"one".to_vec()))), Action::WriteStdin(3));
    assert_eq!(driver.step(Event::StdinWritten(true)), Action::FlushStdin);
    assert_eq!(driver.step(Event::StdinFlushed(false)), WAIT);
    assert_eq!(driver.phase(), Phase::Selecting);
    assert_eq!(driver.result(), None);
    // input and output are served as before
    assert_eq!(driver.step(Event::Line(Stream::Stdout, Ok(4))), Action::Forward(Stream::Stdout));
    assert_eq!(driver.step(Event::Forwarded(true)), WAIT);
    assert_eq!(driver.step(Event::Input(Some(b"two".to_vec()))), Action::WriteStdin(3));
    assert_eq!(driver.step(Event::StdinWritten(true)), Action::FlushStdin);
    assert_eq!(driver.step(Event::StdinFlushed(true)), WAIT);

    // what arrived during the write is written after the failed flush
    let mut driver = Driver::new();
    driver.step(Event::Input(Some(b"one".to_vec())));
    driver.step(Event::Input(Some(b"two".to_vec())));
    assert_eq!(driver.step(Event::StdinWritten(true)), Action::FlushStdin);
    assert_eq!(driver.step(Event::StdinFlushed(false)), Action::WriteStdin(3));
    assert_eq!(driver.pending().as_slice(), b"two");
}

#[test]
fn piped_input_keeps_its_order() {
    let mut driver = Driver::new();
    let mut sent = Vec::new();
    let mut delivered = Vec::new();
    for i in 0..10u8 {
        let message = vec![i; (i as usize) + 1];
        sent.extend_from_slice(&message);
        let mut action = driver.step(Event::Input(Some(message)));
        if i % 2 == 0 {
            // the next message arrives before this one is through
            continue;
        }
        while let Action::WriteStdin(n) = action {
            delivered.extend_from_slice(&driver.pending()[..n]);
            assert_eq!(driver.step(Event::StdinWritten(true)), Action::FlushStdin);
            action = driver.step(Event::StdinFlushed(true));
        }
        assert_eq!(action, WAIT);
    }
    assert_eq!(delivered, sent);
}
