//! The non-blocking I/O adapter.

use ht_core::nbio::{self, IoFailure, PEER_CLOSED_CODE};

fn failure(would_block: bool, os_code: Option<i32>) -> IoFailure {
    IoFailure { would_block, os_code }
}

#[test]
fn bytes_processed_come_back_as_they_are() {
    for n in [0usize, 1, 100, 4096, 131072, usize::MAX] {
        assert_eq!(nbio::read(Ok(n)), Ok(Some(n)));
        assert_eq!(nbio::write(Ok(n)), Ok(Some(n)));
    }
}

#[test]
fn would_block_means_wait_and_retry() {
    assert_eq!(nbio::read(Err(failure(true, Some(11)))), Ok(None));
    assert_eq!(nbio::write(Err(failure(true, Some(11)))), Ok(None));
    assert_eq!(nbio::read(Err(failure(true, None))), Ok(None));
    // would-block wins over the error code
    assert_eq!(nbio::write(Err(failure(true, Some(5)))), Ok(None));
}

#[test]
fn peer_closed_reads_as_end_of_stream() {
    assert_eq!(PEER_CLOSED_CODE, 5);
    let closed = failure(false, Some(5));
    assert_eq!(nbio::read(Err(closed)), Ok(Some(0)));
    assert_eq!(nbio::write(Err(closed)), Ok(Some(0)));
    assert_eq!(nbio::read(Err(closed)), nbio::read(Ok(0)));
    assert_eq!(nbio::write(Err(closed)), nbio::write(Ok(0)));
}

#[test]
fn every_other_failure_is_fatal_and_comes_back_unchanged() {
    for e in [
        failure(false, None),
        failure(false, Some(0)),
        failure(false, Some(4)),
        failure(false, Some(6)),
        failure(false, Some(32)),
        failure(false, Some(-5)),
        failure(false, Some(i32::MAX)),
    ] {
        assert_eq!(nbio::read(Err(e)), Err(e));
        assert_eq!(nbio::write(Err(e)), Err(e));
    }
}

#[test]
fn the_adapter_matches_the_operating_system_errors() {
    let cases = [
        (std::io::Error::from(std::io::ErrorKind::WouldBlock), Ok(None)),
        (std::io::Error::from_raw_os_error(5), Ok(Some(0))),
    ];
    for (error, expected) in cases {
        let reduced = IoFailure {
            would_block: error.kind() == std::io::ErrorKind::WouldBlock,
            os_code: error.raw_os_error(),
        };
        assert_eq!(nbio::read(Err(reduced)), expected);
        assert_eq!(nbio::write(Err(reduced)), expected);
    }
    let broken = std::io::Error::from_raw_os_error(32);
    let reduced = IoFailure {
        would_block: broken.kind() == std::io::ErrorKind::WouldBlock,
        os_code: broken.raw_os_error(),
    };
    assert_eq!(nbio::read(Err(reduced)), Err(reduced));
}
