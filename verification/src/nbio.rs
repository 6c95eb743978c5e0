//! Non-blocking I/O adapter.
//!
//! A read or write attempted on a descriptor in non-blocking mode ends in one
//! of three ways: bytes were processed, the attempt would have blocked, or it
//! failed for good. The adapter takes the raw outcome of one attempt and
//! reduces it to that tri-state, folding the "peer already closed" condition
//! into a zero-length transfer so that shutdown looks the same whatever the
//! reason the descriptor went away.

use vstd::prelude::*;

verus! {

/// Operating-system error code reported when the far end of a pseudo-terminal
/// has already been closed.
pub const PEER_CLOSED_CODE: i32 = 5;

/// The two facts about a failed attempt that the adapter acts on.
#[derive(Clone, Copy, Debug, PartialEq, Eq, Structural)]
pub struct IoFailure {
    /// The attempt found the resource temporarily unavailable.
    pub would_block: bool,
    /// The raw operating-system error code, where there is one.
    pub os_code: Option<i32>,
}

impl IoFailure {
    /// The failure that says "try again once the descriptor is ready".
    pub open spec fn is_transient(self) -> bool {
        self.would_block
    }

    /// The failure that says "the peer end is gone".
    pub open spec fn is_peer_closed(self) -> bool {
        !self.would_block && self.os_code == Some(PEER_CLOSED_CODE)
    }

    /// Every other failure ends the session.
    pub open spec fn is_fatal(self) -> bool {
        !self.would_block && self.os_code != Some(PEER_CLOSED_CODE)
    }
}

/// The tri-state reading of one attempt: `Ok(Some(n))` for `n` bytes
/// processed (zero meaning end of stream), `Ok(None)` for "would block", and
/// `Err` for a fatal failure, which is handed back unchanged.
pub open spec fn normalize(attempt: Result<usize, IoFailure>) -> Result<Option<usize>, IoFailure> {
    match attempt {
        Ok(n) => Ok(Some(n)),
        Err(e) => if e.is_transient() {
            Ok(None)
        } else if e.is_peer_closed() {
            Ok(Some(0))
        } else {
            Err(e)
        },
    }
}

fn normalized(attempt: Result<usize, IoFailure>) -> (r: Result<Option<usize>, IoFailure>)
    ensures
        r == normalize(attempt),
{
    match attempt {
        Ok(n) => Ok(Some(n)),
        Err(e) => {
            if e.would_block {
                Ok(None)
            } else {
                match e.os_code {
                    Some(code) => if code == PEER_CLOSED_CODE {
                        Ok(Some(0))
                    } else {
                        Err(e)
                    },
                    None => Err(e),
                }
            }
        },
    }
}

/// Reads the outcome of one read attempt on a non-blocking descriptor.
pub fn read(attempt: Result<usize, IoFailure>) -> (r: Result<Option<usize>, IoFailure>)
    ensures
        r == normalize(attempt),
{
    normalized(attempt)
}

/// Reads the outcome of one write attempt on a non-blocking descriptor.
pub fn write(attempt: Result<usize, IoFailure>) -> (r: Result<Option<usize>, IoFailure>)
    ensures
        r == normalize(attempt),
{
    normalized(attempt)
}

/// A read or write that meets the "peer closed" condition cannot be told from
/// one that processed zero bytes.
pub proof fn lemma_peer_closed_is_end_of_stream(e: IoFailure)
    requires
        e.is_peer_closed(),
    ensures
        normalize(Err(e)) == normalize(Ok(0)),
        normalize(Err(e)) is Ok,
{
}

/// An attempt is reported as an error only for a fatal failure, and then the
/// failure comes back as it went in.
pub proof fn lemma_only_fatal_failures_surface(attempt: Result<usize, IoFailure>)
    ensures
        normalize(attempt) is Err <==> (attempt matches Err(e) && e.is_fatal()),
        normalize(attempt) matches Err(e) ==> attempt == Err::<usize, IoFailure>(e),
{
}

} // verus!
