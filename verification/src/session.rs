//! The event stream of a session, as the gateway consumes it.
//!
//! A session turns the driver's output into an ordered sequence of typed
//! events that any number of viewers can follow. The session itself, with its
//! scrollback and cursor tracking, lives elsewhere; here stands only what goes
//! through the gateway: the events, and the failure that a viewer's
//! subscription to them can meet.

use vstd::prelude::*;

verus! {

/// A reading of the session's logical clock, in microseconds since the
/// session started. The clock never runs backwards within a session.
#[derive(Clone, Copy, Debug, PartialEq, Eq, Structural)]
pub struct Timestamp {
    pub micros: u64,
}

impl Timestamp {
    /// The reading `micros` microseconds into the session.
    pub fn from_micros(micros: u64) -> (t: Timestamp)
        ensures
            t.micros == micros,
    {
        Timestamp { micros }
    }

    /// The reading in microseconds.
    pub fn as_micros(&self) -> (micros: u64)
        ensures
            micros == self.micros,
    {
        self.micros
    }

    /// Whether this reading was taken no later than `other`.
    pub fn not_after(&self, other: &Timestamp) -> (b: bool)
        ensures
            b == (self.micros <= other.micros),
    {
        self.micros <= other.micros
    }
}

/// The four types of event.
#[derive(Clone, Copy, Debug, PartialEq, Eq, Structural)]
pub enum EventKind {
    Init,
    Output,
    Resize,
    Snapshot,
}

/// One event of a session.
#[derive(Clone, Debug, PartialEq, Eq)]
pub enum Event {
    /// Baseline state, emitted once per viewer connection: time, columns,
    /// rows, the seed sequence that rebuilds the screen, and its text.
    Init(Timestamp, usize, usize, String, String),
    /// A chunk of what the child wrote, in emission order: time and data.
    Output(Timestamp, String),
    /// A change of dimensions: time, columns, rows.
    Resize(Timestamp, usize, usize),
    /// A full capture of the screen, taken on demand: time, columns, rows,
    /// text.
    Snapshot(Timestamp, usize, usize, String),
}

impl Event {
    /// The type of this event.
    pub open spec fn spec_kind(self) -> EventKind {
        match self {
            Event::Init(..) => EventKind::Init,
            Event::Output(..) => EventKind::Output,
            Event::Resize(..) => EventKind::Resize,
            Event::Snapshot(..) => EventKind::Snapshot,
        }
    }

    /// The clock reading that this event carries.
    pub open spec fn spec_time(self) -> Timestamp {
        match self {
            Event::Init(t, _, _, _, _) => t,
            Event::Output(t, _) => t,
            Event::Resize(t, _, _) => t,
            Event::Snapshot(t, _, _, _) => t,
        }
    }

    /// The type of this event.
    pub fn kind(&self) -> (kind: EventKind)
        ensures
            kind == self.spec_kind(),
    {
        match self {
            Event::Init(..) => EventKind::Init,
            Event::Output(..) => EventKind::Output,
            Event::Resize(..) => EventKind::Resize,
            Event::Snapshot(..) => EventKind::Snapshot,
        }
    }

    /// The clock reading that this event carries.
    pub fn time(&self) -> (t: Timestamp)
        ensures
            t == self.spec_time(),
    {
        match self {
            Event::Init(t, _, _, _, _) => *t,
            Event::Output(t, _) => *t,
            Event::Resize(t, _, _) => *t,
            Event::Snapshot(t, _, _, _) => *t,
        }
    }
}

/// Why a viewer's subscription to the event stream failed. The failure is
/// final for that viewer: the gateway does not try again.
#[derive(Clone, Copy, Debug, PartialEq, Eq, Structural)]
pub enum StreamError {
    /// The viewer fell behind, and this many events were dropped before it
    /// could take them.
    Lagged(u64),
}

} // verus!
