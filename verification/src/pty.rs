//! Process driver, native pseudo-terminal backend.
//!
//! The driver owns the pending input buffer of one session and decides, event
//! by event, what the task that holds the master descriptor does next. The
//! caller performs each [`Action`] (waiting for readiness, attempting a read
//! or a write, publishing a chunk, signalling and reaping the child) and hands
//! back what happened as the next [`Event`].
//!
//! Bytes enter the pending buffer at its tail when an input message is
//! accepted and leave it at its head only once a write has acknowledged them.
//! A short write leaves the remainder for the next readiness notification; a
//! write that would block clears the readiness flag and suspends. Nothing is
//! reordered or duplicated on the way, and nothing is dropped in silence:
//! whatever the run, the bytes accepted are the bytes written followed by the
//! bytes still pending ([`lemma_no_input_lost`]), and a session that ends with
//! bytes still pending ends with an error, unless the far end of the
//! descriptor has closed and nothing is left to take them
//! ([`lemma_no_silent_drop`]). So the closing of the input channel ends the
//! session with success only when every accepted byte has been written; with
//! bytes left it ends the session with [`Fault::Undelivered`]. It does not
//! wait for the buffer to drain, since a child that never reads would keep
//! the session from ever ending.

use vstd::prelude::*;
use vstd::string::{StringExecFns, StringSliceAdditionalSpecFns};
use vstd::utf8::encode_utf8;
use crate::chunking::{join, lemma_join_concat, lemma_join_single, lemma_paced_reassemble, paced};
use crate::nbio::{normalize, IoFailure};

verus! {

/// Terminal dimensions as the operating system takes them: the authoritative
/// size at process start and on every resize request.
#[derive(Clone, Copy, Debug, PartialEq, Eq, Structural)]
pub struct Winsize {
    pub ws_row: u16,
    pub ws_col: u16,
}

impl Winsize {
    /// Both dimensions are positive.
    pub open spec fn valid(self) -> bool {
        self.ws_row > 0 && self.ws_col > 0
    }
}

/// Size of the scratch buffer that each read attempt fills: 128 KiB.
pub const READ_BUF_SIZE: usize = 131072;

/// Why a session ended in failure.
#[derive(Clone, Copy, Debug, PartialEq, Eq)]
pub enum Fault {
    /// A read, a write or a readiness wait on the descriptor failed for good.
    Io(IoFailure),
    /// The output channel no longer takes messages.
    OutputClosed,
    /// The descriptor reported more bytes than the buffer it was given holds.
    Overrun,
    /// The input channel closed while this many accepted bytes had not been
    /// written to the child.
    Undelivered(usize),
}

/// Which readiness flag to clear before suspending.
#[derive(Clone, Copy, Debug, PartialEq, Eq)]
pub enum Clear {
    Nothing,
    Readable,
    Writable,
}

/// What the caller does next.
#[derive(Clone, Copy, Debug, PartialEq, Eq)]
pub enum Action {
    /// Clear the named readiness flag, then suspend until the input channel
    /// yields, the descriptor is readable, or, with `write` set, the
    /// descriptor is writable.
    Select { write: bool, clear: Clear },
    /// Attempt one read into the scratch buffer.
    Read,
    /// Publish the first `n` bytes of the scratch buffer as one message on the
    /// output channel.
    Forward(usize),
    /// Attempt one write of the whole pending buffer.
    Write,
    /// Send the hang-up signal to the child.
    Hangup,
    /// Wait, off the event loop, until the child has been reaped.
    Reap,
    /// Hand the result to whoever awaits the driver.
    Report(Result<(), Fault>),
}

/// What the caller observed.
pub enum Event {
    /// The input channel yielded a message, or `None` once it is closed.
    Input(Option<Vec<u8>>),
    /// The wait for read readiness ended.
    Readable(Result<(), IoFailure>),
    /// The wait for write readiness ended.
    Writable(Result<(), IoFailure>),
    /// The raw outcome of the read attempt.
    ReadDone(Result<usize, IoFailure>),
    /// The raw outcome of the write attempt.
    WriteDone(Result<usize, IoFailure>),
    /// Whether the output channel took the message.
    Forwarded(bool),
    /// The hang-up signal has been sent.
    HungUp,
    /// The child has been reaped.
    Reaped,
}

/// Where the driver stands.
#[derive(Clone, Copy, Debug, PartialEq, Eq)]
pub enum Phase {
    /// Suspended on the input channel and the descriptor.
    Selecting,
    /// A read attempt is under way.
    Reading,
    /// A chunk of this many bytes is on its way to the output channel.
    Forwarding(usize),
    /// A write attempt is under way.
    Writing,
    /// The loop has ended; the child is being signalled.
    HangingUp(Result<(), Fault>),
    /// The child has been signalled and is being reaped.
    Reaping(Result<(), Fault>),
    /// The session is over.
    Finished(Result<(), Fault>),
}

impl Phase {
    /// The event loop is still turning.
    pub open spec fn running(self) -> bool {
        self is Selecting || self is Reading || self is Forwarding || self is Writing
    }

    /// The action that this phase is waiting on, given whether input is pending.
    pub open spec fn outstanding(self, write: bool) -> Action {
        match self {
            Phase::Selecting => Action::Select { write, clear: Clear::Nothing },
            Phase::Reading => Action::Read,
            Phase::Forwarding(n) => Action::Forward(n),
            Phase::Writing => Action::Write,
            Phase::HangingUp(_) => Action::Hangup,
            Phase::Reaping(_) => Action::Reap,
            Phase::Finished(result) => Action::Report(result),
        }
    }
}

/// The driver as a mathematical value.
pub struct State {
    /// Bytes accepted from the input channel and not yet written.
    pub pending: Seq<u8>,
    pub phase: Phase,
}

impl State {
    /// A fresh session: nothing pending, suspended on the first wait.
    pub open spec fn initial() -> State {
        State { pending: Seq::empty(), phase: Phase::Selecting }
    }

    /// The write arm is armed only while input is pending.
    pub open spec fn wants_write(self) -> bool {
        self.pending.len() > 0
    }

    /// How the session ends when the input channel closes: in success if
    /// every accepted byte has been written, and with the number of the bytes
    /// left if not.
    pub open spec fn input_closed(self) -> Result<(), Fault> {
        if self.pending.len() == 0 {
            Ok(())
        } else {
            Err(Fault::Undelivered(self.pending.len() as usize))
        }
    }

    /// Leaves the loop with `result`: the child is hung up on next.
    pub open spec fn stop(self, result: Result<(), Fault>) -> (State, Action) {
        (State { phase: Phase::HangingUp(result), ..self }, Action::Hangup)
    }

    /// Goes back to waiting, after clearing `clear`.
    pub open spec fn suspend(self, clear: Clear) -> (State, Action) {
        (
            State { phase: Phase::Selecting, ..self },
            Action::Select { write: self.wants_write(), clear },
        )
    }

    /// Stays put and asks again for what the phase is waiting on.
    pub open spec fn repeat(self) -> (State, Action) {
        (self, self.phase.outstanding(self.wants_write()))
    }

    /// The bytes of `event` that one step takes into the pending buffer.
    pub open spec fn accepts(self, event: Event) -> Seq<u8> {
        match event {
            Event::Input(Some(data)) if self.phase.running() => data@,
            _ => Seq::empty(),
        }
    }

    /// The bytes that one step removes from the head of the pending buffer
    /// because a write has acknowledged them.
    pub open spec fn delivers(self, event: Event) -> Seq<u8> {
        match event {
            Event::WriteDone(attempt) if self.phase is Writing => match normalize(attempt) {
                Ok(Some(n)) if n <= self.pending.len() => self.pending.subrange(0, n as int),
                _ => Seq::empty(),
            },
            _ => Seq::empty(),
        }
    }

    /// One step of the driver: the state after `event`, and what to do next.
    pub open spec fn next(self, event: Event) -> (State, Action) {
        match (self.phase, event) {
            (_, Event::Input(Some(data))) if self.phase.running() => {
                let taken = State { pending: self.pending + data@, ..self };
                taken.repeat()
            },
            (_, Event::Input(None)) if self.phase.running() => self.stop(self.input_closed()),
            (Phase::Selecting, Event::Readable(Ok(_))) => (
                State { phase: Phase::Reading, ..self },
                Action::Read,
            ),
            (Phase::Selecting, Event::Readable(Err(e))) => self.stop(Err(Fault::Io(e))),
            (Phase::Selecting, Event::Writable(Ok(_))) => if self.wants_write() {
                (State { phase: Phase::Writing, ..self }, Action::Write)
            } else {
                self.repeat()
            },
            (Phase::Selecting, Event::Writable(Err(e))) => self.stop(Err(Fault::Io(e))),
            (Phase::Reading, Event::ReadDone(attempt)) => match normalize(attempt) {
                Ok(Some(n)) => if n == 0 {
                    self.stop(Ok(()))
                } else if n <= READ_BUF_SIZE {
                    (State { phase: Phase::Forwarding(n), ..self }, Action::Forward(n))
                } else {
                    self.stop(Err(Fault::Overrun))
                },
                Ok(None) => self.suspend(Clear::Readable),
                Err(e) => self.stop(Err(Fault::Io(e))),
            },
            (Phase::Forwarding(_), Event::Forwarded(taken)) => if taken {
                (State { phase: Phase::Reading, ..self }, Action::Read)
            } else {
                self.stop(Err(Fault::OutputClosed))
            },
            (Phase::Writing, Event::WriteDone(attempt)) => match normalize(attempt) {
                Ok(Some(n)) => if n == 0 {
                    self.stop(Ok(()))
                } else if n <= self.pending.len() {
                    let rest = State {
                        pending: self.pending.subrange(n as int, self.pending.len() as int),
                        ..self
                    };
                    if rest.wants_write() {
                        (rest, Action::Write)
                    } else {
                        rest.suspend(Clear::Nothing)
                    }
                } else {
                    self.stop(Err(Fault::Overrun))
                },
                Ok(None) => self.suspend(Clear::Writable),
                Err(e) => self.stop(Err(Fault::Io(e))),
            },
            (Phase::HangingUp(result), Event::HungUp) => (
                State { phase: Phase::Reaping(result), ..self },
                Action::Reap,
            ),
            (Phase::Reaping(result), Event::Reaped) => (
                State { phase: Phase::Finished(result), ..self },
                Action::Report(result),
            ),
            _ => self.repeat(),
        }
    }
}

/// The driver of one session.
pub struct Driver {
    pending: Vec<u8>,
    phase: Phase,
}

impl View for Driver {
    type V = State;

    closed spec fn view(&self) -> State {
        State { pending: self.pending@, phase: self.phase }
    }
}

impl Driver {
    /// A driver for a session that has just started.
    pub fn new() -> (driver: Driver)
        ensures
            driver@ == State::initial(),
    {
        Driver { pending: Vec::new(), phase: Phase::Selecting }
    }

    /// The bytes accepted and not yet written, head first.
    pub fn pending(&self) -> (bytes: &Vec<u8>)
        ensures
            bytes@ == self@.pending,
    {
        &self.pending
    }

    /// Where the driver stands.
    pub fn phase(&self) -> (phase: Phase)
        ensures
            phase == self@.phase,
    {
        self.phase
    }

    /// Whether the write arm of the wait is armed.
    pub fn wants_write(&self) -> (armed: bool)
        ensures
            armed == self@.wants_write(),
    {
        self.pending.len() > 0
    }

    /// The result of the session, once it is over.
    pub fn result(&self) -> (result: Option<Result<(), Fault>>)
        ensures
            result == match self@.phase {
                Phase::Finished(r) => Some(r),
                _ => None,
            },
    {
        match self.phase {
            Phase::Finished(r) => Some(r),
            _ => None,
        }
    }

    fn stop(&mut self, result: Result<(), Fault>) -> (action: Action)
        ensures
            (final(self)@, action) == old(self)@.stop(result),
    {
        self.phase = Phase::HangingUp(result);
        Action::Hangup
    }

    fn suspend(&mut self, clear: Clear) -> (action: Action)
        ensures
            (final(self)@, action) == old(self)@.suspend(clear),
    {
        self.phase = Phase::Selecting;
        Action::Select { write: self.pending.len() > 0, clear }
    }

    fn repeat(&self) -> (action: Action)
        ensures
            (self@, action) == self@.repeat(),
    {
        match self.phase {
            Phase::Selecting => Action::Select {
                write: self.pending.len() > 0,
                clear: Clear::Nothing,
            },
            Phase::Reading => Action::Read,
            Phase::Forwarding(n) => Action::Forward(n),
            Phase::Writing => Action::Write,
            Phase::HangingUp(_) => Action::Hangup,
            Phase::Reaping(_) => Action::Reap,
            Phase::Finished(result) => Action::Report(result),
        }
    }

    fn running(&self) -> (b: bool)
        ensures
            b == self@.phase.running(),
    {
        match self.phase {
            Phase::Selecting | Phase::Reading | Phase::Forwarding(_) | Phase::Writing => true,
            _ => false,
        }
    }

    fn on_read(&mut self, attempt: Result<usize, IoFailure>) -> (action: Action)
        requires
            old(self)@.phase is Reading,
        ensures
            (final(self)@, action) == old(self)@.next(Event::ReadDone(attempt)),
    {
        match crate::nbio::read(attempt) {
            Ok(Some(n)) => {
                if n == 0 {
                    self.stop(Ok(()))
                } else if n <= READ_BUF_SIZE {
                    self.phase = Phase::Forwarding(n);
                    Action::Forward(n)
                } else {
                    self.stop(Err(Fault::Overrun))
                }
            },
            Ok(None) => self.suspend(Clear::Readable),
            Err(e) => self.stop(Err(Fault::Io(e))),
        }
    }

    fn on_write(&mut self, attempt: Result<usize, IoFailure>) -> (action: Action)
        requires
            old(self)@.phase is Writing,
        ensures
            (final(self)@, action) == old(self)@.next(Event::WriteDone(attempt)),
    {
        match crate::nbio::write(attempt) {
            Ok(Some(n)) => {
                if n == 0 {
                    self.stop(Ok(()))
                } else if n <= self.pending.len() {
                    let rest = self.pending.split_off(n);
                    self.pending = rest;
                    if self.pending.len() > 0 {
                        Action::Write
                    } else {
                        self.suspend(Clear::Nothing)
                    }
                } else {
                    self.stop(Err(Fault::Overrun))
                }
            },
            Ok(None) => self.suspend(Clear::Writable),
            Err(e) => self.stop(Err(Fault::Io(e))),
        }
    }

    /// Takes one event and says what to do next.
    ///
    /// An input message is accepted, and the closing of the input channel
    /// ends the loop, in every phase of the running loop: in success if
    /// nothing is pending, with [`Fault::Undelivered`] if bytes are. Any other
    /// event that the current phase did not ask for changes nothing, and the
    /// outstanding action is asked for again.
    pub fn step(&mut self, event: Event) -> (action: Action)
        ensures
            (final(self)@, action) == old(self)@.next(event),
    {
        match event {
            Event::Input(Some(data)) => {
                if self.running() {
                    let mut data = data;
                    self.pending.append(&mut data);
                }
                self.repeat()
            },
            Event::Input(None) => {
                if self.running() {
                    let left = self.pending.len();
                    if left == 0 {
                        self.stop(Ok(()))
                    } else {
                        self.stop(Err(Fault::Undelivered(left)))
                    }
                } else {
                    self.repeat()
                }
            },
            Event::Readable(ready) => match self.phase {
                Phase::Selecting => match ready {
                    Ok(_) => {
                        self.phase = Phase::Reading;
                        Action::Read
                    },
                    Err(e) => self.stop(Err(Fault::Io(e))),
                },
                _ => self.repeat(),
            },
            Event::Writable(ready) => match self.phase {
                Phase::Selecting => match ready {
                    Ok(_) => {
                        if self.pending.len() > 0 {
                            self.phase = Phase::Writing;
                            Action::Write
                        } else {
                            self.repeat()
                        }
                    },
                    Err(e) => self.stop(Err(Fault::Io(e))),
                },
                _ => self.repeat(),
            },
            Event::ReadDone(attempt) => match self.phase {
                Phase::Reading => self.on_read(attempt),
                _ => self.repeat(),
            },
            Event::WriteDone(attempt) => match self.phase {
                Phase::Writing => self.on_write(attempt),
                _ => self.repeat(),
            },
            Event::Forwarded(taken) => match self.phase {
                Phase::Forwarding(_) => {
                    if taken {
                        self.phase = Phase::Reading;
                        Action::Read
                    } else {
                        self.stop(Err(Fault::OutputClosed))
                    }
                },
                _ => self.repeat(),
            },
            Event::HungUp => match self.phase {
                Phase::HangingUp(result) => {
                    self.phase = Phase::Reaping(result);
                    Action::Reap
                },
                _ => self.repeat(),
            },
            Event::Reaped => match self.phase {
                Phase::Reaping(result) => {
                    self.phase = Phase::Finished(result);
                    Action::Report(result)
                },
                _ => self.repeat(),
            },
        }
    }
}

/// Why a command cannot be handed to the shell.
#[derive(Clone, Copy, Debug, PartialEq, Eq, Structural)]
pub enum SpawnError {
    /// The command holds a zero byte, at this position; no argument of a
    /// process can.
    InteriorNul(usize),
}

/// `i` is where the first zero byte of `s` stands.
pub open spec fn is_first_nul(s: Seq<u8>, i: int) -> bool {
    &&& 0 <= i < s.len()
    &&& s[i] == 0
    &&& forall|j: int| 0 <= j < i ==> s[j] != 0
}

/// The value of `TERM` that the child starts with.
pub fn term_value() -> (value: &'static str)
    ensures
        value@ == "xterm-256color"@,
{
    "xterm-256color"
}

/// The arguments that run `command` in the child: the shell, `-c`, and the
/// command, unless the command holds a zero byte.
pub fn exec_argv(command: String) -> (r: Result<Vec<String>, SpawnError>)
    ensures
        match r {
            Ok(argv) => {
                &&& forall|j: int|
                    0 <= j < encode_utf8(command@).len() ==> encode_utf8(command@)[j] != 0
                &&& argv@.len() == 3
                &&& argv@[0]@ == "/bin/sh"@
                &&& argv@[1]@ == "-c"@
                &&& argv@[2]@ == command@
            },
            Err(SpawnError::InteriorNul(at)) => is_first_nul(encode_utf8(command@), at as int),
        },
{
    let bytes = command.as_str().as_bytes();
    let len = bytes.len();
    let mut i: usize = 0;
    while i < len && bytes[i] != 0
        invariant
            i <= len == bytes@.len(),
            forall|j: int| 0 <= j < i ==> bytes@[j] != 0,
        decreases len - i,
    {
        i = i + 1;
    }
    if i < len {
        return Err(SpawnError::InteriorNul(i));
    }
    let mut argv: Vec<String> = Vec::new();
    argv.push(String::from_str("/bin/sh"));
    argv.push(String::from_str("-c"));
    argv.push(command);
    Ok(argv)
}

/// The state that a fresh session reaches by taking `events` in order.
pub open spec fn run(events: Seq<Event>) -> State
    decreases events.len(),
{
    if events.len() == 0 {
        State::initial()
    } else {
        run(events.drop_last()).next(events.last()).0
    }
}

/// Every byte that the session took from the input channel along `events`,
/// in the order of arrival.
pub open spec fn accepted(events: Seq<Event>) -> Seq<u8>
    decreases events.len(),
{
    if events.len() == 0 {
        Seq::empty()
    } else {
        accepted(events.drop_last()) + run(events.drop_last()).accepts(events.last())
    }
}

/// Every byte that writes acknowledged along `events`, in the order of the
/// writes.
pub open spec fn delivered(events: Seq<Event>) -> Seq<u8>
    decreases events.len(),
{
    if events.len() == 0 {
        Seq::empty()
    } else {
        delivered(events.drop_last()) + run(events.drop_last()).delivers(events.last())
    }
}

/// One step moves bytes from the channel into the buffer and from the buffer
/// to the child, and does nothing else to them.
pub proof fn lemma_step_keeps_bytes(s: State, event: Event)
    ensures
        s.pending + s.accepts(event) == s.delivers(event) + s.next(event).0.pending,
{
    assert(s.pending + s.accepts(event) =~= s.delivers(event) + s.next(event).0.pending);
}

/// No data is lost under backpressure: whatever the events, the bytes taken
/// from the input channel are exactly the bytes already written to the child
/// followed by the bytes still pending, byte for byte and in order.
pub proof fn lemma_no_input_lost(events: Seq<Event>)
    ensures
        accepted(events) == delivered(events) + run(events).pending,
    decreases events.len(),
{
    if events.len() == 0 {
        assert(accepted(events) =~= delivered(events) + run(events).pending);
    } else {
        let before = events.drop_last();
        lemma_no_input_lost(before);
        lemma_step_keeps_bytes(run(before), events.last());
        assert(accepted(events) =~= delivered(events) + run(events).pending);
    }
}

/// Ordering is preserved: what has reached the child is always a prefix of
/// what was accepted, so bytes arrive in the order in which they were sent.
pub proof fn lemma_delivery_in_order(events: Seq<Event>)
    ensures
        delivered(events).is_prefix_of(accepted(events)),
        run(events).pending.len() == 0 ==> delivered(events) == accepted(events),
{
    lemma_no_input_lost(events);
    let d = delivered(events);
    let p = run(events).pending;
    assert((d + p).subrange(0, d.len() as int) =~= d);
    if p.len() == 0 {
        assert(d + p =~= d);
    }
}

/// Clean shutdown: when the input channel closes while the loop is running,
/// the driver has the child hung up on, then reaped, and then reports, in
/// three steps. It reports success if every accepted byte has been written,
/// and the bytes left undelivered if not.
pub proof fn lemma_input_close_shuts_down(s: State)
    requires
        s.phase.running(),
    ensures
        ({
            let (s1, a1) = s.next(Event::Input(None));
            let (s2, a2) = s1.next(Event::HungUp);
            let (s3, a3) = s2.next(Event::Reaped);
            &&& a1 == Action::Hangup
            &&& a2 == Action::Reap
            &&& a3 == Action::Report(s.input_closed())
            &&& s3.phase == Phase::Finished(s.input_closed())
            &&& s3.pending == s.pending
            &&& (s.pending.len() == 0 ==> a3 == Action::Report(Ok(())))
            &&& (s.pending.len() > 0 ==> a3 == Action::Report(
                Err(Fault::Undelivered(s.pending.len() as usize)),
            ))
        }),
{
}

/// An attempt met the end of the stream: it processed no byte, or found the
/// peer gone.
pub open spec fn met_end_of_stream(event: Event) -> bool {
    match event {
        Event::ReadDone(attempt) | Event::WriteDone(attempt) => normalize(attempt) == Ok::<
            Option<usize>,
            IoFailure,
        >(Some(0)),
        _ => false,
    }
}

/// No accepted byte is dropped in silence: a step that ends the loop in
/// success leaves nothing pending, unless a read or a write has just met the
/// end of the stream, so that no peer is left to take the bytes. Every other
/// ending with bytes pending is an error.
pub proof fn lemma_no_silent_drop(s: State, event: Event)
    requires
        s.phase.running(),
        s.next(event).0.phase == Phase::HangingUp(Ok(())),
    ensures
        s.next(event).0.pending.len() == 0 || met_end_of_stream(event),
{
}

/// Whatever ends the loop, the child is hung up on and reaped before the
/// result is reported, and the result reported is the one the loop ended with.
pub proof fn lemma_every_exit_reaps(s: State, event: Event)
    requires
        s.phase.running(),
        !s.next(event).0.phase.running(),
    ensures
        ({
            let (s1, a1) = s.next(event);
            let (s2, a2) = s1.next(Event::HungUp);
            let (s3, a3) = s2.next(Event::Reaped);
            &&& a1 == Action::Hangup
            &&& a2 == Action::Reap
            &&& s1.phase matches Phase::HangingUp(result)
            &&& a3 == Action::Report(result)
            &&& s3.phase == Phase::Finished(result)
        }),
{
}

/// A finished session stays finished, and keeps reporting the same result.
pub proof fn lemma_finished_is_final(s: State, event: Event)
    requires
        s.phase is Finished,
    ensures
        s.next(event).0 == s,
        s.phase matches Phase::Finished(result) && s.next(event).1 == Action::Report(result),
{
}

/// The write arm never spins: a write is asked for only while bytes are
/// pending, and a write that would block suspends the driver.
pub proof fn lemma_write_is_gated(s: State, event: Event)
    requires
        s.phase.running(),
        s.phase is Writing ==> s.wants_write(),
    ensures
        s.next(event).1 == Action::Write ==> s.next(event).0.wants_write(),
        s.next(event).0.phase is Writing ==> s.next(event).0.wants_write(),
        forall|attempt: Result<usize, IoFailure>|
            s.phase is Writing && event == Event::WriteDone(attempt) && normalize(attempt) == Ok::<
                Option<usize>,
                IoFailure,
            >(None) ==> s.next(event) == (
                State { phase: Phase::Selecting, ..s },
                Action::Select { write: true, clear: Clear::Writable },
            ),
{
}

/// Output keeps its chunks: every read that brings bytes is published as one
/// message of exactly those bytes before the descriptor is read again, and a
/// read that would block clears the readiness flag and suspends.
pub proof fn lemma_each_read_is_forwarded_whole(s: State, n: usize)
    requires
        s.phase is Reading,
        0 < n <= READ_BUF_SIZE,
    ensures
        ({
            let (s1, a1) = s.next(Event::ReadDone(Ok(n)));
            let (s2, a2) = s1.next(Event::Forwarded(true));
            &&& a1 == Action::Forward(n)
            &&& s1 == State { phase: Phase::Forwarding(n), ..s }
            &&& a2 == Action::Read
            &&& s2 == State { phase: Phase::Reading, ..s }
        }),
        forall|e: IoFailure|
            e.is_transient() ==> s.next(Event::ReadDone(Err(e))) == (
                State { phase: Phase::Selecting, ..s },
                Action::Select { write: s.wants_write(), clear: Clear::Readable },
            ),
{
}

/// The messages that the input channel yielded along `events`, in order.
pub open spec fn inputs(events: Seq<Event>) -> Seq<Seq<u8>>
    decreases events.len(),
{
    if events.len() == 0 {
        Seq::empty()
    } else {
        match events.last() {
            Event::Input(Some(data)) => inputs(events.drop_last()).push(data@),
            _ => inputs(events.drop_last()),
        }
    }
}

/// A session that has left its loop never goes back into it.
pub proof fn lemma_stopped_stays_stopped(s: State, event: Event)
    requires
        !s.phase.running(),
    ensures
        !s.next(event).0.phase.running(),
{
}

/// A session that is still in its loop has taken every message that the
/// input channel yielded, whole and in order.
pub proof fn lemma_running_session_accepts_all_input(events: Seq<Event>)
    requires
        run(events).phase.running(),
    ensures
        accepted(events) == join(inputs(events)),
    decreases events.len(),
{
    if events.len() == 0 {
        assert(join(inputs(events)) =~= Seq::<u8>::empty());
    } else {
        let before = events.drop_last();
        let s = run(before);
        if !s.phase.running() {
            lemma_stopped_stays_stopped(s, events.last());
        }
        lemma_running_session_accepts_all_input(before);
        match events.last() {
            Event::Input(Some(data)) => {
                lemma_join_concat(inputs(before), seq![data@]);
                lemma_join_single(data@);
                assert(inputs(before).push(data@) =~= inputs(before) + seq![data@]);
            },
            _ => {
                assert(accepted(before) + Seq::<u8>::empty() =~= accepted(before));
            },
        }
    }
}

/// No data is lost under backpressure, whatever the size of the payload:
/// when the session has been handed the paced pieces of a payload, in order
/// and interleaved at will with readiness, reads and writes of any length,
/// and is still in its loop, then what has been written to the child followed
/// by what is still pending is the payload, byte for byte.
pub proof fn lemma_paced_payload_is_delivered_or_pending(
    payload: Seq<u8>,
    threshold: nat,
    size: nat,
    events: Seq<Event>,
)
    requires
        size > 0,
        inputs(events) == paced(payload, threshold, size),
        run(events).phase.running(),
    ensures
        delivered(events) + run(events).pending == payload,
        run(events).pending.len() == 0 ==> delivered(events) == payload,
{
    lemma_running_session_accepts_all_input(events);
    lemma_paced_reassemble(payload, threshold, size);
    lemma_no_input_lost(events);
    if run(events).pending.len() == 0 {
        assert(delivered(events) + run(events).pending =~= delivered(events));
    }
}

} // verus!
