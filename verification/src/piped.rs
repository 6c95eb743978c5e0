//! Process driver, piped-process backend.
//!
//! Where the platform has no pseudo-terminal, the child runs with three pipes
//! and the driver bridges them to the session's channels: input messages are
//! written to the child's stdin and flushed, and every line that the child
//! prints on stdout or stderr is published, delimiter included, on the one
//! output channel. The bridge is line-buffered and the child sees no
//! terminal; that is a limit of the platform.
//!
//! As with the pseudo-terminal backend, the driver here only decides. The
//! caller performs each [`Action`] and reports back with an [`Event`]. The
//! session ends when the input channel closes, a write to stdin or the output
//! channel fails, stdout closes or fails, or the child exits. A flush of
//! stdin that fails is for the caller to log and ends nothing; stderr closing
//! or failing ends nothing but the reading of stderr. However the loop ends,
//! the child is killed before the driver reports. The report names what ended
//! the loop: all of it is success to the driver's caller but
//! [`Stop::InputUndelivered`], the closing of the input channel with accepted
//! bytes not yet written, which no caller should take for a clean end.

use vstd::prelude::*;
use vstd::string::StringExecFns;
use crate::chunking::{join, lemma_join_concat, lemma_join_single, lemma_paced_reassemble, paced};
use crate::nbio::IoFailure;

verus! {

/// One of the child's two output pipes.
#[derive(Clone, Copy, Debug, PartialEq, Eq)]
pub enum Stream {
    Stdout,
    Stderr,
}

/// Why the loop ended.
#[derive(Clone, Copy, Debug, PartialEq, Eq)]
pub enum Stop {
    /// The input channel was closed, with every accepted byte written.
    InputClosed,
    /// The input channel was closed while this many accepted bytes had not
    /// been written to the child's stdin.
    InputUndelivered(usize),
    /// Writing an input message to the child's stdin failed.
    StdinWriteFailed,
    /// The child closed its stdout.
    StdoutClosed,
    /// Reading the child's stdout failed.
    StdoutFailed(IoFailure),
    /// The output channel no longer takes messages.
    OutputClosed,
    /// The child exited, or waiting for it failed.
    ChildExited,
}

/// What the caller does next.
#[derive(Clone, Copy, Debug, PartialEq, Eq)]
pub enum Action {
    /// Suspend until the input channel yields, stdout has a line, the child
    /// exits, or, with `stderr` set, stderr has a line.
    Select { stderr: bool },
    /// Write the first `n` pending bytes, all of them, to the child's stdin.
    WriteStdin(usize),
    /// Flush the child's stdin.
    FlushStdin,
    /// Publish the line just read from this stream as one message on the
    /// output channel, then empty that stream's line buffer.
    Forward(Stream),
    /// Terminate the child by force.
    Kill,
    /// Return success to whoever awaits the driver; the reason is for the log.
    Report(Stop),
}

/// What the caller observed.
pub enum Event {
    /// The input channel yielded a message, or `None` once it is closed.
    Input(Option<Vec<u8>>),
    /// Whether the write to stdin went through.
    StdinWritten(bool),
    /// Whether the flush of stdin went through. A flush that failed is
    /// logged by the caller; the session goes on either way.
    StdinFlushed(bool),
    /// A line read from this stream ended: the number of bytes read, zero
    /// at end of stream, or the failure.
    Line(Stream, Result<usize, IoFailure>),
    /// Whether the output channel took the message.
    Forwarded(bool),
    /// The wait for the child ended, with its status or with a failure.
    ChildExited,
    /// The child has been killed, or the attempt has been logged.
    Killed,
}

/// Where the driver stands.
#[derive(Clone, Copy, Debug, PartialEq, Eq)]
pub enum Phase {
    /// Suspended on the input channel, the pipes and the child.
    Selecting,
    /// This many pending bytes are being written to stdin.
    WritingStdin(usize),
    /// Stdin is being flushed.
    FlushingStdin,
    /// A line of this stream is on its way to the output channel.
    Forwarding(Stream),
    /// The loop has ended; the child is being killed.
    Killing(Stop),
    /// The session is over.
    Finished(Stop),
}

impl Phase {
    /// The event loop is still turning.
    pub open spec fn running(self) -> bool {
        self is Selecting || self is WritingStdin || self is FlushingStdin || self is Forwarding
    }
}

/// The driver as a mathematical value.
pub struct State {
    /// Bytes accepted from the input channel and not yet written to stdin.
    pub pending: Seq<u8>,
    /// Whether stderr is still read.
    pub stderr_open: bool,
    pub phase: Phase,
}

impl State {
    /// A fresh session: nothing pending, both pipes read.
    pub open spec fn initial() -> State {
        State { pending: Seq::empty(), stderr_open: true, phase: Phase::Selecting }
    }

    /// The action that the current phase is waiting on.
    pub open spec fn outstanding(self) -> Action {
        match self.phase {
            Phase::Selecting => Action::Select { stderr: self.stderr_open },
            Phase::WritingStdin(n) => Action::WriteStdin(n),
            Phase::FlushingStdin => Action::FlushStdin,
            Phase::Forwarding(stream) => Action::Forward(stream),
            Phase::Killing(_) => Action::Kill,
            Phase::Finished(stop) => Action::Report(stop),
        }
    }

    /// Stays put and asks again for what the phase is waiting on.
    pub open spec fn repeat(self) -> (State, Action) {
        (self, self.outstanding())
    }

    /// Why the session ends when the input channel closes: cleanly if every
    /// accepted byte has been written, and with the number of the bytes left
    /// if not.
    pub open spec fn input_closed(self) -> Stop {
        if self.pending.len() == 0 {
            Stop::InputClosed
        } else {
            Stop::InputUndelivered(self.pending.len() as usize)
        }
    }

    /// Leaves the loop for the reason `stop`: the child is killed next.
    pub open spec fn stop(self, stop: Stop) -> (State, Action) {
        (State { phase: Phase::Killing(stop), ..self }, Action::Kill)
    }

    /// Writes what is pending, or goes back to waiting if nothing is.
    pub open spec fn resume(self) -> (State, Action) {
        if self.pending.len() > 0 {
            let n = self.pending.len() as usize;
            (State { phase: Phase::WritingStdin(n), ..self }, Action::WriteStdin(n))
        } else {
            (State { phase: Phase::Selecting, ..self }, Action::Select { stderr: self.stderr_open })
        }
    }

    /// The bytes of `event` that one step takes into the pending buffer.
    pub open spec fn accepts(self, event: Event) -> Seq<u8> {
        match event {
            Event::Input(Some(data)) if self.phase.running() => data@,
            _ => Seq::empty(),
        }
    }

    /// The bytes that one step removes from the head of the pending buffer
    /// because stdin has taken them.
    pub open spec fn delivers(self, event: Event) -> Seq<u8> {
        match (self.phase, event) {
            (Phase::WritingStdin(n), Event::StdinWritten(true)) if n <= self.pending.len() =>
                self.pending.subrange(0, n as int),
            _ => Seq::empty(),
        }
    }

    /// One step of the driver: the state after `event`, and what to do next.
    pub open spec fn next(self, event: Event) -> (State, Action) {
        match (self.phase, event) {
            (Phase::Selecting, Event::Input(Some(data))) => {
                let n = (self.pending.len() + data@.len()) as usize;
                (
                    State {
                        pending: self.pending + data@,
                        phase: Phase::WritingStdin(n),
                        ..self
                    },
                    Action::WriteStdin(n),
                )
            },
            (_, Event::Input(Some(data))) if self.phase.running() => State {
                pending: self.pending + data@,
                ..self
            }.repeat(),
            (_, Event::Input(None)) if self.phase.running() => self.stop(self.input_closed()),
            (Phase::WritingStdin(n), Event::StdinWritten(done)) => if !done {
                self.stop(Stop::StdinWriteFailed)
            } else if n <= self.pending.len() {
                (
                    State {
                        pending: self.pending.subrange(n as int, self.pending.len() as int),
                        phase: Phase::FlushingStdin,
                        ..self
                    },
                    Action::FlushStdin,
                )
            } else {
                (State { phase: Phase::FlushingStdin, ..self }, Action::FlushStdin)
            },
            (Phase::FlushingStdin, Event::StdinFlushed(_)) => self.resume(),
            (Phase::Selecting, Event::Line(Stream::Stdout, read)) => match read {
                Ok(n) => if n == 0 {
                    self.stop(Stop::StdoutClosed)
                } else {
                    (
                        State { phase: Phase::Forwarding(Stream::Stdout), ..self },
                        Action::Forward(Stream::Stdout),
                    )
                },
                Err(e) => self.stop(Stop::StdoutFailed(e)),
            },
            (Phase::Selecting, Event::Line(Stream::Stderr, read)) => match read {
                Ok(n) => if n == 0 || !self.stderr_open {
                    State { stderr_open: false, ..self }.repeat()
                } else {
                    (
                        State { phase: Phase::Forwarding(Stream::Stderr), ..self },
                        Action::Forward(Stream::Stderr),
                    )
                },
                Err(_) => State { stderr_open: false, ..self }.repeat(),
            },
            (Phase::Forwarding(_), Event::Forwarded(taken)) => if taken {
                self.resume()
            } else {
                self.stop(Stop::OutputClosed)
            },
            (_, Event::ChildExited) if self.phase.running() => self.stop(Stop::ChildExited),
            (Phase::Killing(stop), Event::Killed) => (
                State { phase: Phase::Finished(stop), ..self },
                Action::Report(stop),
            ),
            _ => self.repeat(),
        }
    }
}

/// The driver of one session.
pub struct Driver {
    pending: Vec<u8>,
    stderr_open: bool,
    phase: Phase,
}

impl View for Driver {
    type V = State;

    closed spec fn view(&self) -> State {
        State { pending: self.pending@, stderr_open: self.stderr_open, phase: self.phase }
    }
}

impl Driver {
    /// A driver for a session that has just started.
    pub fn new() -> (driver: Driver)
        ensures
            driver@ == State::initial(),
    {
        Driver { pending: Vec::new(), stderr_open: true, phase: Phase::Selecting }
    }

    /// The bytes accepted and not yet written to stdin, head first.
    pub fn pending(&self) -> (bytes: &Vec<u8>)
        ensures
            bytes@ == self@.pending,
    {
        &self.pending
    }

    /// Where the driver stands.
    pub fn phase(&self) -> (phase: Phase)
        ensures
            phase == self@.phase,
    {
        self.phase
    }

    /// Whether stderr is still read.
    pub fn stderr_open(&self) -> (open: bool)
        ensures
            open == self@.stderr_open,
    {
        self.stderr_open
    }

    /// Why the loop ended, once the session is over.
    pub fn result(&self) -> (stop: Option<Stop>)
        ensures
            stop == match self@.phase {
                Phase::Finished(s) => Some(s),
                _ => None,
            },
    {
        match self.phase {
            Phase::Finished(s) => Some(s),
            _ => None,
        }
    }

    fn running(&self) -> (b: bool)
        ensures
            b == self@.phase.running(),
    {
        match self.phase {
            Phase::Selecting | Phase::WritingStdin(_) | Phase::FlushingStdin | Phase::Forwarding(
                _,
            ) => true,
            _ => false,
        }
    }

    fn repeat(&self) -> (action: Action)
        ensures
            (self@, action) == self@.repeat(),
    {
        match self.phase {
            Phase::Selecting => Action::Select { stderr: self.stderr_open },
            Phase::WritingStdin(n) => Action::WriteStdin(n),
            Phase::FlushingStdin => Action::FlushStdin,
            Phase::Forwarding(stream) => Action::Forward(stream),
            Phase::Killing(_) => Action::Kill,
            Phase::Finished(stop) => Action::Report(stop),
        }
    }

    fn stop(&mut self, stop: Stop) -> (action: Action)
        ensures
            (final(self)@, action) == old(self)@.stop(stop),
    {
        self.phase = Phase::Killing(stop);
        Action::Kill
    }

    fn resume(&mut self) -> (action: Action)
        ensures
            (final(self)@, action) == old(self)@.resume(),
    {
        let n = self.pending.len();
        if n > 0 {
            self.phase = Phase::WritingStdin(n);
            Action::WriteStdin(n)
        } else {
            self.phase = Phase::Selecting;
            Action::Select { stderr: self.stderr_open }
        }
    }

    fn on_line(&mut self, stream: Stream, read: Result<usize, IoFailure>) -> (action: Action)
        requires
            old(self)@.phase is Selecting,
        ensures
            (final(self)@, action) == old(self)@.next(Event::Line(stream, read)),
    {
        match stream {
            Stream::Stdout => match read {
                Ok(n) => {
                    if n == 0 {
                        self.stop(Stop::StdoutClosed)
                    } else {
                        self.phase = Phase::Forwarding(Stream::Stdout);
                        Action::Forward(Stream::Stdout)
                    }
                },
                Err(e) => self.stop(Stop::StdoutFailed(e)),
            },
            Stream::Stderr => match read {
                Ok(n) => {
                    if n == 0 || !self.stderr_open {
                        self.stderr_open = false;
                        self.repeat()
                    } else {
                        self.phase = Phase::Forwarding(Stream::Stderr);
                        Action::Forward(Stream::Stderr)
                    }
                },
                Err(_) => {
                    self.stderr_open = false;
                    self.repeat()
                },
            },
        }
    }

    /// Takes one event and says what to do next.
    ///
    /// An input message is accepted, and the closing of the input channel or
    /// the exit of the child ends the loop, in every phase of the running
    /// loop. A flush that failed goes on as one that went through. Any other
    /// event that the current phase did not ask for changes nothing, and the
    /// outstanding action is asked for again.
    pub fn step(&mut self, event: Event) -> (action: Action)
        ensures
            (final(self)@, action) == old(self)@.next(event),
    {
        match event {
            Event::Input(Some(data)) => {
                if self.running() {
                    let mut data = data;
                    self.pending.append(&mut data);
                    match self.phase {
                        Phase::Selecting => {
                            let n = self.pending.len();
                            self.phase = Phase::WritingStdin(n);
                            Action::WriteStdin(n)
                        },
                        _ => self.repeat(),
                    }
                } else {
                    self.repeat()
                }
            },
            Event::Input(None) => {
                if self.running() {
                    let left = self.pending.len();
                    if left == 0 {
                        self.stop(Stop::InputClosed)
                    } else {
                        self.stop(Stop::InputUndelivered(left))
                    }
                } else {
                    self.repeat()
                }
            },
            Event::StdinWritten(done) => match self.phase {
                Phase::WritingStdin(n) => {
                    if !done {
                        self.stop(Stop::StdinWriteFailed)
                    } else {
                        if n <= self.pending.len() {
                            let rest = self.pending.split_off(n);
                            self.pending = rest;
                        }
                        self.phase = Phase::FlushingStdin;
                        Action::FlushStdin
                    }
                },
                _ => self.repeat(),
            },
            Event::StdinFlushed(_) => match self.phase {
                Phase::FlushingStdin => self.resume(),
                _ => self.repeat(),
            },
            Event::Line(stream, read) => match self.phase {
                Phase::Selecting => self.on_line(stream, read),
                _ => self.repeat(),
            },
            Event::Forwarded(taken) => match self.phase {
                Phase::Forwarding(_) => {
                    if taken {
                        self.resume()
                    } else {
                        self.stop(Stop::OutputClosed)
                    }
                },
                _ => self.repeat(),
            },
            Event::ChildExited => {
                if self.running() {
                    self.stop(Stop::ChildExited)
                } else {
                    self.repeat()
                }
            },
            Event::Killed => match self.phase {
                Phase::Killing(stop) => {
                    self.phase = Phase::Finished(stop);
                    Action::Report(stop)
                },
                _ => self.repeat(),
            },
        }
    }
}

/// The state that a fresh session reaches by taking `events` in order.
pub open spec fn run(events: Seq<Event>) -> State
    decreases events.len(),
{
    if events.len() == 0 {
        State::initial()
    } else {
        run(events.drop_last()).next(events.last()).0
    }
}

/// Every byte that the session took from the input channel along `events`,
/// in the order of arrival.
pub open spec fn accepted(events: Seq<Event>) -> Seq<u8>
    decreases events.len(),
{
    if events.len() == 0 {
        Seq::empty()
    } else {
        accepted(events.drop_last()) + run(events.drop_last()).accepts(events.last())
    }
}

/// Every byte that the child's stdin took along `events`, in order.
pub open spec fn delivered(events: Seq<Event>) -> Seq<u8>
    decreases events.len(),
{
    if events.len() == 0 {
        Seq::empty()
    } else {
        delivered(events.drop_last()) + run(events.drop_last()).delivers(events.last())
    }
}

/// One step moves bytes from the channel into the buffer and from the buffer
/// to the child, and does nothing else to them.
pub proof fn lemma_step_keeps_bytes(s: State, event: Event)
    ensures
        s.pending + s.accepts(event) == s.delivers(event) + s.next(event).0.pending,
{
    assert(s.pending + s.accepts(event) =~= s.delivers(event) + s.next(event).0.pending);
}

/// Whatever the events, the bytes taken from the input channel are exactly
/// the bytes that stdin took followed by the bytes still pending, in order.
pub proof fn lemma_no_input_lost(events: Seq<Event>)
    ensures
        accepted(events) == delivered(events) + run(events).pending,
        delivered(events).is_prefix_of(accepted(events)),
    decreases events.len(),
{
    if events.len() == 0 {
        assert(accepted(events) =~= delivered(events) + run(events).pending);
    } else {
        let before = events.drop_last();
        lemma_no_input_lost(before);
        lemma_step_keeps_bytes(run(before), events.last());
        assert(accepted(events) =~= delivered(events) + run(events).pending);
    }
    let d = delivered(events);
    assert((d + run(events).pending).subrange(0, d.len() as int) =~= d);
}

/// Whatever ends the loop, the child is killed before the driver reports,
/// and the report names what ended the loop.
pub proof fn lemma_every_exit_kills(s: State, event: Event)
    requires
        s.phase.running(),
        !s.next(event).0.phase.running(),
    ensures
        ({
            let (s1, a1) = s.next(event);
            let (s2, a2) = s1.next(Event::Killed);
            &&& a1 == Action::Kill
            &&& s1.phase matches Phase::Killing(stop)
            &&& a2 == Action::Report(stop)
            &&& s2.phase == Phase::Finished(stop)
        }),
{
}

/// The closing of the input channel ends a running session in two steps:
/// cleanly if every accepted byte has been written, and with the bytes left
/// undelivered named in the report if not.
pub proof fn lemma_input_close_shuts_down(s: State)
    requires
        s.phase.running(),
    ensures
        ({
            let (s1, a1) = s.next(Event::Input(None));
            let (s2, a2) = s1.next(Event::Killed);
            &&& a1 == Action::Kill
            &&& a2 == Action::Report(s.input_closed())
            &&& s2.phase == Phase::Finished(s.input_closed())
            &&& s2.pending == s.pending
            &&& (s.pending.len() == 0 <==> a2 == Action::Report(Stop::InputClosed))
        }),
{
}

/// A flush of stdin that fails ends nothing: the session goes on exactly as
/// after a flush that went through.
pub proof fn lemma_flush_failure_is_not_fatal(s: State)
    requires
        s.phase is FlushingStdin,
    ensures
        s.next(Event::StdinFlushed(false)) == s.next(Event::StdinFlushed(true)),
        s.next(Event::StdinFlushed(false)).0.phase.running(),
        s.next(Event::StdinFlushed(false)).0.pending == s.pending,
{
}

/// No accepted byte is dropped in silence: the closing of the input channel
/// is reported as a clean end only when every accepted byte has been written.
/// A loop that ends with bytes pending names another reason: the bytes left
/// undelivered, a failed write, the end of stdout, the output channel, or
/// the exit of the child.
pub proof fn lemma_no_silent_drop(s: State, event: Event)
    requires
        s.phase.running(),
        s.next(event).0.phase == Phase::Killing(Stop::InputClosed),
    ensures
        s.next(event).0.pending.len() == 0,
{
}

/// Stdout closing ends the session; stderr closing or failing does not, and
/// only takes stderr out of the wait.
pub proof fn lemma_stderr_is_not_fatal(s: State, read: Result<usize, IoFailure>)
    requires
        s.phase is Selecting,
    ensures
        s.next(Event::Line(Stream::Stderr, read)).0.phase.running(),
        (read is Err || read == Ok::<usize, IoFailure>(0)) ==> s.next(
            Event::Line(Stream::Stderr, read),
        ) == (State { stderr_open: false, ..s }, Action::Select { stderr: false }),
        s.next(Event::Line(Stream::Stdout, Ok(0))).0.phase == Phase::Killing(Stop::StdoutClosed),
{
}

/// A finished session stays finished, and keeps reporting the same reason.
pub proof fn lemma_finished_is_final(s: State, event: Event)
    requires
        s.phase is Finished,
    ensures
        s.next(event).0 == s,
        s.phase matches Phase::Finished(stop) && s.next(event).1 == Action::Report(stop),
{
}

/// The messages that the input channel yielded along `events`, in order.
pub open spec fn inputs(events: Seq<Event>) -> Seq<Seq<u8>>
    decreases events.len(),
{
    if events.len() == 0 {
        Seq::empty()
    } else {
        match events.last() {
            Event::Input(Some(data)) => inputs(events.drop_last()).push(data@),
            _ => inputs(events.drop_last()),
        }
    }
}

/// A session that has left its loop never goes back into it.
pub proof fn lemma_stopped_stays_stopped(s: State, event: Event)
    requires
        !s.phase.running(),
    ensures
        !s.next(event).0.phase.running(),
{
}

/// A session that is still in its loop has taken every message that the
/// input channel yielded, whole and in order.
pub proof fn lemma_running_session_accepts_all_input(events: Seq<Event>)
    requires
        run(events).phase.running(),
    ensures
        accepted(events) == join(inputs(events)),
    decreases events.len(),
{
    if events.len() == 0 {
        assert(join(inputs(events)) =~= Seq::<u8>::empty());
    } else {
        let before = events.drop_last();
        let s = run(before);
        if !s.phase.running() {
            lemma_stopped_stays_stopped(s, events.last());
        }
        lemma_running_session_accepts_all_input(before);
        match events.last() {
            Event::Input(Some(data)) => {
                lemma_join_concat(inputs(before), seq![data@]);
                lemma_join_single(data@);
                assert(inputs(before).push(data@) =~= inputs(before) + seq![data@]);
            },
            _ => {
                assert(accepted(before) + Seq::<u8>::empty() =~= accepted(before));
            },
        }
    }
}

/// No data is lost, whatever the size of the payload: when the session has
/// been handed the paced pieces of a payload, in order and interleaved at
/// will with lines, writes and flushes, and is still in its loop, then what
/// stdin has taken followed by what is still pending is the payload, byte
/// for byte.
pub proof fn lemma_paced_payload_is_delivered_or_pending(
    payload: Seq<u8>,
    threshold: nat,
    size: nat,
    events: Seq<Event>,
)
    requires
        size > 0,
        inputs(events) == paced(payload, threshold, size),
        run(events).phase.running(),
    ensures
        delivered(events) + run(events).pending == payload,
        run(events).pending.len() == 0 ==> delivered(events) == payload,
{
    lemma_running_session_accepts_all_input(events);
    lemma_paced_reassemble(payload, threshold, size);
    lemma_no_input_lost(events);
    if run(events).pending.len() == 0 {
        assert(delivered(events) + run(events).pending =~= delivered(events));
    }
}

/// The command line that runs `command`: the command interpreter alone for
/// an empty command, and the interpreter, `/c` and the command otherwise.
pub fn command_line(command: String) -> (args: Vec<String>)
    ensures
        args@.len() == if command@.len() == 0 {
            1int
        } else {
            3int
        },
        args@[0]@ == "cmd.exe"@,
        command@.len() > 0 ==> args@[1]@ == "/c"@ && args@[2]@ == command@,
{
    let mut args: Vec<String> = Vec::new();
    args.push(String::from_str("cmd.exe"));
    if !command.as_str().is_empty() {
        args.push(String::from_str("/c"));
        args.push(command);
    }
    args
}

} // verus!
