//! Live streaming gateway.
//!
//! Every viewer that connects gets two tasks: a drainer, which reads and
//! throws away whatever the viewer sends, and a forwarder, which follows the
//! session's event stream, renders each event in the viewer's protocol
//! and writes it out. When the stream ends or fails, the forwarder sends a
//! normal-closure frame and stops; when the viewer goes away, both tasks stop
//! together. No viewer's trouble reaches the session or another viewer.
//!
//! Two protocols share the stream. The fixed live-preview protocol sends
//! `{"time":T,"cols":C,"rows":R,"init":SEED}` for an init event,
//! `[T,"o",DATA]` for output and `[T,"r","COLSxROWS"]` for a resize, and
//! passes over snapshots; it knows no subscription. The event-stream protocol
//! sends each event that the viewer's subscription names, in the event's own
//! encoding, and drops the rest.
//!
//! The forwarder here decides; the caller awaits the stream and the socket
//! and reports back.

use vstd::prelude::*;
use vstd::string::StringExecFns;
use crate::api::Subscription;
use crate::session::{Event, StreamError, Timestamp};
use crate::text::{decimal_text, digit_char, push_decimal, push_seconds, seconds_text};

verus! {

/// Close code of a normal closure: the connection has served its purpose.
pub const NORMAL_CLOSURE: u16 = 1000;

/// One message on a viewer's connection.
#[derive(Clone, Debug, PartialEq, Eq)]
pub enum Frame {
    /// A text frame.
    Text(String),
    /// A close frame with its code and reason.
    Close { code: u16, reason: String },
}

/// A frame as a mathematical value.
pub enum FrameView {
    Text(Seq<char>),
    Close { code: u16, reason: Seq<char> },
}

impl View for Frame {
    type V = FrameView;

    open spec fn view(&self) -> FrameView {
        match *self {
            Frame::Text(text) => FrameView::Text(text@),
            Frame::Close { code, reason } => FrameView::Close { code, reason: reason@ },
        }
    }
}

/// Why a forwarder stopped in failure.
#[derive(Clone, Copy, Debug, PartialEq, Eq, Structural)]
pub enum GatewayError {
    /// The event stream reported a failure.
    Upstream(StreamError),
    /// The viewer's connection no longer takes frames.
    ViewerGone,
}

/// The digit of a hexadecimal number below sixteen, in lower case.
pub open spec fn hex_digit(d: nat) -> char
    recommends
        d < 16,
{
    if d < 10 {
        digit_char(d)
    } else if d == 10 {
        'a'
    } else if d == 11 {
        'b'
    } else if d == 12 {
        'c'
    } else if d == 13 {
        'd'
    } else if d == 14 {
        'e'
    } else {
        'f'
    }
}

/// One character as it stands inside a JSON string: the quote and the
/// backslash behind a backslash, the five control characters that have a
/// short form in that form, every other character below U+0020 as `\u00`
/// and two hexadecimal digits, and every other character as it is.
pub open spec fn json_char_text(c: char) -> Seq<char> {
    if c == '"' {
        seq!['\\', '"']
    } else if c == '\\' {
        seq!['\\', '\\']
    } else if c == '\u{8}' {
        seq!['\\', 'b']
    } else if c == '\u{9}' {
        seq!['\\', 't']
    } else if c == '\u{a}' {
        seq!['\\', 'n']
    } else if c == '\u{c}' {
        seq!['\\', 'f']
    } else if c == '\u{d}' {
        seq!['\\', 'r']
    } else if (c as u32) < 0x20 {
        seq![
            '\\',
            'u',
            '0',
            '0',
            hex_digit(((c as u32) / 16) as nat),
            hex_digit(((c as u32) % 16) as nat),
        ]
    } else {
        seq![c]
    }
}

/// The characters of a string as they stand inside a JSON string.
pub open spec fn json_escaped(s: Seq<char>) -> Seq<char>
    decreases s.len(),
{
    if s.len() == 0 {
        Seq::empty()
    } else {
        json_escaped(s.drop_last()) + json_char_text(s.last())
    }
}

/// The JSON text of a string: the escaped characters between double quotes.
pub open spec fn json_string_text(s: Seq<char>) -> Seq<char> {
    seq!['"'] + json_escaped(s) + seq!['"']
}

/// The JSON text of `s`, from `serde_json`: what `Value::to_string` gives for
/// the string value `s`. The contract claims, unproved, that this is
/// [`json_string_text`]: the crate's compact writer puts the string between
/// double quotes and escapes exactly the quote, the backslash and the
/// characters below U+0020, the latter in their short form where JSON has one
/// and as `\u00` with two lower-case hexadecimal digits where it has none.
#[verifier::external_body]
fn json_string(s: &str) -> (text: String)
    ensures
        text@ == json_string_text(s@),
{
    serde_json::Value::from(s).to_string()
}

/// The text of the frame that announces a session to a live-preview viewer,
/// given the JSON text of the seed sequence.
pub open spec fn init_frame_text(time: Timestamp, cols: nat, rows: nat, seed_json: Seq<char>) -> Seq<
    char,
> {
    "{\"time\":"@ + seconds_text(time.micros as nat) + ",\"cols\":"@ + decimal_text(cols)
        + ",\"rows\":"@ + decimal_text(rows) + ",\"init\":"@ + seed_json + "}"@
}

/// The text of the frame that carries output to a live-preview viewer, given
/// the JSON text of the data.
pub open spec fn output_frame_text(time: Timestamp, data_json: Seq<char>) -> Seq<char> {
    "["@ + seconds_text(time.micros as nat) + ",\"o\","@ + data_json + "]"@
}

/// The text of the frame that tells a live-preview viewer of a resize.
pub open spec fn resize_frame_text(time: Timestamp, cols: nat, rows: nat) -> Seq<char> {
    "["@ + seconds_text(time.micros as nat) + ",\"r\",\""@ + decimal_text(cols) + "x"@
        + decimal_text(rows) + "\"]"@
}

/// What the live-preview protocol makes of one item of the event stream:
/// a text frame, nothing for a snapshot, or the stream's failure.
pub open spec fn alis_rendering(item: Result<Event, StreamError>) -> Option<
    Result<FrameView, GatewayError>,
> {
    match item {
        Ok(Event::Init(time, cols, rows, seed, _)) => Some(
            Ok(
                FrameView::Text(
                    init_frame_text(time, cols as nat, rows as nat, json_string_text(seed@)),
                ),
            ),
        ),
        Ok(Event::Output(time, data)) => Some(
            Ok(FrameView::Text(output_frame_text(time, json_string_text(data@)))),
        ),
        Ok(Event::Resize(time, cols, rows)) => Some(
            Ok(FrameView::Text(resize_frame_text(time, cols as nat, rows as nat))),
        ),
        Ok(Event::Snapshot(..)) => None,
        Err(e) => Some(Err(GatewayError::Upstream(e))),
    }
}

/// What the event-stream protocol makes of one item of the event stream:
/// the event itself if the subscription names its type, nothing if not, or
/// the stream's failure.
pub open spec fn event_stream_selection(
    item: Result<Event, StreamError>,
    sub: Subscription,
) -> Option<Result<Event, GatewayError>> {
    match item {
        Ok(event) => if sub.admits(event.spec_kind()) {
            Some(Ok(event))
        } else {
            None
        },
        Err(e) => Some(Err(GatewayError::Upstream(e))),
    }
}

/// The frame that announces a session, given the JSON text of the seed
/// sequence.
pub fn init_frame(time: Timestamp, cols: usize, rows: usize, seed_json: &str) -> (text: String)
    ensures
        text@ == init_frame_text(time, cols as nat, rows as nat, seed_json@),
{
    let mut out = String::from_str("{\"time\":");
    push_seconds(&mut out, time.micros);
    out.append(",\"cols\":");
    push_decimal(&mut out, cols as u64);
    out.append(",\"rows\":");
    push_decimal(&mut out, rows as u64);
    out.append(",\"init\":");
    out.append(seed_json);
    out.append("}");
    out
}

/// The frame that carries output, given the JSON text of the data.
pub fn output_frame(time: Timestamp, data_json: &str) -> (text: String)
    ensures
        text@ == output_frame_text(time, data_json@),
{
    let mut out = String::from_str("[");
    push_seconds(&mut out, time.micros);
    out.append(",\"o\",");
    out.append(data_json);
    out.append("]");
    out
}

/// The frame that tells of a resize.
pub fn resize_frame(time: Timestamp, cols: usize, rows: usize) -> (text: String)
    ensures
        text@ == resize_frame_text(time, cols as nat, rows as nat),
{
    let mut out = String::from_str("[");
    push_seconds(&mut out, time.micros);
    out.append(",\"r\",\"");
    push_decimal(&mut out, cols as u64);
    out.append("x");
    push_decimal(&mut out, rows as u64);
    out.append("\"]");
    out
}

/// Wraps encoded text into a text frame.
pub fn json_message(text: String) -> (frame: Frame)
    ensures
        frame == Frame::Text(text),
{
    Frame::Text(text)
}

/// The frame that ends a viewer's connection in the normal way.
pub fn close_message() -> (frame: Frame)
    ensures
        frame@ == (FrameView::Close { code: NORMAL_CLOSURE, reason: "ended"@ }),
{
    Frame::Close { code: NORMAL_CLOSURE, reason: String::from_str("ended") }
}

/// Renders one item of the event stream for a live-preview viewer.
pub fn alis_message(item: Result<Event, StreamError>) -> (r: Option<Result<Frame, GatewayError>>)
    ensures
        match r {
            Some(Ok(frame)) => alis_rendering(item) == Some(
                Ok::<FrameView, GatewayError>(frame@),
            ),
            Some(Err(e)) => alis_rendering(item) == Some(Err::<FrameView, GatewayError>(e)),
            None => alis_rendering(item) is None,
        },
{
    match item {
        Ok(Event::Init(time, cols, rows, seed, _text)) => {
            let seed_json = json_string(seed.as_str());
            Some(Ok(json_message(init_frame(time, cols, rows, seed_json.as_str()))))
        },
        Ok(Event::Output(time, data)) => {
            let data_json = json_string(data.as_str());
            Some(Ok(json_message(output_frame(time, data_json.as_str()))))
        },
        Ok(Event::Resize(time, cols, rows)) => Some(
            Ok(json_message(resize_frame(time, cols, rows))),
        ),
        Ok(Event::Snapshot(_, _, _, _)) => None,
        Err(e) => Some(Err(GatewayError::Upstream(e))),
    }
}

/// Filters one item of the event stream for an event-stream viewer. An event
/// that passes is handed on as it came, to be sent in its own encoding.
pub fn event_stream_message(item: Result<Event, StreamError>, sub: Subscription) -> (r: Option<
    Result<Event, GatewayError>,
>)
    ensures
        r == event_stream_selection(item, sub),
{
    match item {
        Ok(event) => {
            if sub.subscribes(event.kind()) {
                Some(Ok(event))
            } else {
                None
            }
        },
        Err(e) => Some(Err(GatewayError::Upstream(e))),
    }
}

/// Subscription filtering: an event-stream viewer is sent an event exactly
/// when its subscription names the event's type. With only `output` named,
/// no init, resize or snapshot event passes; with nothing named, no event
/// passes at all.
pub proof fn lemma_subscription_filters(event: Event, sub: Subscription)
    ensures
        event_stream_selection(Ok(event), sub) is Some <==> sub.admits(event.spec_kind()),
        event_stream_selection(Ok(event), sub) matches Some(r) ==> r == Ok::<
            Event,
            GatewayError,
        >(event),
        sub == (Subscription { output: true, ..Subscription::empty() }) && !(event is Output)
            ==> event_stream_selection(Ok(event), sub) is None,
        event_stream_selection(Ok(event), Subscription::empty()) is None,
{
}

/// The live-preview protocol knows no subscription: it sends every init,
/// output and resize event and no snapshot.
pub proof fn lemma_alis_is_fixed(event: Event)
    ensures
        alis_rendering(Ok(event)) is None <==> event is Snapshot,
        alis_rendering(Ok(event)) matches Some(r) ==> r is Ok,
{
}

/// A failure of the event stream ends either protocol's forwarding.
pub proof fn lemma_stream_failure_surfaces(e: StreamError, sub: Subscription)
    ensures
        alis_rendering(Err(e)) == Some(Err::<FrameView, GatewayError>(GatewayError::Upstream(e))),
        event_stream_selection(Err(e), sub) == Some(
            Err::<Event, GatewayError>(GatewayError::Upstream(e)),
        ),
{
}

/// The protocol that a viewer speaks.
#[derive(Clone, Copy, Debug, PartialEq, Eq, Structural)]
pub enum Protocol {
    /// The fixed live-preview protocol.
    Alis,
    /// The event-stream protocol, with the viewer's subscription.
    Events(Subscription),
}

/// What goes out to a viewer.
#[derive(Clone, Debug, PartialEq, Eq)]
pub enum Outgoing {
    /// A frame, ready to be written.
    Frame(Frame),
    /// An event that passed the viewer's subscription, to be written as one
    /// text frame in the event's own encoding.
    Event(Event),
}

/// What goes out to a viewer, as a mathematical value.
pub enum OutgoingView {
    Frame(FrameView),
    Event(Event),
}

impl View for Outgoing {
    type V = OutgoingView;

    open spec fn view(&self) -> OutgoingView {
        match *self {
            Outgoing::Frame(frame) => OutgoingView::Frame(frame@),
            Outgoing::Event(event) => OutgoingView::Event(event),
        }
    }
}

/// What the forwarder's caller observed.
pub enum ViewerEvent {
    /// The event stream yielded an item, or `None` at its end.
    Upstream(Option<Result<Event, StreamError>>),
    /// Whether the viewer's connection took what was sent.
    Sent(bool),
    /// The drainer finished: the viewer closed its side, or reading failed.
    Disconnected,
}

/// What the forwarder's caller does next.
#[derive(Debug, PartialEq, Eq)]
pub enum ViewerAction {
    /// Await the next item of the event stream.
    Next,
    /// Write this to the viewer's connection.
    Send(Outgoing),
    /// Keep waiting for the write that is under way.
    Pending,
    /// Stop the drainer and end the viewer's tasks with this result.
    Finish(Result<(), GatewayError>),
}

/// What the forwarder's caller does next, as a mathematical value.
pub enum ViewerActionView {
    Next,
    Send(OutgoingView),
    Pending,
    Finish(Result<(), GatewayError>),
}

impl View for ViewerAction {
    type V = ViewerActionView;

    open spec fn view(&self) -> ViewerActionView {
        match *self {
            ViewerAction::Next => ViewerActionView::Next,
            ViewerAction::Send(out) => ViewerActionView::Send(out@),
            ViewerAction::Pending => ViewerActionView::Pending,
            ViewerAction::Finish(result) => ViewerActionView::Finish(result),
        }
    }
}

/// Where a forwarder stands.
#[derive(Clone, Copy, Debug, PartialEq, Eq)]
pub enum ViewerPhase {
    /// Following the event stream.
    Streaming,
    /// A message is being written to the viewer.
    Sending,
    /// The stream has ended or failed; the close frame is being written.
    Closing(Result<(), GatewayError>),
    /// Both of the viewer's tasks are over.
    Finished(Result<(), GatewayError>),
}

impl ViewerPhase {
    /// The viewer's tasks are still running.
    pub open spec fn running(self) -> bool {
        !(self is Finished)
    }
}

/// The close frame of a normal closure.
pub open spec fn close_frame() -> FrameView {
    FrameView::Close { code: NORMAL_CLOSURE, reason: "ended"@ }
}

/// What a protocol sends for one item of the event stream: something to
/// write, nothing, or the failure that ends the forwarding.
pub open spec fn outgoing_for(protocol: Protocol, item: Result<Event, StreamError>) -> Option<
    Result<OutgoingView, GatewayError>,
> {
    match protocol {
        Protocol::Alis => match alis_rendering(item) {
            Some(Ok(frame)) => Some(Ok(OutgoingView::Frame(frame))),
            Some(Err(e)) => Some(Err(e)),
            None => None,
        },
        Protocol::Events(sub) => match event_stream_selection(item, sub) {
            Some(Ok(event)) => Some(Ok(OutgoingView::Event(event))),
            Some(Err(e)) => Some(Err(e)),
            None => None,
        },
    }
}

/// One step of a forwarder: the phase after `event`, and what to do next.
pub open spec fn viewer_next(protocol: Protocol, phase: ViewerPhase, event: ViewerEvent) -> (
    ViewerPhase,
    ViewerActionView,
) {
    match (phase, event) {
        (ViewerPhase::Finished(result), _) => (phase, ViewerActionView::Finish(result)),
        (_, ViewerEvent::Disconnected) => (
            ViewerPhase::Finished(Ok(())),
            ViewerActionView::Finish(Ok(())),
        ),
        (ViewerPhase::Streaming, ViewerEvent::Upstream(Some(item))) => match outgoing_for(
            protocol,
            item,
        ) {
            Some(Ok(out)) => (ViewerPhase::Sending, ViewerActionView::Send(out)),
            Some(Err(e)) => (
                ViewerPhase::Closing(Err(e)),
                ViewerActionView::Send(OutgoingView::Frame(close_frame())),
            ),
            None => (ViewerPhase::Streaming, ViewerActionView::Next),
        },
        (ViewerPhase::Streaming, ViewerEvent::Upstream(None)) => (
            ViewerPhase::Closing(Ok(())),
            ViewerActionView::Send(OutgoingView::Frame(close_frame())),
        ),
        (ViewerPhase::Streaming, ViewerEvent::Sent(_)) => (phase, ViewerActionView::Next),
        (ViewerPhase::Sending, ViewerEvent::Sent(taken)) => if taken {
            (ViewerPhase::Streaming, ViewerActionView::Next)
        } else {
            (
                ViewerPhase::Finished(Err(GatewayError::ViewerGone)),
                ViewerActionView::Finish(Err(GatewayError::ViewerGone)),
            )
        },
        (ViewerPhase::Closing(result), ViewerEvent::Sent(taken)) => {
            let end = if result is Ok && !taken {
                Err(GatewayError::ViewerGone)
            } else {
                result
            };
            (ViewerPhase::Finished(end), ViewerActionView::Finish(end))
        },
        (_, ViewerEvent::Upstream(_)) => (phase, ViewerActionView::Pending),
    }
}

/// The forwarder of one viewer.
pub struct Forwarder {
    protocol: Protocol,
    phase: ViewerPhase,
}

impl Forwarder {
    /// The protocol that the viewer speaks.
    pub closed spec fn spec_protocol(self) -> Protocol {
        self.protocol
    }

    /// Where the forwarder stands.
    pub closed spec fn spec_phase(self) -> ViewerPhase {
        self.phase
    }

    /// A forwarder for a viewer who has just connected.
    pub fn new(protocol: Protocol) -> (forwarder: Forwarder)
        ensures
            forwarder.spec_protocol() == protocol,
            forwarder.spec_phase() == ViewerPhase::Streaming,
    {
        Forwarder { protocol, phase: ViewerPhase::Streaming }
    }

    /// The protocol that the viewer speaks.
    pub fn protocol(&self) -> (protocol: Protocol)
        ensures
            protocol == self.spec_protocol(),
    {
        self.protocol
    }

    /// Where the forwarder stands.
    pub fn phase(&self) -> (phase: ViewerPhase)
        ensures
            phase == self.spec_phase(),
    {
        self.phase
    }

    fn outgoing(&self, item: Result<Event, StreamError>) -> (r: Option<
        Result<Outgoing, GatewayError>,
    >)
        ensures
            match r {
                Some(Ok(out)) => outgoing_for(self.spec_protocol(), item) == Some(
                    Ok::<OutgoingView, GatewayError>(out@),
                ),
                Some(Err(e)) => outgoing_for(self.spec_protocol(), item) == Some(
                    Err::<OutgoingView, GatewayError>(e),
                ),
                None => outgoing_for(self.spec_protocol(), item) is None,
            },
    {
        match self.protocol {
            Protocol::Alis => match alis_message(item) {
                Some(Ok(frame)) => Some(Ok(Outgoing::Frame(frame))),
                Some(Err(e)) => Some(Err(e)),
                None => None,
            },
            Protocol::Events(sub) => match event_stream_message(item, sub) {
                Some(Ok(event)) => Some(Ok(Outgoing::Event(event))),
                Some(Err(e)) => Some(Err(e)),
                None => None,
            },
        }
    }

    fn on_upstream(&mut self, item: Option<Result<Event, StreamError>>) -> (action: ViewerAction)
        requires
            old(self).spec_phase() is Streaming,
        ensures
            final(self).spec_protocol() == old(self).spec_protocol(),
            (final(self).spec_phase(), action@) == viewer_next(
                old(self).spec_protocol(),
                old(self).spec_phase(),
                ViewerEvent::Upstream(item),
            ),
    {
        match item {
            Some(item) => match self.outgoing(item) {
                Some(Ok(out)) => {
                    self.phase = ViewerPhase::Sending;
                    ViewerAction::Send(out)
                },
                Some(Err(e)) => {
                    self.phase = ViewerPhase::Closing(Err(e));
                    ViewerAction::Send(Outgoing::Frame(close_message()))
                },
                None => ViewerAction::Next,
            },
            None => {
                self.phase = ViewerPhase::Closing(Ok(()));
                ViewerAction::Send(Outgoing::Frame(close_message()))
            },
        }
    }

    /// Takes one event and says what to do next.
    ///
    /// While an item is being written, or the close frame is, the stream is
    /// not read: an item that arrives then is not taken, and the answer is to
    /// keep waiting for the write.
    pub fn step(&mut self, event: ViewerEvent) -> (action: ViewerAction)
        ensures
            final(self).spec_protocol() == old(self).spec_protocol(),
            (final(self).spec_phase(), action@) == viewer_next(
                old(self).spec_protocol(),
                old(self).spec_phase(),
                event,
            ),
    {
        match self.phase {
            ViewerPhase::Finished(result) => ViewerAction::Finish(result),
            ViewerPhase::Streaming => match event {
                ViewerEvent::Disconnected => {
                    self.phase = ViewerPhase::Finished(Ok(()));
                    ViewerAction::Finish(Ok(()))
                },
                ViewerEvent::Upstream(item) => self.on_upstream(item),
                ViewerEvent::Sent(_) => ViewerAction::Next,
            },
            ViewerPhase::Sending => match event {
                ViewerEvent::Disconnected => {
                    self.phase = ViewerPhase::Finished(Ok(()));
                    ViewerAction::Finish(Ok(()))
                },
                ViewerEvent::Sent(taken) => {
                    if taken {
                        self.phase = ViewerPhase::Streaming;
                        ViewerAction::Next
                    } else {
                        self.phase = ViewerPhase::Finished(Err(GatewayError::ViewerGone));
                        ViewerAction::Finish(Err(GatewayError::ViewerGone))
                    }
                },
                ViewerEvent::Upstream(_) => ViewerAction::Pending,
            },
            ViewerPhase::Closing(result) => match event {
                ViewerEvent::Disconnected => {
                    self.phase = ViewerPhase::Finished(Ok(()));
                    ViewerAction::Finish(Ok(()))
                },
                ViewerEvent::Sent(taken) => {
                    let end = match result {
                        Ok(_) => if taken {
                            result
                        } else {
                            Err(GatewayError::ViewerGone)
                        },
                        Err(_) => result,
                    };
                    self.phase = ViewerPhase::Finished(end);
                    ViewerAction::Finish(end)
                },
                ViewerEvent::Upstream(_) => ViewerAction::Pending,
            },
        }
    }
}

/// Nothing reaches an event-stream viewer that its subscription does not
/// name: whatever the phase and the event, what a step sends is the close
/// frame or an event whose type the subscription names.
pub proof fn lemma_viewer_gets_only_subscribed(
    sub: Subscription,
    phase: ViewerPhase,
    event: ViewerEvent,
)
    ensures
        viewer_next(Protocol::Events(sub), phase, event).1 matches ViewerActionView::Send(out)
            ==> (out == OutgoingView::Frame(close_frame()) || (out matches OutgoingView::Event(e)
            && sub.admits(e.spec_kind()) && event == ViewerEvent::Upstream(
            Some(Ok::<Event, StreamError>(e)),
        ))),
{
}

/// A viewer with the empty subscription is sent no event at all.
pub proof fn lemma_empty_subscription_sends_nothing(phase: ViewerPhase, event: ViewerEvent)
    ensures
        viewer_next(Protocol::Events(Subscription::empty()), phase, event).1 matches ViewerActionView::Send(
            out,
        ) ==> out == OutgoingView::Frame(close_frame()),
{
}

/// Events keep their order: the forwarder takes the next item of the stream
/// only when the one before has been written or passed over.
pub proof fn lemma_one_item_at_a_time(protocol: Protocol, phase: ViewerPhase, event: ViewerEvent)
    ensures
        viewer_next(protocol, phase, event).1 is Next ==> viewer_next(
            protocol,
            phase,
            event,
        ).0 is Streaming,
        viewer_next(protocol, phase, event).1 is Send ==> phase is Streaming && event is Upstream,
        (phase is Sending || phase is Closing) && event is Upstream ==> viewer_next(
            protocol,
            phase,
            event,
        ) == (phase, ViewerActionView::Pending),
{
}

/// The end of the stream, and its failure, close the connection in the
/// normal way: the close frame goes out, and then the tasks stop, with
/// success after the end and with the failure after a failure.
pub proof fn lemma_stream_end_closes(protocol: Protocol, e: StreamError, taken: bool)
    ensures
        viewer_next(protocol, ViewerPhase::Streaming, ViewerEvent::Upstream(None)) == (
            ViewerPhase::Closing(Ok(())),
            ViewerActionView::Send(OutgoingView::Frame(close_frame())),
        ),
        viewer_next(protocol, ViewerPhase::Streaming, ViewerEvent::Upstream(Some(Err(e)))) == (
            ViewerPhase::Closing(Err(GatewayError::Upstream(e))),
            ViewerActionView::Send(OutgoingView::Frame(close_frame())),
        ),
        viewer_next(protocol, ViewerPhase::Closing(Ok(())), ViewerEvent::Sent(true)).1
            == ViewerActionView::Finish(Ok(())),
        viewer_next(
            protocol,
            ViewerPhase::Closing(Err(GatewayError::Upstream(e))),
            ViewerEvent::Sent(taken),
        ).1 == ViewerActionView::Finish(Err(GatewayError::Upstream(e))),
{
}

/// The two tasks of a viewer end together: once the drainer is done the
/// forwarder stops, and a forwarder that has stopped stays stopped.
pub proof fn lemma_tasks_end_together(protocol: Protocol, phase: ViewerPhase, event: ViewerEvent)
    ensures
        phase.running() ==> viewer_next(protocol, phase, ViewerEvent::Disconnected) == (
            ViewerPhase::Finished(Ok(())),
            ViewerActionView::Finish(Ok(())),
        ),
        phase matches ViewerPhase::Finished(result) ==> viewer_next(protocol, phase, event) == (
            phase,
            ViewerActionView::Finish(result),
        ),
        viewer_next(protocol, phase, event).1 is Finish <==> !viewer_next(
            protocol,
            phase,
            event,
        ).0.running(),
{
}

} // verus!
