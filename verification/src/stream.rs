//! Relaying the output of an instance: its logs, or the console of an
//! interactive session. The runtime sends frames, each tagged with the channel
//! it belongs to; the relay says, frame by frame, what the caller has to write
//! where, and when the runtime's stream has to be released.

use vstd::prelude::*;
use vstd::string::StringSliceAdditionalSpecFns;
use vstd::utf8::{decode_utf8, encode_utf8_decode_utf8, valid_utf8};
use crate::error::{Error, ErrorView};
use crate::lifecycle::{error_of, failure_error, Failure, FailureView};
use crate::naming::{runtime_name_of, to_runtime_name};

verus! {

/// One frame of the runtime's stream protocol. The protocol has a tag for what
/// goes into the container as well; the runtime never sends it on an output
/// stream.
#[derive(Debug, PartialEq, Eq)]
pub enum Frame {
    StdIn(Vec<u8>),
    StdOut(Vec<u8>),
    StdErr(Vec<u8>),
}

/// The mathematical content of a [`Frame`].
pub enum FrameView {
    StdIn(Seq<u8>),
    StdOut(Seq<u8>),
    StdErr(Seq<u8>),
}

impl View for Frame {
    type V = FrameView;

    open spec fn view(&self) -> FrameView {
        match self {
            Frame::StdIn(b) => FrameView::StdIn(b@),
            Frame::StdOut(b) => FrameView::StdOut(b@),
            Frame::StdErr(b) => FrameView::StdErr(b@),
        }
    }
}

/// The local output that a chunk is written to.
#[derive(Debug, Clone, Copy, PartialEq, Eq, Structural)]
pub enum Sink {
    Stdout,
    Stderr,
}

/// A chunk of an instance's output. There is no chunk for what goes into the
/// container.
#[derive(Debug, PartialEq, Eq)]
pub enum Chunk {
    Stdout(Vec<u8>),
    Stderr(Vec<u8>),
}

/// The mathematical content of a [`Chunk`].
pub enum ChunkView {
    Stdout(Seq<u8>),
    Stderr(Seq<u8>),
}

impl View for Chunk {
    type V = ChunkView;

    open spec fn view(&self) -> ChunkView {
        match self {
            Chunk::Stdout(b) => ChunkView::Stdout(b@),
            Chunk::Stderr(b) => ChunkView::Stderr(b@),
        }
    }
}

impl ChunkView {
    /// The local output that the chunk belongs to.
    pub open spec fn sink(self) -> Sink {
        match self {
            ChunkView::Stdout(_) => Sink::Stdout,
            ChunkView::Stderr(_) => Sink::Stderr,
        }
    }

    /// The bytes of the chunk.
    pub open spec fn bytes(self) -> Seq<u8> {
        match self {
            ChunkView::Stdout(b) => b,
            ChunkView::Stderr(b) => b,
        }
    }
}

/// The chunk that a frame carries, or `None` for a frame tagged as input.
pub open spec fn chunk_of(frame: FrameView) -> Option<ChunkView> {
    match frame {
        FrameView::StdIn(_) => None,
        FrameView::StdOut(b) => Some(ChunkView::Stdout(b)),
        FrameView::StdErr(b) => Some(ChunkView::Stderr(b)),
    }
}

impl Chunk {
    /// Takes the chunk out of a frame. A frame tagged as input breaks the
    /// protocol and is refused, never passed over.
    pub fn from_frame(frame: Frame) -> (chunk: Result<Chunk, Error>)
        ensures
            match chunk {
                Ok(c) => chunk_of(frame@) == Some(c@),
                Err(e) => e == Error::ProtocolViolation && frame@ is StdIn,
            },
    {
        match frame {
            Frame::StdIn(_) => Err(Error::ProtocolViolation),
            Frame::StdOut(b) => Ok(Chunk::Stdout(b)),
            Frame::StdErr(b) => Ok(Chunk::Stderr(b)),
        }
    }

    /// The local output that the chunk is written to: standard output for a
    /// chunk of standard output, standard error for one of standard error.
    pub fn sink(&self) -> (sink: Sink)
        ensures
            sink == self@.sink(),
    {
        match self {
            Chunk::Stdout(_) => Sink::Stdout,
            Chunk::Stderr(_) => Sink::Stderr,
        }
    }

    /// The bytes of the chunk, as they came.
    pub fn bytes(&self) -> (bytes: &Vec<u8>)
        ensures
            bytes@ == self@.bytes(),
    {
        match self {
            Chunk::Stdout(b) => b,
            Chunk::Stderr(b) => b,
        }
    }

    /// The chunk as text, for output that has to be text.
    pub fn text(&self) -> (text: Result<String, Error>)
        ensures
            match text {
                Ok(s) => valid_utf8(self@.bytes()) && s@ == decode_utf8(self@.bytes()),
                Err(e) => e == Error::EncodingError && !valid_utf8(self@.bytes()),
            },
    {
        decode_text(self.bytes().as_slice())
    }
}

/// `std::str::from_utf8`: the bytes as a string slice where they are valid
/// UTF-8, in which case the slice's encoding is those same bytes, and `None`
/// where they are not.
#[verifier::external_body]
fn utf8_str(bytes: &[u8]) -> (text: Option<&str>)
    ensures
        text is Some <==> valid_utf8(bytes@),
        text matches Some(s) ==> s.spec_bytes() == bytes@,
{
    match std::str::from_utf8(bytes) {
        Ok(s) => Some(s),
        Err(_) => None,
    }
}

/// Decodes bytes as UTF-8 text. Bytes that are not valid UTF-8 are refused as
/// a whole: nothing is replaced or dropped.
pub fn decode_text(bytes: &[u8]) -> (text: Result<String, Error>)
    ensures
        match text {
            Ok(s) => valid_utf8(bytes@) && s@ == decode_utf8(bytes@),
            Err(e) => e == Error::EncodingError && !valid_utf8(bytes@),
        },
{
    match utf8_str(bytes) {
        Some(s) => {
            proof {
                encode_utf8_decode_utf8(s@);
            }
            Ok(String::from_str(s))
        },
        None => Err(Error::EncodingError),
    }
}

/// Which stream of an instance is asked for.
#[derive(Debug, Clone, Copy, PartialEq, Eq, Structural)]
pub enum Source {
    /// The output that the instance has written so far.
    Logs,
    /// The console of an interactive session in the instance.
    Console,
}

/// The request that attaches to a stream of an instance.
#[derive(Debug, PartialEq, Eq)]
pub struct Subscription {
    /// The runtime's name of the container.
    pub container: String,
    pub source: Source,
    /// Whether the container's standard output is asked for.
    pub stdout: bool,
    /// Whether the container's standard error is asked for.
    pub stderr: bool,
}

/// The mathematical content of a [`Subscription`].
pub struct SubscriptionView {
    pub container: Seq<char>,
    pub source: Source,
    pub stdout: bool,
    pub stderr: bool,
}

impl View for Subscription {
    type V = SubscriptionView;

    open spec fn view(&self) -> SubscriptionView {
        SubscriptionView {
            container: self.container@,
            source: self.source,
            stdout: self.stdout,
            stderr: self.stderr,
        }
    }
}

/// The request that attaches to `source` of the instance called `name`. Both
/// output channels are asked for.
pub fn subscribe(prefix: &str, source: Source, name: &str) -> (subscription: Subscription)
    ensures
        subscription@ == (SubscriptionView {
            container: runtime_name_of(prefix@, name@),
            source,
            stdout: true,
            stderr: true,
        }),
{
    Subscription { container: to_runtime_name(prefix, name), source, stdout: true, stderr: true }
}

/// What happened on an attached stream.
#[derive(Debug, PartialEq, Eq)]
pub enum Event {
    /// The runtime sent a frame.
    Frame(Frame),
    /// The stream failed.
    Failed(Failure),
    /// The runtime closed the stream, or the instance stopped.
    Ended,
    /// The consumer of the relay went away.
    Cancelled,
}

/// The mathematical content of an [`Event`].
pub enum EventView {
    Frame(FrameView),
    Failed(FailureView),
    Ended,
    Cancelled,
}

impl View for Event {
    type V = EventView;

    open spec fn view(&self) -> EventView {
        match self {
            Event::Frame(f) => EventView::Frame(f@),
            Event::Failed(f) => EventView::Failed(f@),
            Event::Ended => EventView::Ended,
            Event::Cancelled => EventView::Cancelled,
        }
    }
}

impl DeepView for Event {
    type V = EventView;

    open spec fn deep_view(&self) -> EventView {
        self@
    }
}

/// What the caller has to do after an event.
#[derive(Debug, PartialEq, Eq)]
pub enum Action {
    /// Write the bytes to the sink, before anything that comes later.
    Write(Sink, Vec<u8>),
    /// Release the runtime's stream; where an error is given, report it first.
    Release(Option<Error>),
    /// Nothing: the stream was released before.
    Nothing,
}

/// The mathematical content of an [`Action`].
pub enum ActionView {
    Write(Sink, Seq<u8>),
    Release(Option<ErrorView>),
    Nothing,
}

impl View for Action {
    type V = ActionView;

    open spec fn view(&self) -> ActionView {
        match self {
            Action::Write(sink, b) => ActionView::Write(*sink, b@),
            Action::Release(Some(e)) => ActionView::Release(Some(e@)),
            Action::Release(None) => ActionView::Release(None),
            Action::Nothing => ActionView::Nothing,
        }
    }
}

impl DeepView for Action {
    type V = ActionView;

    open spec fn deep_view(&self) -> ActionView {
        self@
    }
}

/// The relay's state as a value: the instance it serves, and whether the
/// runtime's stream is still held.
pub struct RelayView {
    pub name: Seq<char>,
    pub attached: bool,
}

/// The relay's next state and the caller's action after `event`.
pub open spec fn next(relay: RelayView, event: EventView) -> (RelayView, ActionView) {
    let released = RelayView { name: relay.name, attached: false };
    if !relay.attached {
        (relay, ActionView::Nothing)
    } else {
        match event {
            EventView::Frame(FrameView::StdOut(b)) => (relay, ActionView::Write(Sink::Stdout, b)),
            EventView::Frame(FrameView::StdErr(b)) => (relay, ActionView::Write(Sink::Stderr, b)),
            EventView::Frame(FrameView::StdIn(_)) => (
                released,
                ActionView::Release(Some(ErrorView::ProtocolViolation)),
            ),
            EventView::Failed(failure) => (
                released,
                ActionView::Release(Some(error_of(relay.name, failure))),
            ),
            EventView::Ended => (released, ActionView::Release(None)),
            EventView::Cancelled => (released, ActionView::Release(None)),
        }
    }
}

/// The relay of one attached stream.
#[derive(Debug, PartialEq, Eq)]
pub struct Relay {
    name: String,
    attached: bool,
}

impl View for Relay {
    type V = RelayView;

    closed spec fn view(&self) -> RelayView {
        RelayView { name: self.name@, attached: self.attached }
    }
}

impl Relay {
    /// The relay of a stream of the instance called `name` that was attached
    /// just now.
    pub fn attach(name: &str) -> (relay: Relay)
        ensures
            relay@ == (RelayView { name: name@, attached: true }),
    {
        Relay { name: String::from_str(name), attached: true }
    }

    /// Whether the runtime's stream is still held.
    pub fn is_attached(&self) -> (attached: bool)
        ensures
            attached == self@.attached,
    {
        self.attached
    }

    /// The user's name of the instance that the relay serves.
    pub fn name(&self) -> (name: &str)
        ensures
            name@ == self@.name,
    {
        self.name.as_str()
    }

    /// Takes one event and says what the caller has to do. A frame of output
    /// is written to its own sink and the stream stays attached. A frame
    /// tagged as input, a failure, the end of the stream and a cancellation
    /// each release the stream. Once released, the relay asks for nothing more.
    pub fn step(&mut self, event: Event) -> (action: Action)
        ensures
            (final(self)@, action@) == next(old(self)@, event@),
    {
        if !self.attached {
            return Action::Nothing;
        }
        match event {
            Event::Frame(Frame::StdOut(b)) => Action::Write(Sink::Stdout, b),
            Event::Frame(Frame::StdErr(b)) => Action::Write(Sink::Stderr, b),
            Event::Frame(Frame::StdIn(_)) => {
                self.attached = false;
                Action::Release(Some(Error::ProtocolViolation))
            },
            Event::Failed(failure) => {
                self.attached = false;
                Action::Release(Some(failure_error(self.name.as_str(), &failure)))
            },
            Event::Ended => {
                self.attached = false;
                Action::Release(None)
            },
            Event::Cancelled => {
                self.attached = false;
                Action::Release(None)
            },
        }
    }
}

/// The relay's state after a run of events.
pub open spec fn state_after(relay: RelayView, events: Seq<EventView>) -> RelayView
    decreases events.len(),
{
    if events.len() == 0 {
        relay
    } else {
        next(state_after(relay, events.drop_last()), events.last()).0
    }
}

/// The caller's actions over a run of events, one for each event, in order.
pub open spec fn actions_over(relay: RelayView, events: Seq<EventView>) -> Seq<ActionView>
    decreases events.len(),
{
    if events.len() == 0 {
        Seq::empty()
    } else {
        actions_over(relay, events.drop_last()).push(
            next(state_after(relay, events.drop_last()), events.last()).1,
        )
    }
}

impl Relay {
    /// Takes a run of events in the order in which they arrived and says,
    /// in the same order, what the caller has to do for each.
    pub fn run(&mut self, events: Vec<Event>) -> (actions: Vec<Action>)
        ensures
            final(self)@ == state_after(old(self)@, events.deep_view()),
            actions.deep_view() == actions_over(old(self)@, events.deep_view()),
    {
        let ghost start = self@;
        let ghost arrived = events@;
        let ghost all = events.deep_view();
        let mut actions: Vec<Action> = Vec::new();
        for event in it: events.into_iter()
            invariant
                it.seq() == arrived,
                all.len() == arrived.len(),
                forall|k: int| 0 <= k < arrived.len() ==> all[k] == (#[trigger] arrived[k])@,
                self@ == state_after(start, all.take(it.index() as int)),
                actions.deep_view() == actions_over(start, all.take(it.index() as int)),
        {
            let ghost done = it.index() as int;
            proof {
                assert(all.take(done + 1).drop_last() =~= all.take(done));
            }
            let action = self.step(event);
            actions.push(action);
        }
        proof {
            assert(all.take(all.len() as int) =~= all);
        }
        actions
    }
}

/// True when the event ends the stream.
pub open spec fn ends_stream(event: EventView) -> bool {
    !(event matches EventView::Frame(f) && chunk_of(f) is Some)
}

/// Each event gets one action, and the action for the event at `i` is what the
/// relay says in the state that the events before it left.
pub proof fn lemma_actions_index(relay: RelayView, events: Seq<EventView>, i: int)
    requires
        0 <= i < events.len(),
    ensures
        actions_over(relay, events).len() == events.len(),
        actions_over(relay, events)[i] == next(state_after(relay, events.take(i)), events[i]).1,
    decreases events.len(),
{
    lemma_actions_len(relay, events);
    if i < events.len() - 1 {
        lemma_actions_index(relay, events.drop_last(), i);
        assert(events.drop_last().take(i) =~= events.take(i));
    }
}

/// Each event gets one action.
pub proof fn lemma_actions_len(relay: RelayView, events: Seq<EventView>)
    ensures
        actions_over(relay, events).len() == events.len(),
    decreases events.len(),
{
    if events.len() > 0 {
        lemma_actions_len(relay, events.drop_last());
    }
}

/// A relay stays attached exactly as long as every event is a frame of output.
pub proof fn lemma_attached_while_output(relay: RelayView, events: Seq<EventView>)
    ensures
        state_after(relay, events).name == relay.name,
        state_after(relay, events).attached <==> relay.attached && forall|k: int|
            0 <= k < events.len() ==> !ends_stream(#[trigger] events[k]),
    decreases events.len(),
{
    if events.len() > 0 {
        let front = events.drop_last();
        lemma_attached_while_output(relay, front);
        assert(forall|k: int| 0 <= k < front.len() ==> front[k] == events[k]);
    }
}

/// No relay ever asks to write what was tagged as input: the action for such a
/// frame is a release with a protocol violation or, on a released stream,
/// nothing.
pub proof fn lemma_input_is_never_relayed(relay: RelayView, bytes: Seq<u8>)
    ensures
        !(next(relay, EventView::Frame(FrameView::StdIn(bytes))).1 is Write),
        relay.attached ==> next(relay, EventView::Frame(FrameView::StdIn(bytes))).1
            == ActionView::Release(Some(ErrorView::ProtocolViolation)),
{
}

/// What a relay asks to write is a frame of output, unchanged and in its own
/// sink: output is relayed as it arrives, never reordered or rewritten.
pub proof fn lemma_writes_follow_frames(relay: RelayView, events: Seq<EventView>, i: int)
    requires
        0 <= i < events.len(),
    ensures
        actions_over(relay, events)[i] matches ActionView::Write(sink, bytes) ==> {
            &&& events[i] matches EventView::Frame(frame)
            &&& chunk_of(frame) matches Some(chunk)
            &&& chunk.sink() == sink
            &&& chunk.bytes() == bytes
        },
        events[i] matches EventView::Frame(frame) ==> (chunk_of(frame) matches Some(chunk)
            ==> (state_after(relay, events.take(i)).attached ==> actions_over(relay, events)[i]
            == ActionView::Write(chunk.sink(), chunk.bytes()))),
{
    lemma_actions_index(relay, events, i);
}

/// When the consumer goes away, the runtime's stream is released at once: an
/// attached relay answers a cancellation with a release, and is released
/// whatever its state was.
pub proof fn lemma_cancel_releases(relay: RelayView)
    ensures
        !next(relay, EventView::Cancelled).0.attached,
        relay.attached ==> next(relay, EventView::Cancelled).1 == ActionView::Release(None),
{
}

/// A released stream stays released, and nothing is written or released
/// after: whatever follows a cancellation, or any other end of the stream,
/// gets the action `Nothing`.
pub proof fn lemma_nothing_after_release(
    relay: RelayView,
    events: Seq<EventView>,
    ended: int,
    later: int,
)
    requires
        0 <= ended < later < events.len(),
        ends_stream(events[ended]),
    ensures
        !state_after(relay, events).attached,
        actions_over(relay, events)[later] == ActionView::Nothing,
{
    lemma_attached_while_output(relay, events);
    lemma_attached_while_output(relay, events.take(later));
    assert(events.take(later)[ended] == events[ended]);
    lemma_actions_index(relay, events, later);
}

/// Over any run of events, a stream that was attached is released at most
/// once, and exactly once where an event ends it.
pub proof fn lemma_released_once(relay: RelayView, events: Seq<EventView>, i: int, j: int)
    requires
        0 <= i < j < events.len(),
        actions_over(relay, events)[i] is Release,
    ensures
        !(actions_over(relay, events)[j] is Release),
{
    lemma_actions_index(relay, events, i);
    lemma_actions_index(relay, events, j);
    lemma_attached_while_output(relay, events.take(j));
    assert(events.take(j)[i] == events[i]);
}

} // verus!
