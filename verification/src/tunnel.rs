//! The connections of a running forward. The caller accepts connections and
//! moves bytes; the table here keeps track of which connections are open and
//! says, event by event, what the caller has to do. Each connection stands on
//! its own: what happens to one leaves the others and the listener as they are.

use vstd::prelude::*;
use crate::error::{Error, ErrorView};

verus! {

/// The way that bytes travel through a connection.
#[derive(Debug, Clone, Copy, PartialEq, Eq, Structural)]
pub enum Flow {
    /// From the side that connected to the side that is connected to.
    Forth,
    /// The other way.
    Back,
}

/// What happened on a forward.
#[derive(Debug, PartialEq, Eq)]
pub enum TunnelEvent {
    /// The listener accepted a connection and gave it this number.
    Accepted(u64),
    /// Bytes arrived on a connection.
    Received(u64, Flow, Vec<u8>),
    /// One side closed a connection.
    Closed(u64),
    /// A connection failed.
    Failed(u64, String),
    /// The session that carries the forward failed.
    SessionFailed(String),
    /// The caller ended the forward.
    Cancelled,
}

/// The mathematical content of a [`TunnelEvent`].
pub enum TunnelEventView {
    Accepted(u64),
    Received(u64, Flow, Seq<u8>),
    Closed(u64),
    Failed(u64, Seq<char>),
    SessionFailed(Seq<char>),
    Cancelled,
}

impl View for TunnelEvent {
    type V = TunnelEventView;

    open spec fn view(&self) -> TunnelEventView {
        match self {
            TunnelEvent::Accepted(id) => TunnelEventView::Accepted(*id),
            TunnelEvent::Received(id, flow, bytes) => TunnelEventView::Received(
                *id,
                *flow,
                bytes@,
            ),
            TunnelEvent::Closed(id) => TunnelEventView::Closed(*id),
            TunnelEvent::Failed(id, m) => TunnelEventView::Failed(*id, m@),
            TunnelEvent::SessionFailed(m) => TunnelEventView::SessionFailed(m@),
            TunnelEvent::Cancelled => TunnelEventView::Cancelled,
        }
    }
}

impl DeepView for TunnelEvent {
    type V = TunnelEventView;

    open spec fn deep_view(&self) -> TunnelEventView {
        self@
    }
}

/// What the caller has to do after an event.
#[derive(Debug, PartialEq, Eq)]
pub enum TunnelAction {
    /// Open the onward connection for the accepted connection of this number.
    Connect(u64),
    /// Pass the bytes on through the connection, unchanged.
    Send(u64, Flow, Vec<u8>),
    /// Close both ends of the connection; where an error is given, report it.
    Close(u64, Option<Error>),
    /// Stop listening and close these connections; where an error is given,
    /// report it.
    TearDown(Vec<u64>, Option<Error>),
    /// Nothing.
    Nothing,
}

/// The mathematical content of a [`TunnelAction`].
pub enum TunnelActionView {
    Connect(u64),
    Send(u64, Flow, Seq<u8>),
    Close(u64, Option<ErrorView>),
    TearDown(Seq<u64>, Option<ErrorView>),
    Nothing,
}

/// The view of an error that may be absent.
pub open spec fn error_view(error: Option<Error>) -> Option<ErrorView> {
    match error {
        Some(e) => Some(e@),
        None => None,
    }
}

impl View for TunnelAction {
    type V = TunnelActionView;

    open spec fn view(&self) -> TunnelActionView {
        match self {
            TunnelAction::Connect(id) => TunnelActionView::Connect(*id),
            TunnelAction::Send(id, flow, bytes) => TunnelActionView::Send(*id, *flow, bytes@),
            TunnelAction::Close(id, e) => TunnelActionView::Close(*id, error_view(*e)),
            TunnelAction::TearDown(ids, e) => TunnelActionView::TearDown(ids@, error_view(*e)),
            TunnelAction::Nothing => TunnelActionView::Nothing,
        }
    }
}

impl DeepView for TunnelAction {
    type V = TunnelActionView;

    open spec fn deep_view(&self) -> TunnelActionView {
        self@
    }
}

/// The state of a forward as a value: whether it still listens, and the
/// numbers of its open connections in the order in which they were accepted.
pub struct ForwarderView {
    pub listening: bool,
    pub connections: Seq<u64>,
}

impl ForwarderView {
    /// No connection is listed twice, and a forward that has stopped holds none.
    pub open spec fn wf(self) -> bool {
        &&& self.connections.no_duplicates()
        &&& !self.listening ==> self.connections.len() == 0
    }

    /// Whether the connection of this number is open.
    pub open spec fn is_open(self, id: u64) -> bool {
        self.connections.contains(id)
    }
}

/// True of every connection but `id`.
pub open spec fn other_than(id: u64) -> spec_fn(u64) -> bool {
    |c: u64| c != id
}

/// `connections` without the connection `id`.
pub open spec fn without(connections: Seq<u64>, id: u64) -> Seq<u64> {
    connections.filter(other_than(id))
}

/// The state of a forward and the caller's action after `event`.
pub open spec fn next(state: ForwarderView, event: TunnelEventView) -> (
    ForwarderView,
    TunnelActionView,
) {
    let stopped = ForwarderView { listening: false, connections: Seq::empty() };
    if !state.listening {
        (state, TunnelActionView::Nothing)
    } else {
        match event {
            TunnelEventView::Accepted(id) => if state.is_open(id) {
                (state, TunnelActionView::Nothing)
            } else {
                (
                    ForwarderView { listening: true, connections: state.connections.push(id) },
                    TunnelActionView::Connect(id),
                )
            },
            TunnelEventView::Received(id, flow, bytes) => if state.is_open(id) {
                (state, TunnelActionView::Send(id, flow, bytes))
            } else {
                (state, TunnelActionView::Nothing)
            },
            TunnelEventView::Closed(id) => if state.is_open(id) {
                (
                    ForwarderView {
                        listening: true,
                        connections: without(state.connections, id),
                    },
                    TunnelActionView::Close(id, None),
                )
            } else {
                (state, TunnelActionView::Nothing)
            },
            TunnelEventView::Failed(id, message) => if state.is_open(id) {
                (
                    ForwarderView {
                        listening: true,
                        connections: without(state.connections, id),
                    },
                    TunnelActionView::Close(id, Some(ErrorView::TunnelError(message))),
                )
            } else {
                (state, TunnelActionView::Nothing)
            },
            TunnelEventView::SessionFailed(message) => (
                stopped,
                TunnelActionView::TearDown(
                    state.connections,
                    Some(ErrorView::TunnelError(message)),
                ),
            ),
            TunnelEventView::Cancelled => (
                stopped,
                TunnelActionView::TearDown(state.connections, None),
            ),
        }
    }
}

/// The state of a forward after a run of events.
pub open spec fn state_after(state: ForwarderView, events: Seq<TunnelEventView>) -> ForwarderView
    decreases events.len(),
{
    if events.len() == 0 {
        state
    } else {
        next(state_after(state, events.drop_last()), events.last()).0
    }
}

/// The caller's actions over a run of events, one for each event, in order.
pub open spec fn actions_over(state: ForwarderView, events: Seq<TunnelEventView>) -> Seq<
    TunnelActionView,
>
    decreases events.len(),
{
    if events.len() == 0 {
        Seq::empty()
    } else {
        actions_over(state, events.drop_last()).push(
            next(state_after(state, events.drop_last()), events.last()).1,
        )
    }
}

/// True when the event takes the connection `id` out of the table or ends the
/// forward.
pub open spec fn ends_connection(event: TunnelEventView, id: u64) -> bool {
    match event {
        TunnelEventView::Closed(gone) => gone == id,
        TunnelEventView::Failed(gone, _) => gone == id,
        TunnelEventView::SessionFailed(_) => true,
        TunnelEventView::Cancelled => true,
        _ => false,
    }
}

/// Removing one connection keeps every other one, in the same order, and
/// keeps the list free of duplicates.
pub proof fn lemma_without(connections: Seq<u64>, id: u64)
    requires
        connections.no_duplicates(),
    ensures
        without(connections, id).no_duplicates(),
        !without(connections, id).contains(id),
        forall|other: u64|
            other != id ==> (#[trigger] without(connections, id).contains(other)
                <==> connections.contains(other)),
        connections.contains(id) ==> without(connections, id).len() == connections.len() - 1,
        !connections.contains(id) ==> without(connections, id) == connections,
    decreases connections.len(),
{
    reveal(Seq::filter);
    if connections.len() > 0 {
        let front = connections.drop_last();
        let last = connections.last();
        assert(front.no_duplicates()) by {
            assert forall|i: int, j: int| 0 <= i < front.len() && 0 <= j < front.len() && i
                != j implies front[i] != front[j] by {
                assert(front[i] == connections[i]);
                assert(front[j] == connections[j]);
            }
        }
        lemma_without(front, id);
        assert(!front.contains(last)) by {
            if front.contains(last) {
                let k = choose|k: int| 0 <= k < front.len() && front[k] == last;
                assert(connections[k] == connections[connections.len() - 1]);
            }
        }
        let rest = without(front, id);
        assert forall|other: u64| other != id implies (#[trigger] without(
            connections,
            id,
        ).contains(other) <==> connections.contains(other)) by {
            if connections.contains(other) {
                let k = choose|k: int| 0 <= k < connections.len() && connections[k] == other;
                if k < front.len() {
                    assert(front[k] == other);
                    assert(front.contains(other));
                    assert(rest.contains(other));
                    let m = choose|m: int| 0 <= m < rest.len() && rest[m] == other;
                    if last != id {
                        assert(rest.push(last)[m] == other);
                    }
                } else {
                    assert(last == other);
                    assert(rest.push(last)[rest.len() as int] == other);
                }
            }
            if without(connections, id).contains(other) {
                let m = choose|m: int|
                    0 <= m < without(connections, id).len() && without(connections, id)[m]
                        == other;
                if last != id && m == rest.len() {
                    assert(connections[connections.len() - 1] == other);
                } else {
                    assert(rest[m] == other);
                    assert(rest.contains(other));
                    assert(front.contains(other));
                    let k = choose|k: int| 0 <= k < front.len() && front[k] == other;
                    assert(connections[k] == other);
                }
            }
        }
        if last != id {
            assert(without(connections, id) == rest.push(last));
            assert(!rest.contains(last));
            assert forall|i: int, j: int|
                0 <= i < rest.push(last).len() && 0 <= j < rest.push(last).len() && i
                    != j implies rest.push(last)[i] != rest.push(last)[j] by {
                if i < rest.len() && j < rest.len() {
                } else if i < rest.len() {
                    assert(rest.contains(rest[i]));
                } else if j < rest.len() {
                    assert(rest.contains(rest[j]));
                }
            }
            if rest.push(last).contains(id) {
                let m = choose|m: int| 0 <= m < rest.push(last).len() && rest.push(last)[m] == id;
                assert(rest[m] == id);
                assert(rest.contains(id));
            }
            if connections.contains(id) {
                let k = choose|k: int| 0 <= k < connections.len() && connections[k] == id;
                assert(front[k] == id);
                assert(front.contains(id));
            } else {
                assert(!front.contains(id)) by {
                    if front.contains(id) {
                        let k = choose|k: int| 0 <= k < front.len() && front[k] == id;
                        assert(connections[k] == id);
                    }
                }
                assert(rest.push(last) =~= connections);
            }
        } else {
            assert(without(connections, id) == rest);
            assert(connections[connections.len() - 1] == id);
            assert(connections.contains(id));
            assert(!front.contains(id));
        }
    } else {
        assert(without(connections, id) =~= connections);
    }
}

/// Every event leaves a well-formed forward well-formed.
pub proof fn lemma_next_wf(state: ForwarderView, event: TunnelEventView)
    requires
        state.wf(),
    ensures
        next(state, event).0.wf(),
{
    if state.listening {
        match event {
            TunnelEventView::Closed(id) => {
                lemma_without(state.connections, id);
            },
            TunnelEventView::Failed(id, _) => {
                lemma_without(state.connections, id);
            },
            _ => {},
        }
    }
}

/// Each accepted connection is opened on its own: the caller is told to
/// connect onward for it, and every connection that was open stays open.
pub proof fn lemma_accept_opens(state: ForwarderView, id: u64)
    requires
        state.wf(),
        state.listening,
        !state.is_open(id),
    ensures
        next(state, TunnelEventView::Accepted(id)).1 == TunnelActionView::Connect(id),
        next(state, TunnelEventView::Accepted(id)).0.listening,
        next(state, TunnelEventView::Accepted(id)).0.is_open(id),
        forall|other: u64|
            state.is_open(other) ==> #[trigger] next(
                state,
                TunnelEventView::Accepted(id),
            ).0.is_open(other),
{
    let grown = state.connections.push(id);
    assert(grown[grown.len() - 1] == id);
    assert forall|other: u64| state.is_open(other) implies grown.contains(other) by {
        let k = choose|k: int| 0 <= k < state.connections.len() && state.connections[k] == other;
        assert(grown[k] == other);
    }
}

/// The bytes of an open connection are passed on through that connection,
/// unchanged and the same way, and the table stays as it is.
pub proof fn lemma_bytes_are_relayed(state: ForwarderView, id: u64, flow: Flow, bytes: Seq<u8>)
    requires
        state.listening,
        state.is_open(id),
    ensures
        next(state, TunnelEventView::Received(id, flow, bytes)) == (
            state,
            TunnelActionView::Send(id, flow, bytes),
        ),
{
}

/// Closing one connection, or losing it to a failure, disturbs no other
/// connection and not the listener: the forward still listens, every other
/// connection is still open, and its bytes are still passed on.
pub proof fn lemma_connections_are_independent(
    state: ForwarderView,
    gone: u64,
    other: u64,
    message: Seq<char>,
    flow: Flow,
    bytes: Seq<u8>,
)
    requires
        state.wf(),
        state.listening,
        state.is_open(other),
        gone != other,
    ensures
        ({
            let after = next(state, TunnelEventView::Closed(gone)).0;
            &&& after.listening
            &&& after.is_open(other)
            &&& !after.is_open(gone)
            &&& next(after, TunnelEventView::Received(other, flow, bytes)).1
                == TunnelActionView::Send(other, flow, bytes)
        }),
        ({
            let after = next(state, TunnelEventView::Failed(gone, message)).0;
            &&& after.listening
            &&& after.is_open(other)
            &&& !after.is_open(gone)
            &&& next(after, TunnelEventView::Received(other, flow, bytes)).1
                == TunnelActionView::Send(other, flow, bytes)
        }),
{
}

/// A failure on a connection is reported for that connection alone.
pub proof fn lemma_failure_is_per_connection(state: ForwarderView, id: u64, message: Seq<char>)
    requires
        state.listening,
        state.is_open(id),
    ensures
        next(state, TunnelEventView::Failed(id, message)).1 == TunnelActionView::Close(
            id,
            Some(ErrorView::TunnelError(message)),
        ),
        next(state, TunnelEventView::Failed(id, message)).0.listening,
{
}

/// A forward stops listening only when the caller ends it or its session
/// fails: no other event, and no lack of events, ends it.
pub proof fn lemma_runs_until_ended(state: ForwarderView, event: TunnelEventView)
    requires
        state.listening,
    ensures
        next(state, event).0.listening <==> !(event is Cancelled || event is SessionFailed),
{
}

/// When the session fails or the caller ends the forward, every open
/// connection is torn down and none is left.
pub proof fn lemma_end_tears_all_down(state: ForwarderView, message: Seq<char>)
    requires
        state.listening,
    ensures
        next(state, TunnelEventView::Cancelled) == (
            ForwarderView { listening: false, connections: Seq::empty() },
            TunnelActionView::TearDown(state.connections, None),
        ),
        next(state, TunnelEventView::SessionFailed(message)) == (
            ForwarderView { listening: false, connections: Seq::empty() },
            TunnelActionView::TearDown(
                state.connections,
                Some(ErrorView::TunnelError(message)),
            ),
        ),
{
}

/// Every run of events leaves a well-formed forward well-formed.
pub proof fn lemma_run_wf(state: ForwarderView, events: Seq<TunnelEventView>)
    requires
        state.wf(),
    ensures
        state_after(state, events).wf(),
    decreases events.len(),
{
    if events.len() > 0 {
        lemma_run_wf(state, events.drop_last());
        lemma_next_wf(state_after(state, events.drop_last()), events.last());
    }
}

/// An open connection lives until it is closed, it fails or the forward
/// ends. Whatever else happens meanwhile, to however many other connections,
/// it stays open and the forward keeps listening.
pub proof fn lemma_connection_outlives_others(
    state: ForwarderView,
    events: Seq<TunnelEventView>,
    id: u64,
)
    requires
        state.wf(),
        state.listening,
        state.is_open(id),
        forall|k: int| 0 <= k < events.len() ==> !ends_connection(#[trigger] events[k], id),
    ensures
        state_after(state, events).listening,
        state_after(state, events).is_open(id),
    decreases events.len(),
{
    if events.len() > 0 {
        let front = events.drop_last();
        lemma_connection_outlives_others(state, front, id);
        lemma_run_wf(state, front);
        let before = state_after(state, front);
        match events.last() {
            TunnelEventView::Accepted(new) if !before.is_open(new) => {
                lemma_accept_opens(before, new);
            },
            _ => {},
        }
    }
}

/// The events of accepting the connections `ids` one after the other.
pub open spec fn accepting(ids: Seq<u64>) -> Seq<TunnelEventView> {
    Seq::new(ids.len(), |k: int| TunnelEventView::Accepted(ids[k]))
}

/// However many connections are accepted one after the other, each under a
/// number of its own, all of them are open at once.
pub proof fn lemma_accepted_connections_are_all_open(state: ForwarderView, ids: Seq<u64>)
    requires
        state.wf(),
        state.listening,
        ids.no_duplicates(),
        forall|k: int| 0 <= k < ids.len() ==> !state.is_open(#[trigger] ids[k]),
    ensures
        state_after(state, accepting(ids)).listening,
        state_after(state, accepting(ids)).connections == state.connections + ids,
        forall|k: int|
            0 <= k < ids.len() ==> state_after(state, accepting(ids)).is_open(#[trigger] ids[k]),
        forall|other: u64|
            state.is_open(other) ==> #[trigger] state_after(state, accepting(ids)).is_open(other),
    decreases ids.len(),
{
    let events = accepting(ids);
    if ids.len() == 0 {
        assert(state.connections + ids =~= state.connections);
    } else {
        let front = ids.drop_last();
        let last = ids.last();
        assert(events.drop_last() =~= accepting(front));
        assert(events.last() == TunnelEventView::Accepted(last));
        assert(front.no_duplicates()) by {
            assert forall|i: int, j: int| 0 <= i < front.len() && 0 <= j < front.len() && i
                != j implies front[i] != front[j] by {
                assert(front[i] == ids[i]);
                assert(front[j] == ids[j]);
            }
        }
        assert forall|k: int| 0 <= k < front.len() implies !state.is_open(
            #[trigger] front[k],
        ) by {
            assert(front[k] == ids[k]);
        }
        lemma_accepted_connections_are_all_open(state, front);
        lemma_run_wf(state, accepting(front));
        let before = state_after(state, accepting(front));
        assert(before.connections == state.connections + front);
        assert(!before.is_open(last)) by {
            if before.connections.contains(last) {
                let k = choose|k: int|
                    0 <= k < before.connections.len() && before.connections[k] == last;
                if k < state.connections.len() {
                    assert(state.connections[k] == last);
                    assert(state.connections.contains(last));
                    assert(ids[ids.len() - 1] == last);
                } else {
                    assert(front[k - state.connections.len()] == last);
                    assert(ids[k - state.connections.len()] == ids[ids.len() - 1]);
                }
            }
        }
        lemma_accept_opens(before, last);
        let after = state_after(state, events);
        assert(after.connections == before.connections.push(last));
        assert(after.connections =~= state.connections + ids);
        assert forall|k: int| 0 <= k < ids.len() implies after.is_open(#[trigger] ids[k]) by {
            assert(after.connections[state.connections.len() + k] == ids[k]);
        }
        assert forall|other: u64| state.is_open(other) implies #[trigger] after.is_open(
            other,
        ) by {
            let k = choose|k: int|
                0 <= k < state.connections.len() && state.connections[k] == other;
            assert(after.connections[k] == other);
        }
    }
}

/// The connections of one running forward.
#[derive(Debug, PartialEq, Eq)]
pub struct Forwarder {
    listening: bool,
    connections: Vec<u64>,
}

impl View for Forwarder {
    type V = ForwarderView;

    closed spec fn view(&self) -> ForwarderView {
        ForwarderView { listening: self.listening, connections: self.connections@ }
    }
}

impl Forwarder {
    /// A forward that listens and has no connection yet.
    pub fn listen() -> (forwarder: Forwarder)
        ensures
            forwarder@ == (ForwarderView { listening: true, connections: Seq::empty() }),
            forwarder@.wf(),
    {
        Forwarder { listening: true, connections: Vec::new() }
    }

    /// Whether the forward still listens.
    pub fn is_listening(&self) -> (listening: bool)
        ensures
            listening == self@.listening,
    {
        self.listening
    }

    /// How many connections are open.
    pub fn open_connections(&self) -> (count: usize)
        ensures
            count == self@.connections.len(),
    {
        self.connections.len()
    }

    /// Whether the connection of this number is open.
    pub fn is_open(&self, id: u64) -> (open: bool)
        ensures
            open == self@.is_open(id),
    {
        let mut i: usize = 0;
        while i < self.connections.len()
            invariant
                i <= self.connections.len(),
                forall|k: int| 0 <= k < i ==> self.connections[k] != id,
            decreases self.connections.len() - i,
        {
            if self.connections[i] == id {
                return true;
            }
            i = i + 1;
        }
        false
    }

    /// The open connections but for the one of this number.
    fn others(&self, id: u64) -> (kept: Vec<u64>)
        ensures
            kept@ == without(self@.connections, id),
    {
        let mut kept: Vec<u64> = Vec::new();
        let mut i: usize = 0;
        while i < self.connections.len()
            invariant
                i <= self.connections.len(),
                kept@ == self.connections@.take(i as int).filter(other_than(id)),
            decreases self.connections.len() - i,
        {
            proof {
                reveal(Seq::filter);
                assert(self.connections@.take(i + 1).drop_last() =~= self.connections@.take(
                    i as int,
                ));
            }
            if self.connections[i] != id {
                kept.push(self.connections[i]);
            }
            i = i + 1;
        }
        assert(self.connections@.take(self.connections.len() as int) =~= self.connections@);
        kept
    }

    /// Takes one event and says what the caller has to do. A forward that has
    /// stopped asks for nothing. While it listens: an accepted connection is
    /// opened, bytes of an open connection are passed on, a closed or failed
    /// connection is taken out of the table, and a failed session or a
    /// cancellation stops the forward and tears every connection down.
    pub fn step(&mut self, event: TunnelEvent) -> (action: TunnelAction)
        ensures
            (final(self)@, action@) == next(old(self)@, event@),
            old(self)@.wf() ==> final(self)@.wf(),
    {
        proof {
            if self@.wf() {
                lemma_next_wf(self@, event@);
            }
        }
        if !self.listening {
            return TunnelAction::Nothing;
        }
        match event {
            TunnelEvent::Accepted(id) => {
                if self.is_open(id) {
                    TunnelAction::Nothing
                } else {
                    self.connections.push(id);
                    TunnelAction::Connect(id)
                }
            },
            TunnelEvent::Received(id, flow, bytes) => {
                if self.is_open(id) {
                    TunnelAction::Send(id, flow, bytes)
                } else {
                    TunnelAction::Nothing
                }
            },
            TunnelEvent::Closed(id) => {
                if self.is_open(id) {
                    self.connections = self.others(id);
                    TunnelAction::Close(id, None)
                } else {
                    TunnelAction::Nothing
                }
            },
            TunnelEvent::Failed(id, message) => {
                if self.is_open(id) {
                    self.connections = self.others(id);
                    TunnelAction::Close(id, Some(Error::TunnelError(message)))
                } else {
                    TunnelAction::Nothing
                }
            },
            TunnelEvent::SessionFailed(message) => {
                let mut open: Vec<u64> = Vec::new();
                std::mem::swap(&mut open, &mut self.connections);
                self.listening = false;
                TunnelAction::TearDown(open, Some(Error::TunnelError(message)))
            },
            TunnelEvent::Cancelled => {
                let mut open: Vec<u64> = Vec::new();
                std::mem::swap(&mut open, &mut self.connections);
                self.listening = false;
                TunnelAction::TearDown(open, None)
            },
        }
    }
}

impl Forwarder {
    /// Takes a run of events in the order in which they arrived and says,
    /// in the same order, what the caller has to do for each.
    pub fn run(&mut self, events: Vec<TunnelEvent>) -> (actions: Vec<TunnelAction>)
        ensures
            final(self)@ == state_after(old(self)@, events.deep_view()),
            actions.deep_view() == actions_over(old(self)@, events.deep_view()),
            old(self)@.wf() ==> final(self)@.wf(),
    {
        let ghost start = self@;
        let ghost arrived = events@;
        let ghost all = events.deep_view();
        let mut actions: Vec<TunnelAction> = Vec::new();
        proof {
            if start.wf() {
                lemma_run_wf(start, all);
            }
        }
        for event in it: events.into_iter()
            invariant
                it.seq() == arrived,
                all.len() == arrived.len(),
                forall|k: int| 0 <= k < arrived.len() ==> all[k] == (#[trigger] arrived[k])@,
                self@ == state_after(start, all.take(it.index() as int)),
                actions.deep_view() == actions_over(start, all.take(it.index() as int)),
        {
            let ghost done = it.index() as int;
            proof {
                assert(all.take(done + 1).drop_last() =~= all.take(done));
            }
            let action = self.step(event);
            actions.push(action);
        }
        proof {
            assert(all.take(all.len() as int) =~= all);
        }
        actions
    }
}

} // verus!
