//! The decisions of the log worker: a state machine that numbers the messages it receives,
//! queues them, connects to the viewer (or opens the log file) when needed, sends the client
//! info first on each new connection, then writes the queued messages in order.
//!
//! The worker performs no I/O itself. Each call of [`LogWorker::step`] hands it the outcome of
//! the previous [`Action`] as an [`Event`] and returns the next action to perform. The worker
//! owns the write stream `W` and lends it out with the actions that write to it; `S` is the
//! signal that a message's sender waits on until the message is flushed.

use vstd::prelude::*;

use crate::connection::{BonjourServiceType, BonjourServiceTypeView, ConnectionMode, ConnectionModeView};
use crate::error::Error;
use crate::log_message::{is_message_frame, lemma_set_sequence_number, sequence_number, LogMessage, SEQUENCE_NB_OFFSET};
use crate::wire::be32;

verus! {

/// Connection progress of the worker.
#[derive(Debug, Clone, Copy, PartialEq, Eq, Structural)]
pub enum ConnectionState {
    Disconnected,
    /// Waiting for the network manager to find a Bonjour service.
    Connecting,
    /// A stream is open; the client info has not been queued yet.
    Connected,
    /// A stream is open and the client info is queued ahead of the messages.
    Ready,
}

/// Messages the worker receives.
#[derive(Debug)]
pub enum Message<S> {
    /// The network manager found a Bonjour service at this host, to reach with or without SSL.
    ConnectToBonjourService(String, bool),
    /// A log message, with the signal its sender waits on when it asked for a flush.
    AddLog(LogMessage, Option<S>),
    /// Switch to another connection mode.
    SwitchConnection(ConnectionMode),
}

/// What the worker goes on with once a connection attempt has completed.
#[derive(Debug, Clone, Copy, PartialEq, Eq, Structural)]
pub enum AfterSetup {
    /// Signal that the worker is ready, then wait for messages.
    Startup,
    /// Wait for messages (after a connection mode switch).
    Switch,
    /// Go on processing the queue (the connection was set up for it).
    Process,
    /// Wait for messages (after a failed write).
    Reconnect,
    /// Process the queue from the start (a Bonjour service was connected).
    BonjourConnected,
}

/// What the worker waits for.
#[derive(Debug)]
pub enum Phase<S> {
    /// Not started.
    Start,
    /// A file being opened or a host being connected to.
    Opening(AfterSetup),
    /// A Bonjour browse request being sent to the network manager.
    Browsing(AfterSetup),
    /// The readiness signal being raised.
    SignalingReady,
    /// The next message.
    Receiving,
    /// A client info message being built.
    BuildingClientInfo,
    /// The front message of the queue being written.
    Writing,
    /// The stream being flushed for a message whose sender waits on this signal.
    Flushing(S),
    /// A waiting sender being signaled.
    Signaling,
    /// The stream being flushed and closed.
    Closing,
    /// Stopped.
    Finished,
}

/// Outcome of the last action, handed to the worker.
#[derive(Debug)]
pub enum Event<S, W> {
    /// Start the worker.
    Start,
    /// Outcome of `OpenFile` or `ConnectRemote`.
    Opened(Result<W, Error>),
    /// Outcome of `Browse`: whether the request reached the network manager.
    BrowseRequested(bool),
    /// The readiness signal was raised.
    ReadySignaled,
    /// The next message, or `None` when the channel is closed.
    Received(Option<Message<S>>),
    /// The client info message that `BuildClientInfo` asked for.
    ClientInfo(LogMessage),
    /// Outcome of `Write`, with the stream handed back.
    Written(W, Result<(), std::io::Error>),
    /// Outcome of `Flush`, with the stream handed back.
    Flushed(W, Result<(), std::io::Error>),
    /// The signal of `Signal` was raised.
    Signaled,
    /// Outcome of `Close`.
    Closed(Result<(), std::io::Error>),
}

/// Next action for the worker's driver.
#[derive(Debug)]
pub enum Action<S, W> {
    /// Create (or truncate) the file at this path and open a buffered stream to it.
    OpenFile(String),
    /// Resolve the host (at the port, when given; else the host names its port) and connect to
    /// it, with SSL or not.
    ConnectRemote(String, Option<u16>, bool),
    /// Ask the network manager to browse for this Bonjour service.
    Browse(BonjourServiceType),
    /// Raise the signal that the worker is ready.
    SignalReady,
    /// Wait for the next message.
    Receive,
    /// Build a client info message.
    BuildClientInfo,
    /// Write these bytes to the stream.
    Write(W, Vec<u8>),
    /// Flush the stream.
    Flush(W),
    /// Raise this signal.
    Signal(S),
    /// Flush the stream, then close it.
    Close(W),
    /// Stop, with this outcome.
    Finish(Result<(), Error>),
}

/// The value of a [`Message`].
pub enum MessageView<S> {
    ConnectToBonjourService(Seq<char>, bool),
    AddLog(Seq<u8>, Option<S>),
    SwitchConnection(ConnectionModeView),
}

/// The value of an [`Event`].
pub enum EventView<S, W> {
    Start,
    Opened(Result<W, Error>),
    BrowseRequested(bool),
    ReadySignaled,
    Received(Option<MessageView<S>>),
    ClientInfo(Seq<u8>),
    Written(W, bool),
    Flushed(W, Result<(), std::io::Error>),
    Signaled,
    Closed(Result<(), std::io::Error>),
}

/// The value of an [`Action`].
pub enum ActionView<S, W> {
    OpenFile(Seq<char>),
    ConnectRemote(Seq<char>, Option<u16>, bool),
    Browse(BonjourServiceTypeView),
    SignalReady,
    Receive,
    BuildClientInfo,
    Write(W, Seq<u8>),
    Flush(W),
    Signal(S),
    Close(W),
    Finish(Result<(), Error>),
}

impl<S> View for Message<S> {
    type V = MessageView<S>;

    open spec fn view(&self) -> MessageView<S> {
        match self {
            Message::ConnectToBonjourService(host, ssl) => MessageView::ConnectToBonjourService(
                host@,
                *ssl,
            ),
            Message::AddLog(m, s) => MessageView::AddLog(m@, *s),
            Message::SwitchConnection(mode) => MessageView::SwitchConnection(mode@),
        }
    }
}

impl<S, W> View for Event<S, W> {
    type V = EventView<S, W>;

    open spec fn view(&self) -> EventView<S, W> {
        match self {
            Event::Start => EventView::Start,
            Event::Opened(r) => EventView::Opened(*r),
            Event::BrowseRequested(ok) => EventView::BrowseRequested(*ok),
            Event::ReadySignaled => EventView::ReadySignaled,
            Event::Received(m) => EventView::Received(
                match m {
                    Some(msg) => Some(msg@),
                    None => None,
                },
            ),
            Event::ClientInfo(m) => EventView::ClientInfo(m@),
            Event::Written(w, r) => EventView::Written(*w, r is Ok),
            Event::Flushed(w, r) => EventView::Flushed(*w, *r),
            Event::Signaled => EventView::Signaled,
            Event::Closed(r) => EventView::Closed(*r),
        }
    }
}

impl<S, W> View for Action<S, W> {
    type V = ActionView<S, W>;

    open spec fn view(&self) -> ActionView<S, W> {
        match self {
            Action::OpenFile(p) => ActionView::OpenFile(p@),
            Action::ConnectRemote(h, port, ssl) => ActionView::ConnectRemote(h@, *port, *ssl),
            Action::Browse(service) => ActionView::Browse(service@),
            Action::SignalReady => ActionView::SignalReady,
            Action::Receive => ActionView::Receive,
            Action::BuildClientInfo => ActionView::BuildClientInfo,
            Action::Write(w, b) => ActionView::Write(*w, b@),
            Action::Flush(w) => ActionView::Flush(*w),
            Action::Signal(s) => ActionView::Signal(*s),
            Action::Close(w) => ActionView::Close(*w),
            Action::Finish(r) => ActionView::Finish(*r),
        }
    }
}

#[verifier::ext_equal]
/// The value of a [`LogWorker`]: its next sequence number, connection state and mode, its
/// stream (absent while lent out), its queue of messages (bytes and flush signal) and what it
/// waits for.
pub struct WorkerView<S, W> {
    pub sequence: u32,
    pub state: ConnectionState,
    pub mode: ConnectionModeView,
    pub stream: Option<W>,
    pub queue: Seq<(Seq<u8>, Option<S>)>,
    pub phase: Phase<S>,
}

/// A message frame with its sequence number replaced by `n`.
pub open spec fn with_sequence(bytes: Seq<u8>, n: u32) -> Seq<u8> {
    bytes.take(SEQUENCE_NB_OFFSET as int) + be32(n) + bytes.skip(SEQUENCE_NB_OFFSET + 4)
}

/// Whether the worker's stream is lent out to the driver.
pub open spec fn lends_stream<S>(phase: Phase<S>) -> bool {
    phase is Writing || phase is Flushing || phase is Closing
}

impl<S, W> WorkerView<S, W> {
    /// The worker's invariant: sequence numbers start at 1; while the stream is lent out for
    /// writing the worker is ready with a message at the front of the queue; otherwise a
    /// stream is open exactly when the worker is connected or ready.
    pub open spec fn wf(self) -> bool {
        &&& self.sequence >= 1
        &&& (self.phase is Writing || self.phase is Flushing || self.phase is Signaling)
            ==> self.state == ConnectionState::Ready
        &&& self.phase is BuildingClientInfo ==> self.state == ConnectionState::Connected
        &&& self.phase is Browsing ==> self.state == ConnectionState::Disconnected
        &&& self.phase is Writing ==> self.queue.len() > 0
        &&& self.phase is Closing ==> self.state == ConnectionState::Disconnected
        &&& lends_stream(self.phase) ==> self.stream is None
        &&& !lends_stream(self.phase) ==> (self.stream is Some <==> (self.state
            == ConnectionState::Connected || self.state == ConnectionState::Ready))
    }

    /// The same worker waiting for something else.
    pub open spec fn with_phase(self, phase: Phase<S>) -> Self {
        WorkerView { phase, ..self }
    }

    /// Waits for the next message.
    pub open spec fn receive(self) -> (Self, ActionView<S, W>) {
        (self.with_phase(Phase::Receiving), ActionView::Receive)
    }

    /// Raises the readiness signal.
    pub open spec fn signal_ready(self) -> (Self, ActionView<S, W>) {
        (self.with_phase(Phase::SignalingReady), ActionView::SignalReady)
    }

    /// The I/O that setting up the connection takes, if any: a file is always (re)opened; a
    /// host is connected to, or the Bonjour service (default or custom) browsed for, only when
    /// disconnected.
    pub open spec fn setup_request(self) -> Option<ActionView<S, W>> {
        match self.mode {
            ConnectionModeView::File(path) => Some(ActionView::OpenFile(path)),
            ConnectionModeView::Tcp(host, port, ssl) => if self.state
                == ConnectionState::Disconnected {
                Some(ActionView::ConnectRemote(host, Some(port), ssl))
            } else {
                None
            },
            ConnectionModeView::Bonjour(service) => if self.state
                == ConnectionState::Disconnected {
                Some(ActionView::Browse(service))
            } else {
                None
            },
        }
    }

    /// Sets up the connection, then goes on with `cont`; `otherwise` is what happens when
    /// there is nothing to set up.
    pub open spec fn setup_then(self, cont: AfterSetup, otherwise: (Self, ActionView<S, W>)) -> (
        Self,
        ActionView<S, W>,
    ) {
        match self.setup_request() {
            Some(ActionView::Browse(service)) => (
                self.with_phase(Phase::Browsing(cont)),
                ActionView::Browse(service),
            ),
            Some(request) => (self.with_phase(Phase::Opening(cont)), request),
            None => otherwise,
        }
    }

    /// Writes the front message, or waits for the next message when the queue is empty.
    pub open spec fn write_next(self) -> (Self, ActionView<S, W>) {
        if self.queue.len() == 0 {
            self.receive()
        } else {
            (
                WorkerView { stream: None, phase: Phase::Writing, ..self },
                ActionView::Write(self.stream->Some_0, self.queue[0].0),
            )
        }
    }

    /// Processing the queue once the connection is set up: build the client info when just
    /// connected, write when ready, else wait for the next message.
    pub open spec fn after_setup(self) -> (Self, ActionView<S, W>) {
        if self.state == ConnectionState::Connected {
            (self.with_phase(Phase::BuildingClientInfo), ActionView::BuildClientInfo)
        } else if self.state == ConnectionState::Ready {
            self.write_next()
        } else {
            self.receive()
        }
    }

    /// Processing the queue: nothing when it is empty; else set up the connection first when
    /// disconnected.
    pub open spec fn process(self) -> (Self, ActionView<S, W>) {
        if self.queue.len() == 0 {
            self.receive()
        } else if self.state == ConnectionState::Disconnected {
            self.setup_then(AfterSetup::Process, self.after_setup())
        } else {
            self.after_setup()
        }
    }

    /// Going on with `cont` once a connection attempt completed.
    pub open spec fn resume(self, cont: AfterSetup) -> (Self, ActionView<S, W>) {
        match cont {
            AfterSetup::Startup => self.signal_ready(),
            AfterSetup::Switch => self.receive(),
            AfterSetup::Reconnect => self.receive(),
            AfterSetup::Process => self.after_setup(),
            AfterSetup::BonjourConnected => self.process(),
        }
    }

    /// The worker after a disconnect: no stream, disconnected, sequence numbers restart at 1.
    pub open spec fn disconnected(self) -> Self {
        WorkerView { stream: None, state: ConnectionState::Disconnected, sequence: 1, ..self }
    }

    /// Stops with `outcome`; a stopped worker is dropped, which disconnects it.
    pub open spec fn finish(self, outcome: Result<(), Error>) -> (Self, ActionView<S, W>) {
        (self.disconnected().with_phase(Phase::Finished), ActionView::Finish(outcome))
    }

    /// Whether the worker, waiting as it does, takes `event`.
    pub open spec fn accepts(self, event: EventView<S, W>) -> bool {
        match self.phase {
            Phase::Start => event is Start,
            Phase::Opening(_) => event is Opened,
            Phase::Browsing(_) => event is BrowseRequested,
            Phase::SignalingReady => event is ReadySignaled,
            Phase::Receiving => event is Received && (event matches EventView::Received(
                Some(MessageView::AddLog(_, _)),
            ) ==> self.sequence < u32::MAX),
            Phase::BuildingClientInfo => event is ClientInfo,
            Phase::Writing => event is Written,
            Phase::Flushing(_) => event is Flushed,
            Phase::Signaling => event is Signaled,
            Phase::Closing => event is Closed,
            Phase::Finished => false,
        }
    }

    /// The worker's next value and action after `event`.
    pub open spec fn next(self, event: EventView<S, W>) -> (Self, ActionView<S, W>) {
        match event {
            EventView::Start => self.setup_then(AfterSetup::Startup, self.signal_ready()),
            EventView::Opened(Ok(w)) => match self.phase {
                Phase::Opening(cont) => WorkerView {
                    stream: Some(w),
                    state: ConnectionState::Connected,
                    ..self
                }.resume(cont),
                _ => self.finish(Ok(())),
            },
            EventView::Opened(Err(e)) => self.finish(Err(e)),
            EventView::BrowseRequested(ok) => if ok {
                match self.phase {
                    Phase::Browsing(cont) => WorkerView {
                        state: ConnectionState::Connecting,
                        ..self
                    }.resume(cont),
                    _ => self.finish(Ok(())),
                }
            } else {
                self.finish(Err(Error::ChannelNotAvailable))
            },
            EventView::ReadySignaled => self.receive(),
            EventView::Received(None) => match self.stream {
                Some(w) => (
                    WorkerView {
                        stream: None,
                        state: ConnectionState::Disconnected,
                        phase: Phase::Closing,
                        ..self
                    },
                    ActionView::Close(w),
                ),
                None => WorkerView { state: ConnectionState::Disconnected, ..self }.finish(
                    Ok(()),
                ),
            },
            EventView::Received(Some(MessageView::AddLog(bytes, signal))) => WorkerView {
                sequence: (self.sequence + 1) as u32,
                queue: self.queue.push((with_sequence(bytes, self.sequence), signal)),
                ..self
            }.process(),
            EventView::Received(Some(MessageView::SwitchConnection(mode))) => {
                let w = if self.stream is Some {
                    self.disconnected()
                } else {
                    self
                };
                let w = WorkerView { mode, ..w };
                w.setup_then(AfterSetup::Switch, w.receive())
            },
            EventView::Received(Some(MessageView::ConnectToBonjourService(host, ssl))) => (
                self.with_phase(Phase::Opening(AfterSetup::BonjourConnected)),
                ActionView::ConnectRemote(host, None, ssl),
            ),
            EventView::ClientInfo(bytes) => WorkerView {
                queue: seq![(bytes, None)] + self.queue,
                state: ConnectionState::Ready,
                ..self
            }.write_next(),
            EventView::Written(w, ok) => if ok {
                let rest = WorkerView { queue: self.queue.drop_first(), ..self };
                match self.queue[0].1 {
                    Some(signal) => (rest.with_phase(Phase::Flushing(signal)), ActionView::Flush(w)),
                    None => WorkerView { stream: Some(w), ..rest }.write_next(),
                }
            } else {
                let d = self.disconnected();
                d.setup_then(AfterSetup::Reconnect, d.receive())
            },
            EventView::Flushed(w, outcome) => match outcome {
                Ok(()) => match self.phase {
                    Phase::Flushing(signal) => (
                        WorkerView { stream: Some(w), phase: Phase::Signaling, ..self },
                        ActionView::Signal(signal),
                    ),
                    _ => self.finish(Ok(())),
                },
                Err(e) => self.finish(Err(Error::IO(e))),
            },
            EventView::Signaled => self.write_next(),
            EventView::Closed(outcome) => match outcome {
                Ok(()) => self.finish(Ok(())),
                Err(e) => self.finish(Err(Error::IO(e))),
            },
        }
    }
}

/// Every step keeps the worker's invariant.
pub proof fn lemma_next_preserves_wf<S, W>(v: WorkerView<S, W>, e: EventView<S, W>)
    requires
        v.wf(),
        v.accepts(e),
    ensures
        v.next(e).0.wf(),
{
}

/// A received log message is queued last, numbered with the worker's next sequence number,
/// and the next number is one more: between two disconnects the numbers strictly increase.
pub proof fn lemma_add_log_numbering<S, W>(v: WorkerView<S, W>, bytes: Seq<u8>, signal: Option<S>)
    requires
        v.wf(),
        v.phase is Receiving,
        v.sequence < u32::MAX,
        is_message_frame(bytes),
    ensures
        ({
            let after = v.next(EventView::Received(Some(MessageView::AddLog(bytes, signal)))).0;
            &&& after.sequence == v.sequence + 1
            &&& after.queue.len() == v.queue.len() + 1
            &&& after.queue.drop_last() == v.queue
            &&& after.queue.last().1 == signal
            &&& sequence_number(after.queue.last().0) == v.sequence
            &&& is_message_frame(after.queue.last().0)
        }),
{
    lemma_set_sequence_number(bytes, v.sequence);
    let after = v.next(EventView::Received(Some(MessageView::AddLog(bytes, signal)))).0;
    assert(after.queue.drop_last() =~= v.queue);
}

/// A disconnect restarts the numbering: after a failed write, the next message is numbered 1,
/// and the message whose write failed stays at the front of the queue.
pub proof fn lemma_failed_write_keeps_message<S, W>(v: WorkerView<S, W>, w: W)
    requires
        v.wf(),
        v.phase is Writing,
    ensures
        ({
            let after = v.next(EventView::Written(w, false)).0;
            &&& after.queue == v.queue
            &&& after.sequence == 1
            &&& after.state == ConnectionState::Disconnected
            &&& after.stream is None
        }),
{
}

/// A successful write removes exactly the front message of the queue; the next write, if any,
/// is of the message that followed it.
pub proof fn lemma_written_in_order<S, W>(v: WorkerView<S, W>, w: W)
    requires
        v.wf(),
        v.phase is Writing,
    ensures
        ({
            let (after, action) = v.next(EventView::Written(w, true));
            &&& after.queue == v.queue.drop_first()
            &&& action matches ActionView::Write(_, bytes) ==> bytes == v.queue[1].0
        }),
{
}

/// On a new connection the client info goes to the front of the queue and is written first.
pub proof fn lemma_client_info_first<S, W>(v: WorkerView<S, W>, info: Seq<u8>)
    requires
        v.wf(),
        v.phase is BuildingClientInfo,
    ensures
        ({
            let (after, action) = v.next(EventView::ClientInfo(info));
            &&& after.queue == seq![(info, None::<S>)] + v.queue
            &&& after.state == ConnectionState::Ready
            &&& action matches ActionView::Write(_, bytes) && bytes == info
        }),
{
}

/// When the network manager reports a Bonjour service found at `host`, reached with SSL or not,
/// the worker connects to that host, at the port the host names, with SSL exactly as reported;
/// it keeps its queue and numbering and, once connected, processes the queue.
pub proof fn lemma_connects_to_found_service<S, W>(v: WorkerView<S, W>, host: Seq<char>, ssl: bool)
    requires
        v.wf(),
        v.accepts(EventView::Received(Some(MessageView::ConnectToBonjourService(host, ssl)))),
    ensures
        ({
            let (after, action) = v.next(
                EventView::Received(Some(MessageView::ConnectToBonjourService(host, ssl))),
            );
            &&& action == ActionView::<S, W>::ConnectRemote(host, None, ssl)
            &&& action matches ActionView::ConnectRemote(_, _, with_ssl) && with_ssl == ssl
            &&& after.phase == Phase::<S>::Opening(AfterSetup::BonjourConnected)
            &&& after.queue == v.queue
            &&& after.sequence == v.sequence
        }),
{
}

/// The sender of a message that asked for a flush is signaled only once its message was
/// written and the stream flushed.
pub proof fn lemma_signal_after_flush<S, W>(v: WorkerView<S, W>, e: EventView<S, W>, signal: S)
    requires
        v.wf(),
        v.accepts(e),
        v.next(e).1 == ActionView::<S, W>::Signal(signal),
    ensures
        v.phase == Phase::Flushing(signal),
        e matches EventView::Flushed(_, outcome) && outcome is Ok,
{
}

/// Whether `e` may end the worker's connection, and with it the numbering: a failed open,
/// browse request, write or flush, a connection switch, the closing of the channel or of the
/// stream.
pub open spec fn may_disconnect<S, W>(e: EventView<S, W>) -> bool {
    match e {
        EventView::Opened(r) => r is Err,
        EventView::BrowseRequested(ok) => !ok,
        EventView::Received(None) => true,
        EventView::Received(Some(MessageView::SwitchConnection(_))) => true,
        EventView::Written(_, ok) => !ok,
        EventView::Flushed(_, r) => r is Err,
        EventView::Closed(_) => true,
        _ => false,
    }
}

/// Whether `e`, when it hands the worker a log message, hands it a message frame.
pub open spec fn carries_frame<S, W>(e: EventView<S, W>) -> bool {
    e matches EventView::Received(Some(MessageView::AddLog(bytes, _))) ==> is_message_frame(bytes)
}

/// The frame that `e` has the worker queue, numbered, if it hands it a log message.
pub open spec fn numbered_by<S, W>(v: WorkerView<S, W>, e: EventView<S, W>) -> Seq<Seq<u8>> {
    match e {
        EventView::Received(Some(MessageView::AddLog(bytes, _))) => seq![
            with_sequence(bytes, v.sequence),
        ],
        _ => Seq::empty(),
    }
}

/// The bytes that `a` writes to the stream, if it is a write.
pub open spec fn written_by<S, W>(a: ActionView<S, W>) -> Seq<Seq<u8>> {
    match a {
        ActionView::Write(_, bytes) => seq![bytes],
        _ => Seq::empty(),
    }
}

/// The bytes of the queued messages, in order.
pub open spec fn queued_bytes<S>(queue: Seq<(Seq<u8>, Option<S>)>) -> Seq<Seq<u8>> {
    queue.map_values(|entry: (Seq<u8>, Option<S>)| entry.0)
}

/// The bytes of the queued messages not written yet: while a write is under way, the front
/// message is being written.
pub open spec fn pending<S, W>(v: WorkerView<S, W>) -> Seq<Seq<u8>> {
    if v.phase is Writing {
        queued_bytes(v.queue).drop_first()
    } else {
        queued_bytes(v.queue)
    }
}

/// Whether the worker, starting from `v`, takes each of `events` in turn.
pub open spec fn accepts_all<S, W>(v: WorkerView<S, W>, events: Seq<EventView<S, W>>) -> bool
    decreases events.len(),
{
    events.len() == 0 || (v.accepts(events[0]) && accepts_all(
        v.next(events[0]).0,
        events.drop_first(),
    ))
}

/// The worker after taking `events` in turn, starting from `v`.
pub open spec fn run<S, W>(v: WorkerView<S, W>, events: Seq<EventView<S, W>>) -> WorkerView<S, W>
    decreases events.len(),
{
    if events.len() == 0 {
        v
    } else {
        run(v.next(events[0]).0, events.drop_first())
    }
}

/// The frames that the log messages among `events` are queued as, numbered, in the order they
/// were received, starting from `v`.
pub open spec fn numbered_frames<S, W>(v: WorkerView<S, W>, events: Seq<EventView<S, W>>) -> Seq<
    Seq<u8>,
>
    decreases events.len(),
{
    if events.len() == 0 {
        Seq::empty()
    } else {
        numbered_by(v, events[0]) + numbered_frames(v.next(events[0]).0, events.drop_first())
    }
}

/// The bytes the worker writes to its stream while taking `events` in turn, starting from `v`.
pub open spec fn written<S, W>(v: WorkerView<S, W>, events: Seq<EventView<S, W>>) -> Seq<Seq<u8>>
    decreases events.len(),
{
    if events.len() == 0 {
        Seq::empty()
    } else {
        written_by(v.next(events[0]).1) + written(v.next(events[0]).0, events.drop_first())
    }
}

/// The client info messages among `events`, in order.
pub open spec fn client_infos<S, W>(events: Seq<EventView<S, W>>) -> Seq<Seq<u8>>
    decreases events.len(),
{
    if events.len() == 0 {
        Seq::empty()
    } else {
        let first = match events[0] {
            EventView::ClientInfo(bytes) => seq![bytes],
            _ => Seq::empty(),
        };
        first + client_infos(events.drop_first())
    }
}

/// One step that keeps the connection: only a log message moves the numbering on; a ready
/// worker stays ready unless a stream is opened; a connected worker writes nothing before the
/// client info, and writes the client info first.
proof fn lemma_step_on_connection<S, W>(v: WorkerView<S, W>, e: EventView<S, W>)
    requires
        v.wf(),
        v.accepts(e),
        !may_disconnect(e),
    ensures
        v.next(e).0.sequence == if e matches EventView::Received(
            Some(MessageView::AddLog(_, _)),
        ) {
            v.sequence + 1
        } else {
            v.sequence as int
        },
        !(e is Opened) && v.state == ConnectionState::Ready ==> v.next(e).0.state
            == ConnectionState::Ready && !(e is ClientInfo),
        !(e is Opened) && v.state == ConnectionState::Connected && !(e is ClientInfo) ==> v.next(
            e,
        ).0.state == ConnectionState::Connected && !(v.next(e).1 is Write),
        e is ClientInfo ==> v.next(e).0.state == ConnectionState::Ready && v.next(e).1 is Write
            && v.next(e).1->Write_1 == e->ClientInfo_0,
        !(e is Opened) && v.state == ConnectionState::Ready ==> written_by(v.next(e).1) + pending(
            v.next(e).0,
        ) == pending(v) + numbered_by(v, e),
        !(e is Opened) && v.state == ConnectionState::Connected && !(e is ClientInfo) ==> pending(
            v.next(e).0,
        ) == pending(v) + numbered_by(v, e),
        e is ClientInfo ==> pending(v.next(e).0) == pending(v),
{
    let (v1, a) = v.next(e);
    match e {
        EventView::Received(Some(MessageView::AddLog(bytes, signal))) => {
            let f = with_sequence(bytes, v.sequence);
            assert(queued_bytes(v.queue.push((f, signal))) =~= queued_bytes(v.queue).push(f));
            if v.state == ConnectionState::Ready && v.queue.len() + 1 > 0 {
                assert(queued_bytes(v1.queue) =~= queued_bytes(v.queue) + seq![f]);
            }
            assert(numbered_by(v, e) == seq![f]);
        },
        EventView::ClientInfo(info) => {
            assert(queued_bytes(seq![(info, None::<S>)] + v.queue) =~= seq![info] + queued_bytes(
                v.queue,
            ));
            assert((seq![info] + queued_bytes(v.queue)).drop_first() =~= queued_bytes(v.queue));
        },
        EventView::Written(w, ok) => {
            assert(queued_bytes(v.queue.drop_first()) =~= queued_bytes(v.queue).drop_first());
        },
        _ => {},
    }
    assert(written_by(a) + pending(v1) =~= written_by(a) + pending(v1));
}

/// Between two disconnects the worker numbers the log messages it receives consecutively, in
/// the order it receives them, from its next sequence number on: the k-th message is queued
/// as a frame numbered n + k, and the next number is n plus the number of messages.
pub proof fn lemma_consecutive_numbering<S, W>(v: WorkerView<S, W>, events: Seq<EventView<S, W>>)
    requires
        v.wf(),
        accepts_all(v, events),
        forall|i: int| 0 <= i < events.len() ==> !may_disconnect(#[trigger] events[i]),
        forall|i: int| 0 <= i < events.len() ==> carries_frame(#[trigger] events[i]),
    ensures
        run(v, events).sequence == v.sequence + numbered_frames(v, events).len(),
        forall|k: int|
            0 <= k < numbered_frames(v, events).len() ==> is_message_frame(
                #[trigger] numbered_frames(v, events)[k],
            ) && sequence_number(numbered_frames(v, events)[k]) == v.sequence + k,
    decreases events.len(),
{
    if events.len() > 0 {
        let e = events[0];
        let v1 = v.next(e).0;
        let rest = events.drop_first();
        assert(!may_disconnect(events[0]) && carries_frame(events[0]));
        lemma_next_preserves_wf(v, e);
        lemma_step_on_connection(v, e);
        assert forall|i: int| 0 <= i < rest.len() implies !may_disconnect(#[trigger] rest[i])
            && carries_frame(rest[i]) by {
            assert(rest[i] == events[i + 1]);
        }
        lemma_consecutive_numbering(v1, rest);
        let q = numbered_frames(v, events);
        let q1 = numbered_frames(v1, rest);
        match e {
            EventView::Received(Some(MessageView::AddLog(bytes, _))) => {
                lemma_set_sequence_number(bytes, v.sequence);
                assert(q == seq![with_sequence(bytes, v.sequence)] + q1);
                assert forall|k: int| 0 <= k < q.len() implies is_message_frame(#[trigger] q[k])
                    && sequence_number(q[k]) == v.sequence + k by {
                    if k > 0 {
                        assert(q[k] == q1[k - 1]);
                    }
                }
            },
            _ => {
                assert(q =~= q1);
            },
        }
    }
}

/// While no stream is opened and the connection holds, a ready worker takes no client info,
/// and writes its messages in the order they were queued: what it wrote, then what it has yet
/// to write, are the messages it had yet to write, then the log messages it received.
proof fn lemma_ready_writes_in_order<S, W>(v: WorkerView<S, W>, events: Seq<EventView<S, W>>)
    requires
        v.wf(),
        v.state == ConnectionState::Ready,
        accepts_all(v, events),
        forall|i: int|
            0 <= i < events.len() ==> !may_disconnect(#[trigger] events[i]) && !(events[i] is Opened),
    ensures
        client_infos(events).len() == 0,
        written(v, events) + pending(run(v, events)) == pending(v) + numbered_frames(v, events),
    decreases events.len(),
{
    if events.len() > 0 {
        let e = events[0];
        let (v1, a) = v.next(e);
        let rest = events.drop_first();
        assert(!may_disconnect(events[0]) && !(events[0] is Opened));
        lemma_next_preserves_wf(v, e);
        lemma_step_on_connection(v, e);
        assert forall|i: int| 0 <= i < rest.len() implies !may_disconnect(#[trigger] rest[i])
            && !(rest[i] is Opened) by {
            assert(rest[i] == events[i + 1]);
        }
        lemma_ready_writes_in_order(v1, rest);
        assert(client_infos(events) =~= client_infos(rest));
        assert(written(v, events) + pending(run(v, events)) =~= written_by(a) + (written(v1, rest)
            + pending(run(v1, rest))));
        assert(pending(v) + numbered_frames(v, events) =~= (pending(v) + numbered_by(v, e))
            + numbered_frames(v1, rest));
    }
}

/// On a stream just opened, the client info is written first, then the queued messages in
/// queue order: as long as no other stream is opened and the connection holds, the worker takes
/// at most one client info; before it, nothing is written; after it, what was written, then
/// what is yet to be written, are that client info, the messages queued when the stream opened,
/// then the log messages received since.
pub proof fn lemma_client_info_opens_stream<S, W>(
    v: WorkerView<S, W>,
    events: Seq<EventView<S, W>>,
)
    requires
        v.wf(),
        v.state == ConnectionState::Connected,
        accepts_all(v, events),
        forall|i: int|
            0 <= i < events.len() ==> !may_disconnect(#[trigger] events[i]) && !(events[i] is Opened),
    ensures
        client_infos(events).len() <= 1,
        client_infos(events).len() == 0 ==> written(v, events).len() == 0,
        client_infos(events).len() == 1 ==> written(v, events) + pending(run(v, events))
            == client_infos(events) + queued_bytes(v.queue) + numbered_frames(v, events),
        written(v, events).len() > 0 ==> written(v, events)[0] == client_infos(events)[0],
    decreases events.len(),
{
    if events.len() > 0 {
        let e = events[0];
        let (v1, a) = v.next(e);
        let rest = events.drop_first();
        assert(!may_disconnect(events[0]) && !(events[0] is Opened));
        lemma_next_preserves_wf(v, e);
        lemma_step_on_connection(v, e);
        assert forall|i: int| 0 <= i < rest.len() implies !may_disconnect(#[trigger] rest[i])
            && !(rest[i] is Opened) by {
            assert(rest[i] == events[i + 1]);
        }
        assert(pending(v) == queued_bytes(v.queue));
        match e {
            EventView::ClientInfo(info) => {
                lemma_ready_writes_in_order(v1, rest);
                assert(client_infos(events) =~= seq![info] + client_infos(rest));
                assert(written(v, events) =~= seq![info] + written(v1, rest));
                assert(numbered_frames(v, events) =~= numbered_frames(v1, rest));
                assert(written(v, events) + pending(run(v, events)) =~= seq![info] + (written(
                    v1,
                    rest,
                ) + pending(run(v1, rest))));
                assert(written(v, events)[0] == info);
            },
            _ => {
                lemma_client_info_opens_stream(v1, rest);
                assert(client_infos(events) =~= client_infos(rest));
                assert(written(v, events) =~= written(v1, rest));
                assert(pending(v1) == queued_bytes(v1.queue));
                assert(numbered_frames(v, events) =~= numbered_by(v, e) + numbered_frames(v1, rest));
                assert(client_infos(events) + queued_bytes(v.queue) + numbered_frames(v, events)
                    =~= client_infos(rest) + queued_bytes(v1.queue) + numbered_frames(v1, rest));
            },
        }
    }
}

/// The run splits at any point: the worker after the first `j` events is well formed and takes
/// the rest in turn, and the whole run ends where the rest ends.
proof fn lemma_run_split<S, W>(v: WorkerView<S, W>, events: Seq<EventView<S, W>>, j: int)
    requires
        v.wf(),
        accepts_all(v, events),
        0 <= j <= events.len(),
    ensures
        run(v, events.take(j)).wf(),
        accepts_all(run(v, events.take(j)), events.skip(j)),
        run(v, events) == run(run(v, events.take(j)), events.skip(j)),
    decreases j,
{
    if j == 0 {
        assert(events.take(0) =~= Seq::<EventView<S, W>>::empty());
        assert(events.skip(0) =~= events);
    } else {
        let rest = events.drop_first();
        lemma_next_preserves_wf(v, events[0]);
        lemma_run_split(v.next(events[0]).0, rest, j - 1);
        assert(events.take(j).drop_first() =~= rest.take(j - 1));
        assert(events.take(j)[0] == events[0]);
        assert(rest.skip(j - 1) =~= events.skip(j));
    }
}

/// A worker that takes each of `events` takes each of any first `n` of them.
proof fn lemma_accepts_prefix<S, W>(v: WorkerView<S, W>, events: Seq<EventView<S, W>>, n: int)
    requires
        accepts_all(v, events),
        0 <= n <= events.len(),
    ensures
        accepts_all(v, events.take(n)),
    decreases n,
{
    if n > 0 {
        lemma_accepts_prefix(v.next(events[0]).0, events.drop_first(), n - 1);
        assert(events.take(n).drop_first() =~= events.drop_first().take(n - 1));
        assert(events.take(n)[0] == events[0]);
    }
}

/// On every stream that a run opens, the client info comes first. Whatever the worker took
/// before, when its `j`-th event opens a stream, that event writes nothing and leaves the worker
/// connected; then, up to the `m`-th event, as long as the connection holds and no other stream
/// is opened, the worker takes at most one client info, writes nothing before it, and after it
/// writes that client info, then the messages queued when the stream opened, then the log
/// messages received since, in order.
pub proof fn lemma_client_info_on_every_stream<S, W>(
    v: WorkerView<S, W>,
    events: Seq<EventView<S, W>>,
    j: int,
    m: int,
)
    requires
        v.wf(),
        accepts_all(v, events),
        0 <= j < m <= events.len(),
        events[j] matches EventView::Opened(Ok(_)),
        forall|k: int|
            j < k < m ==> !may_disconnect(#[trigger] events[k]) && !(events[k] is Opened),
    ensures
        ({
            let before = run(v, events.take(j));
            let opened = run(v, events.take(j + 1));
            let stream = events.subrange(j + 1, m);
            &&& written_by(before.next(events[j]).1).len() == 0
            &&& opened.state == ConnectionState::Connected
            &&& client_infos(stream).len() <= 1
            &&& client_infos(stream).len() == 0 ==> written(opened, stream).len() == 0
            &&& client_infos(stream).len() == 1 ==> written(opened, stream) + pending(
                run(opened, stream),
            ) == client_infos(stream) + queued_bytes(opened.queue) + numbered_frames(
                opened,
                stream,
            )
            &&& written(opened, stream).len() > 0 ==> written(opened, stream)[0] == client_infos(
                stream,
            )[0]
        }),
{
    lemma_run_split(v, events, j);
    lemma_run_split(v, events, j + 1);
    let before = run(v, events.take(j));
    let opened = run(v, events.take(j + 1));
    let e = events[j];
    assert(events.skip(j)[0] == e);
    assert(events.skip(j).drop_first() =~= events.skip(j + 1));
    assert(opened == before.next(e).0) by {
        lemma_accepts_prefix(v, events, j + 1);
        lemma_run_split(v, events.take(j + 1), j);
        assert(events.take(j + 1).take(j) =~= events.take(j));
        assert(events.take(j + 1).skip(j) =~= seq![e]);
        assert(seq![e].drop_first() =~= Seq::<EventView<S, W>>::empty());
        assert(run(before, seq![e]) == run(before.next(e).0, seq![e].drop_first()));
    }
    let stream = events.subrange(j + 1, m);
    lemma_accepts_prefix(opened, events.skip(j + 1), m - j - 1);
    assert(events.skip(j + 1).take(m - j - 1) =~= stream);
    assert forall|i: int| 0 <= i < stream.len() implies !may_disconnect(#[trigger] stream[i])
        && !(stream[i] is Opened) by {
        assert(stream[i] == events[j + 1 + i]);
    }
    lemma_client_info_opens_stream(opened, stream);
}

/// A copy of `service`.
fn copy_service(service: &BonjourServiceType) -> (r: BonjourServiceType)
    ensures
        r@ == service@,
{
    match service {
        BonjourServiceType::Custom(name, use_ssl) => BonjourServiceType::Custom(name.clone(), *use_ssl),
        BonjourServiceType::Default(use_ssl) => BonjourServiceType::Default(*use_ssl),
    }
}

/// The log worker's state.
pub struct LogWorker<S, W> {
    sequence_generator: u32,
    connection_state: ConnectionState,
    connection_mode: ConnectionMode,
    write_stream: Option<W>,
    log_messages: std::collections::VecDeque<(LogMessage, Option<S>)>,
    phase: Phase<S>,
}

impl<S, W> View for LogWorker<S, W> {
    type V = WorkerView<S, W>;

    closed spec fn view(&self) -> WorkerView<S, W> {
        WorkerView {
            sequence: self.sequence_generator,
            state: self.connection_state,
            mode: self.connection_mode@,
            stream: self.write_stream,
            queue: self.log_messages@.map_values(|e: (LogMessage, Option<S>)| (e.0@, e.1)),
            phase: self.phase,
        }
    }
}

impl<S, W> LogWorker<S, W> {
    /// A worker that has not started: sequence numbers start at 1, disconnected, in the
    /// default connection mode, with no stream and an empty queue.
    pub fn new() -> (r: Self)
        ensures
            r@.wf(),
            r@.sequence == 1,
            r@.state == ConnectionState::Disconnected,
            r@.mode == crate::connection::default_connection_mode(),
            r@.stream is None,
            r@.queue.len() == 0,
            r@.phase is Start,
    {
        LogWorker {
            sequence_generator: 1,
            connection_state: ConnectionState::Disconnected,
            connection_mode: ConnectionMode::default(),
            write_stream: None,
            log_messages: std::collections::VecDeque::new(),
            phase: Phase::Start,
        }
    }

    /// Whether the next log message can still be numbered.
    pub fn can_number_message(&self) -> (r: bool)
        ensures
            r == (self@.sequence < u32::MAX),
    {
        self.sequence_generator < u32::MAX
    }

    /// The connection state.
    pub fn connection_state(&self) -> (r: ConnectionState)
        ensures
            r == self@.state,
    {
        self.connection_state
    }

    /// The connection mode.
    pub fn connection_mode(&self) -> (r: &ConnectionMode)
        ensures
            r@ == self@.mode,
    {
        &self.connection_mode
    }

    /// Number of queued messages.
    pub fn queued_messages(&self) -> (r: usize)
        ensures
            r == self@.queue.len(),
    {
        self.log_messages.len()
    }

    /// Whether the worker has stopped.
    pub fn is_finished(&self) -> (r: bool)
        ensures
            r == self@.phase is Finished,
    {
        match self.phase {
            Phase::Finished => true,
            _ => false,
        }
    }

    /// Waits for the next message.
    fn receive(&mut self) -> (r: Action<S, W>)
        ensures
            final(self)@ == old(self)@.receive().0,
            r@ == old(self)@.receive().1,
    {
        self.phase = Phase::Receiving;
        Action::Receive
    }

    /// Raises the readiness signal.
    fn signal_ready(&mut self) -> (r: Action<S, W>)
        ensures
            final(self)@ == old(self)@.signal_ready().0,
            r@ == old(self)@.signal_ready().1,
    {
        self.phase = Phase::SignalingReady;
        Action::SignalReady
    }

    /// Stops with `outcome`.
    fn finish(&mut self, outcome: Result<(), Error>) -> (r: Action<S, W>)
        ensures
            final(self)@ == old(self)@.finish(outcome).0,
            r@ == old(self)@.finish(outcome).1,
    {
        self.disconnect();
        self.phase = Phase::Finished;
        Action::Finish(outcome)
    }

    /// Drops the stream; disconnected, sequence numbers restart at 1.
    fn disconnect(&mut self)
        ensures
            final(self)@ == old(self)@.disconnected(),
    {
        self.connection_state = ConnectionState::Disconnected;
        self.write_stream = None;
        self.sequence_generator = 1;
    }

    /// Starts setting up the connection, to go on with `cont`; `None` when there is nothing to
    /// set up.
    fn setup(&mut self, cont: AfterSetup) -> (r: Option<Action<S, W>>)
        ensures
            match old(self)@.setup_request() {
                Some(ActionView::Browse(service)) => {
                    &&& r matches Some(a) && a@ == ActionView::<S, W>::Browse(service)
                    &&& final(self)@ == old(self)@.with_phase(Phase::Browsing(cont))
                },
                Some(request) => {
                    &&& r matches Some(a) && a@ == request
                    &&& final(self)@ == old(self)@.with_phase(Phase::Opening(cont))
                },
                None => r is None && final(self)@ == old(self)@,
            },
    {
        let disconnected = self.connection_state == ConnectionState::Disconnected;
        let request: Option<Action<S, W>> = match &self.connection_mode {
            ConnectionMode::File(path) => Some(Action::OpenFile(path.clone())),
            ConnectionMode::Tcp(host, port, use_ssl) => {
                if disconnected {
                    Some(Action::ConnectRemote(host.clone(), Some(*port), *use_ssl))
                } else {
                    None
                }
            },
            ConnectionMode::Bonjour(service) => {
                if disconnected {
                    Some(Action::Browse(copy_service(service)))
                } else {
                    None
                }
            },
        };
        match &request {
            Some(Action::Browse(_)) => {
                self.phase = Phase::Browsing(cont);
            },
            Some(_) => {
                self.phase = Phase::Opening(cont);
            },
            None => {},
        }
        request
    }

    /// Writes the front message, or waits for the next message when the queue is empty.
    fn write_next(&mut self) -> (r: Action<S, W>)
        requires
            old(self)@.queue.len() > 0 ==> old(self)@.stream is Some,
        ensures
            final(self)@ == old(self)@.write_next().0,
            r@ == old(self)@.write_next().1,
    {
        if self.log_messages.len() == 0 {
            return self.receive();
        }
        let bytes = self.log_messages[0].0.to_bytes();
        let stream = self.write_stream.take();
        let stream = stream.unwrap();
        self.phase = Phase::Writing;
        Action::Write(stream, bytes)
    }

    /// Processing the queue once the connection is set up.
    fn after_setup(&mut self) -> (r: Action<S, W>)
        requires
            old(self)@.state == ConnectionState::Ready && old(self)@.queue.len() > 0
                ==> old(self)@.stream is Some,
        ensures
            final(self)@ == old(self)@.after_setup().0,
            r@ == old(self)@.after_setup().1,
    {
        if self.connection_state == ConnectionState::Connected {
            self.phase = Phase::BuildingClientInfo;
            Action::BuildClientInfo
        } else if self.connection_state == ConnectionState::Ready {
            self.write_next()
        } else {
            self.receive()
        }
    }

    /// Processing the queue.
    fn process(&mut self) -> (r: Action<S, W>)
        requires
            old(self)@.state == ConnectionState::Ready ==> old(self)@.stream is Some,
        ensures
            final(self)@ == old(self)@.process().0,
            r@ == old(self)@.process().1,
    {
        if self.log_messages.len() == 0 {
            self.receive()
        } else if self.connection_state == ConnectionState::Disconnected {
            match self.setup(AfterSetup::Process) {
                Some(action) => action,
                None => self.after_setup(),
            }
        } else {
            self.after_setup()
        }
    }

    /// Going on with `cont` once a connection attempt completed.
    fn resume(&mut self, cont: AfterSetup) -> (r: Action<S, W>)
        requires
            old(self)@.state == ConnectionState::Ready ==> old(self)@.stream is Some,
        ensures
            final(self)@ == old(self)@.resume(cont).0,
            r@ == old(self)@.resume(cont).1,
    {
        match cont {
            AfterSetup::Startup => self.signal_ready(),
            AfterSetup::Switch => self.receive(),
            AfterSetup::Reconnect => self.receive(),
            AfterSetup::Process => self.after_setup(),
            AfterSetup::BonjourConnected => self.process(),
        }
    }

    /// Whether the worker, waiting as it does, takes `event`.
    pub fn accepts(&self, event: &Event<S, W>) -> (r: bool)
        ensures
            r == self@.accepts(event@),
    {
        match (&self.phase, event) {
            (Phase::Start, Event::Start) => true,
            (Phase::Opening(_), Event::Opened(_)) => true,
            (Phase::Browsing(_), Event::BrowseRequested(_)) => true,
            (Phase::SignalingReady, Event::ReadySignaled) => true,
            (Phase::Receiving, Event::Received(Some(Message::AddLog(_, _)))) => {
                self.sequence_generator < u32::MAX
            },
            (Phase::Receiving, Event::Received(_)) => true,
            (Phase::BuildingClientInfo, Event::ClientInfo(_)) => true,
            (Phase::Writing, Event::Written(_, _)) => true,
            (Phase::Flushing(_), Event::Flushed(_, _)) => true,
            (Phase::Signaling, Event::Signaled) => true,
            (Phase::Closing, Event::Closed(_)) => true,
            _ => false,
        }
    }

    /// Takes the outcome of the last action and returns the next action.
    pub fn step(&mut self, event: Event<S, W>) -> (r: Action<S, W>)
        requires
            old(self)@.wf(),
            old(self)@.accepts(event@),
        ensures
            final(self)@.wf(),
            final(self)@ == old(self)@.next(event@).0,
            r@ == old(self)@.next(event@).1,
    {
        match event {
            Event::Start => {
                match self.setup(AfterSetup::Startup) {
                    Some(action) => action,
                    None => self.signal_ready(),
                }
            },
            Event::Opened(Ok(stream)) => {
                let cont = match self.phase {
                    Phase::Opening(cont) => cont,
                    _ => AfterSetup::Switch,
                };
                self.write_stream = Some(stream);
                self.connection_state = ConnectionState::Connected;
                self.resume(cont)
            },
            Event::Opened(Err(e)) => self.finish(Err(e)),
            Event::BrowseRequested(ok) => {
                if ok {
                    let cont = match self.phase {
                        Phase::Browsing(cont) => cont,
                        _ => AfterSetup::Switch,
                    };
                    self.connection_state = ConnectionState::Connecting;
                    self.resume(cont)
                } else {
                    self.finish(Err(Error::ChannelNotAvailable))
                }
            },
            Event::ReadySignaled => self.receive(),
            Event::Received(None) => {
                match self.write_stream.take() {
                    Some(stream) => {
                        self.connection_state = ConnectionState::Disconnected;
                        self.phase = Phase::Closing;
                        Action::Close(stream)
                    },
                    None => {
                        self.connection_state = ConnectionState::Disconnected;
                        self.finish(Ok(()))
                    },
                }
            },
            Event::Received(Some(Message::AddLog(mut message, signal))) => {
                let sequence_number = self.sequence_generator;
                self.sequence_generator = sequence_number + 1;
                message.set_sequence_number(sequence_number);
                self.log_messages.push_back((message, signal));
                self.process()
            },
            Event::Received(Some(Message::SwitchConnection(mode))) => {
                if self.write_stream.is_some() {
                    self.disconnect();
                }
                self.connection_mode = mode;
                match self.setup(AfterSetup::Switch) {
                    Some(action) => action,
                    None => self.receive(),
                }
            },
            Event::Received(Some(Message::ConnectToBonjourService(host, use_ssl))) => {
                self.phase = Phase::Opening(AfterSetup::BonjourConnected);
                Action::ConnectRemote(host, None, use_ssl)
            },
            Event::ClientInfo(message) => {
                self.log_messages.push_front((message, None));
                self.connection_state = ConnectionState::Ready;
                self.write_next()
            },
            Event::Written(stream, outcome) => {
                match outcome {
                    Ok(()) => {
                        let front = self.log_messages.pop_front();
                        let (_, signal) = front.unwrap();
                        match signal {
                            Some(signal) => {
                                self.phase = Phase::Flushing(signal);
                                Action::Flush(stream)
                            },
                            None => {
                                self.write_stream = Some(stream);
                                self.write_next()
                            },
                        }
                    },
                    Err(_) => {
                        self.disconnect();
                        match self.setup(AfterSetup::Reconnect) {
                            Some(action) => action,
                            None => self.receive(),
                        }
                    },
                }
            },
            Event::Flushed(stream, outcome) => {
                match outcome {
                    Ok(()) => {
                        let mut phase = Phase::Signaling;
                        std::mem::swap(&mut phase, &mut self.phase);
                        match phase {
                            Phase::Flushing(signal) => {
                                self.write_stream = Some(stream);
                                Action::Signal(signal)
                            },
                            _ => self.finish(Ok(())),
                        }
                    },
                    Err(e) => self.finish(Err(Error::IO(e))),
                }
            },
            Event::Signaled => self.write_next(),
            Event::Closed(outcome) => {
                match outcome {
                    Ok(()) => self.finish(Ok(())),
                    Err(e) => self.finish(Err(Error::IO(e))),
                }
            },
        }
    }
}

} // verus!
