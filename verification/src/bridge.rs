//! The bridge state machine.
//!
//! The surrounding process waits on two sources at once — the next line of
//! local input and the next frame from the transport — and hands whichever
//! event arrives first to [`Bridge::step`], which decides the action to
//! perform and whether the bridge keeps running. All I/O stays outside; the
//! machine itself is pure and fully specified by [`step_model`].

use crate::codec::norm_line;
use vstd::prelude::*;

verus! {

/// The lifecycle of the bridge: it runs until the first terminal condition,
/// then performs a single graceful-close action and stops.
#[derive(Clone, Copy, Debug, PartialEq, Eq, Structural)]
pub enum BridgeState {
    Running,
    Terminating,
    Terminated,
}

/// One unit of work observed by the event loop while the bridge runs:
/// something arrived on one of the two directions, one side ended, or a
/// previously decided action failed.
#[derive(Debug)]
pub enum BridgeEvent {
    /// A line read from local input, without its trailing newline.
    LocalLine(String),
    /// Local input reached end-of-stream or failed to read.
    LocalEnded,
    /// A text frame received from the transport.
    TextFrame(String),
    /// A close frame received from the transport.
    CloseFrame,
    /// A ping control frame received from the transport, with its payload.
    Ping(Vec<u8>),
    /// Any other transport frame (binary, pong, ...): ignored.
    OtherFrame,
    /// The transport receive half ended or failed.
    TransportEnded,
    /// Forwarding a local line to the transport failed.
    ForwardFailed,
    /// Writing a line to local output failed.
    LocalWriteFailed,
    /// Sending a pong reply failed; this is not terminal.
    PongSendFailed,
}

/// The mathematical value of a [`BridgeEvent`]: the same cases over `Seq`.
pub enum Event {
    LocalLine(Seq<char>),
    LocalEnded,
    TextFrame(Seq<char>),
    CloseFrame,
    Ping(Seq<u8>),
    OtherFrame,
    TransportEnded,
    ForwardFailed,
    LocalWriteFailed,
    PongSendFailed,
}

impl View for BridgeEvent {
    type V = Event;

    open spec fn view(&self) -> Event {
        match self {
            BridgeEvent::LocalLine(l) => Event::LocalLine(l@),
            BridgeEvent::LocalEnded => Event::LocalEnded,
            BridgeEvent::TextFrame(t) => Event::TextFrame(t@),
            BridgeEvent::CloseFrame => Event::CloseFrame,
            BridgeEvent::Ping(p) => Event::Ping(p@),
            BridgeEvent::OtherFrame => Event::OtherFrame,
            BridgeEvent::TransportEnded => Event::TransportEnded,
            BridgeEvent::ForwardFailed => Event::ForwardFailed,
            BridgeEvent::LocalWriteFailed => Event::LocalWriteFailed,
            BridgeEvent::PongSendFailed => Event::PongSendFailed,
        }
    }
}

/// What the event loop must do next, as decided by the machine. The loop
/// performs the action and reports a failure, if any, as the next event.
#[derive(Debug)]
pub enum BridgeAction {
    /// Send this line to the transport as one text frame.
    ForwardLine(String),
    /// Write this already newline-terminated line to local output and flush.
    WriteLine(String),
    /// Answer a ping: send a pong frame with this payload.
    SendPong(Vec<u8>),
    /// Close the transport connection gracefully, ignoring any error.
    CloseTransport,
    /// Nothing to do.
    Nothing,
}

/// The mathematical value of a [`BridgeAction`].
pub enum Action {
    ForwardLine(Seq<char>),
    WriteLine(Seq<char>),
    SendPong(Seq<u8>),
    CloseTransport,
    Nothing,
}

impl View for BridgeAction {
    type V = Action;

    open spec fn view(&self) -> Action {
        match self {
            BridgeAction::ForwardLine(l) => Action::ForwardLine(l@),
            BridgeAction::WriteLine(l) => Action::WriteLine(l@),
            BridgeAction::SendPong(p) => Action::SendPong(p@),
            BridgeAction::CloseTransport => Action::CloseTransport,
            BridgeAction::Nothing => Action::Nothing,
        }
    }
}

/// An event is terminal when it makes the bridge leave `Running`: either
/// side ended, or an I/O action on either direction failed.
pub open spec fn is_terminal(e: Event) -> bool {
    match e {
        Event::LocalEnded => true,
        Event::CloseFrame => true,
        Event::TransportEnded => true,
        Event::ForwardFailed => true,
        Event::LocalWriteFailed => true,
        _ => false,
    }
}

/// The transition table of the bridge: from a state and an event, the next
/// state and the action to perform. Events are only acted on while the
/// machine is `Running`; afterwards every event is ignored.
pub open spec fn step_model(s: BridgeState, e: Event) -> (BridgeState, Action) {
    if s != BridgeState::Running {
        (s, Action::Nothing)
    } else {
        match e {
            Event::LocalLine(l) => (BridgeState::Running, Action::ForwardLine(l)),
            Event::TextFrame(t) => (BridgeState::Running, Action::WriteLine(norm_line(t))),
            Event::Ping(p) => (BridgeState::Running, Action::SendPong(p)),
            Event::OtherFrame => (BridgeState::Running, Action::Nothing),
            Event::PongSendFailed => (BridgeState::Running, Action::Nothing),
            Event::LocalEnded => (BridgeState::Terminating, Action::Nothing),
            Event::CloseFrame => (BridgeState::Terminating, Action::Nothing),
            Event::TransportEnded => (BridgeState::Terminating, Action::Nothing),
            Event::ForwardFailed => (BridgeState::Terminating, Action::Nothing),
            Event::LocalWriteFailed => (BridgeState::Terminating, Action::Nothing),
        }
    }
}

/// The bridge itself: only its lifecycle state. Both transport halves and
/// both local handles stay with the caller, which owns all I/O.
pub struct Bridge {
    pub state: BridgeState,
}

impl Bridge {
    /// A bridge starts `Running`, immediately after the transport
    /// connection has been established.
    pub fn new() -> (b: Bridge)
        ensures
            b.state == BridgeState::Running,
    {
        Bridge { state: BridgeState::Running }
    }

    /// Whether the event loop should keep waiting for events.
    pub fn is_running(&self) -> (r: bool)
        ensures
            r == (self.state == BridgeState::Running),
    {
        matches!(self.state, BridgeState::Running)
    }

    /// Processes one event, exactly as [`step_model`] decides.
    pub fn step(&mut self, event: BridgeEvent) -> (action: BridgeAction)
        ensures
            final(self).state == step_model(old(self).state, event@).0,
            action@ == step_model(old(self).state, event@).1,
    {
        if !matches!(self.state, BridgeState::Running) {
            return BridgeAction::Nothing;
        }
        match event {
            BridgeEvent::LocalLine(l) => BridgeAction::ForwardLine(l),
            BridgeEvent::TextFrame(t) => BridgeAction::WriteLine(
                crate::codec::normalize_frame(t),
            ),
            BridgeEvent::Ping(p) => BridgeAction::SendPong(p),
            BridgeEvent::OtherFrame => BridgeAction::Nothing,
            BridgeEvent::PongSendFailed => BridgeAction::Nothing,
            BridgeEvent::LocalEnded => {
                self.state = BridgeState::Terminating;
                BridgeAction::Nothing
            },
            BridgeEvent::CloseFrame => {
                self.state = BridgeState::Terminating;
                BridgeAction::Nothing
            },
            BridgeEvent::TransportEnded => {
                self.state = BridgeState::Terminating;
                BridgeAction::Nothing
            },
            BridgeEvent::ForwardFailed => {
                self.state = BridgeState::Terminating;
                BridgeAction::Nothing
            },
            BridgeEvent::LocalWriteFailed => {
                self.state = BridgeState::Terminating;
                BridgeAction::Nothing
            },
        }
    }

    /// The single action of the `Terminating` state: ask for a graceful
    /// close of the transport connection, then stop. The close attempt is
    /// made even when no error occurred; its own failure is swallowed by
    /// the caller, so shutting down never escalates.
    pub fn shutdown(&mut self) -> (action: BridgeAction)
        requires
            old(self).state == BridgeState::Terminating,
        ensures
            final(self).state == BridgeState::Terminated,
            action@ == Action::CloseTransport,
    {
        self.state = BridgeState::Terminated;
        BridgeAction::CloseTransport
    }
}

/// The state after feeding `events`, one by one, to a machine in state `s`.
pub open spec fn run_state(s: BridgeState, events: Seq<Event>) -> BridgeState
    decreases events.len(),
{
    if events.len() == 0 {
        s
    } else {
        run_state(step_model(s, events.first()).0, events.drop_first())
    }
}

/// The actions decided while feeding `events` to a machine in state `s`,
/// one action per event, in order.
pub open spec fn run_actions(s: BridgeState, events: Seq<Event>) -> Seq<Action>
    decreases events.len(),
{
    if events.len() == 0 {
        Seq::empty()
    } else {
        seq![step_model(s, events.first()).1] + run_actions(
            step_model(s, events.first()).0,
            events.drop_first(),
        )
    }
}

/// The lines of the local-line events in `events`, in order.
pub open spec fn local_lines(events: Seq<Event>) -> Seq<Seq<char>>
    decreases events.len(),
{
    if events.len() == 0 {
        Seq::empty()
    } else {
        (match events.first() {
            Event::LocalLine(l) => seq![l],
            _ => Seq::empty(),
        }) + local_lines(events.drop_first())
    }
}

/// The text frames of the transport-frame events in `events`, in order,
/// each already normalized for local output.
pub open spec fn normalized_frames(events: Seq<Event>) -> Seq<Seq<char>>
    decreases events.len(),
{
    if events.len() == 0 {
        Seq::empty()
    } else {
        (match events.first() {
            Event::TextFrame(t) => seq![norm_line(t)],
            _ => Seq::empty(),
        }) + normalized_frames(events.drop_first())
    }
}

/// The payloads of the ping events in `events`, in order.
pub open spec fn ping_payloads(events: Seq<Event>) -> Seq<Seq<u8>>
    decreases events.len(),
{
    if events.len() == 0 {
        Seq::empty()
    } else {
        (match events.first() {
            Event::Ping(p) => seq![p],
            _ => Seq::empty(),
        }) + ping_payloads(events.drop_first())
    }
}

/// The lines the actions in `actions` send to the transport, in order.
pub open spec fn forwarded_lines(actions: Seq<Action>) -> Seq<Seq<char>>
    decreases actions.len(),
{
    if actions.len() == 0 {
        Seq::empty()
    } else {
        (match actions.first() {
            Action::ForwardLine(l) => seq![l],
            _ => Seq::empty(),
        }) + forwarded_lines(actions.drop_first())
    }
}

/// The lines the actions in `actions` write to local output, in order.
pub open spec fn written_lines(actions: Seq<Action>) -> Seq<Seq<char>>
    decreases actions.len(),
{
    if actions.len() == 0 {
        Seq::empty()
    } else {
        (match actions.first() {
            Action::WriteLine(l) => seq![l],
            _ => Seq::empty(),
        }) + written_lines(actions.drop_first())
    }
}

/// The payloads of the pong replies in `actions`, in order.
pub open spec fn pong_payloads(actions: Seq<Action>) -> Seq<Seq<u8>>
    decreases actions.len(),
{
    if actions.len() == 0 {
        Seq::empty()
    } else {
        (match actions.first() {
            Action::SendPong(p) => seq![p],
            _ => Seq::empty(),
        }) + pong_payloads(actions.drop_first())
    }
}

/// Each projection peels one action off the front of a sequence.
proof fn lemma_projections_cons(a0: Action, tail: Seq<Action>)
    ensures
        forwarded_lines(seq![a0] + tail) == (match a0 {
            Action::ForwardLine(l) => seq![l],
            _ => Seq::<Seq<char>>::empty(),
        }) + forwarded_lines(tail),
        written_lines(seq![a0] + tail) == (match a0 {
            Action::WriteLine(l) => seq![l],
            _ => Seq::<Seq<char>>::empty(),
        }) + written_lines(tail),
        pong_payloads(seq![a0] + tail) == (match a0 {
            Action::SendPong(p) => seq![p],
            _ => Seq::<Seq<u8>>::empty(),
        }) + pong_payloads(tail),
{
    assert((seq![a0] + tail).first() == a0);
    assert((seq![a0] + tail).drop_first() =~= tail);
}

/// While no terminal event arrives the machine stays `Running`, and what
/// it decides is exactly: every local line forwarded, every text frame
/// written normalized, every ping answered, each in arrival order.
proof fn lemma_running_run(events: Seq<Event>)
    requires
        forall|i: int| 0 <= i < events.len() ==> !is_terminal(#[trigger] events[i]),
    ensures
        run_state(BridgeState::Running, events) == BridgeState::Running,
        forwarded_lines(run_actions(BridgeState::Running, events)) =~= local_lines(events),
        written_lines(run_actions(BridgeState::Running, events)) =~= normalized_frames(events),
        pong_payloads(run_actions(BridgeState::Running, events)) =~= ping_payloads(events),
    decreases events.len(),
{
    if events.len() > 0 {
        assert(!is_terminal(events[0]));
        assert(forall|i: int|
            0 <= i < events.drop_first().len() ==> !is_terminal(
                #[trigger] events.drop_first()[i],
            ));
        lemma_running_run(events.drop_first());
        assert(step_model(BridgeState::Running, events.first()).0 == BridgeState::Running);
        let a0 = step_model(BridgeState::Running, events.first()).1;
        let tail = run_actions(BridgeState::Running, events.drop_first());
        assert(run_actions(BridgeState::Running, events) == seq![a0] + tail);
        lemma_projections_cons(a0, tail);
    }
}

/// Order-preserving forwarding, local to remote: as long as the bridge
/// runs, the transport receives exactly the local input lines, in arrival
/// order and with unchanged content, whatever other non-terminal events
/// are interleaved.
pub proof fn lemma_lines_forwarded_in_order(events: Seq<Event>)
    requires
        forall|i: int| 0 <= i < events.len() ==> !is_terminal(#[trigger] events[i]),
    ensures
        run_state(BridgeState::Running, events) == BridgeState::Running,
        forwarded_lines(run_actions(BridgeState::Running, events)) == local_lines(events),
{
    lemma_running_run(events);
}

/// Order-preserving forwarding, remote to local: as long as the bridge
/// runs, local output receives exactly the received text frames, in
/// arrival order, each normalized to end in a newline — and nothing else:
/// no control frame is ever written.
pub proof fn lemma_frames_written_in_order(events: Seq<Event>)
    requires
        forall|i: int| 0 <= i < events.len() ==> !is_terminal(#[trigger] events[i]),
    ensures
        run_state(BridgeState::Running, events) == BridgeState::Running,
        written_lines(run_actions(BridgeState::Running, events)) == normalized_frames(events),
{
    lemma_running_run(events);
}

/// Every ping is answered: as long as the bridge runs, the pong replies
/// are exactly the ping payloads, one pong per ping, in arrival order.
pub proof fn lemma_pings_answered(events: Seq<Event>)
    requires
        forall|i: int| 0 <= i < events.len() ==> !is_terminal(#[trigger] events[i]),
    ensures
        pong_payloads(run_actions(BridgeState::Running, events)) == ping_payloads(events),
{
    lemma_running_run(events);
}

/// A machine that has left `Running` ignores everything: its state does
/// not change and no event produces an action.
proof fn lemma_stopped_run(s: BridgeState, events: Seq<Event>)
    requires
        s != BridgeState::Running,
    ensures
        run_state(s, events) == s,
        forwarded_lines(run_actions(s, events)) =~= Seq::<Seq<char>>::empty(),
        written_lines(run_actions(s, events)) =~= Seq::<Seq<char>>::empty(),
        pong_payloads(run_actions(s, events)) =~= Seq::<Seq<u8>>::empty(),
    decreases events.len(),
{
    if events.len() > 0 {
        lemma_stopped_run(s, events.drop_first());
        let tail = run_actions(s, events.drop_first());
        assert(run_actions(s, events) == seq![Action::Nothing] + tail);
        lemma_projections_cons(Action::Nothing, tail);
    }
}

/// Running a machine over `a + b` is running it over `a`, then over `b`
/// from the state `a` left it in.
proof fn lemma_run_split(s: BridgeState, a: Seq<Event>, b: Seq<Event>)
    ensures
        run_state(s, a + b) == run_state(run_state(s, a), b),
        run_actions(s, a + b) =~= run_actions(s, a) + run_actions(run_state(s, a), b),
    decreases a.len(),
{
    if a.len() == 0 {
        assert(a + b =~= b);
    } else {
        let s2 = step_model(s, a.first()).0;
        lemma_run_split(s2, a.drop_first(), b);
        assert((a + b).first() == a.first());
        assert((a + b).drop_first() =~= a.drop_first() + b);
    }
}

/// Each projection distributes over concatenation of action sequences.
proof fn lemma_projections_split(a: Seq<Action>, b: Seq<Action>)
    ensures
        forwarded_lines(a + b) =~= forwarded_lines(a) + forwarded_lines(b),
        written_lines(a + b) =~= written_lines(a) + written_lines(b),
        pong_payloads(a + b) =~= pong_payloads(a) + pong_payloads(b),
    decreases a.len(),
{
    if a.len() == 0 {
        assert(a + b =~= b);
    } else {
        lemma_projections_split(a.drop_first(), b);
        assert((a + b).first() == a.first());
        assert((a + b).drop_first() =~= a.drop_first() + b);
    }
}

/// The first terminal event stops the bridge: a close frame from the
/// remote peer, the end of local input, the end of the transport stream,
/// or a failed forward or local write makes the machine leave `Running`
/// for `Terminating`, and nothing observed afterwards is processed — no
/// further line is forwarded or written and no further ping is answered.
/// The graceful close attempt that follows is [`Bridge::shutdown`].
pub proof fn lemma_first_terminal_event_stops_loop(events: Seq<Event>, i: int)
    requires
        0 <= i < events.len(),
        is_terminal(events[i]),
        forall|j: int| 0 <= j < i ==> !is_terminal(#[trigger] events[j]),
    ensures
        run_state(BridgeState::Running, events) == BridgeState::Terminating,
        forwarded_lines(run_actions(BridgeState::Running, events)) == forwarded_lines(
            run_actions(BridgeState::Running, events.take(i)),
        ),
        written_lines(run_actions(BridgeState::Running, events)) == written_lines(
            run_actions(BridgeState::Running, events.take(i)),
        ),
        pong_payloads(run_actions(BridgeState::Running, events)) == pong_payloads(
            run_actions(BridgeState::Running, events.take(i)),
        ),
{
    let before = events.take(i);
    let rest = events.skip(i);
    assert(events =~= before + rest);
    assert(forall|j: int| 0 <= j < before.len() ==> !is_terminal(#[trigger] before[j]));
    lemma_running_run(before);
    lemma_run_split(BridgeState::Running, before, rest);

    assert(rest.first() == events[i]);
    let s2 = step_model(BridgeState::Running, rest.first()).0;
    assert(s2 == BridgeState::Terminating);
    lemma_stopped_run(s2, rest.drop_first());

    let a_i = step_model(BridgeState::Running, rest.first()).1;
    assert(a_i == Action::Nothing);
    let tail = run_actions(s2, rest.drop_first());
    assert(run_actions(BridgeState::Running, rest) == seq![a_i] + tail);
    lemma_projections_cons(a_i, tail);
    assert(forwarded_lines(run_actions(BridgeState::Running, rest)) =~= Seq::<
        Seq<char>,
    >::empty());
    assert(written_lines(run_actions(BridgeState::Running, rest)) =~= Seq::<Seq<char>>::empty());
    assert(pong_payloads(run_actions(BridgeState::Running, rest)) =~= Seq::<Seq<u8>>::empty());

    let acts_before = run_actions(BridgeState::Running, before);
    lemma_projections_split(acts_before, run_actions(BridgeState::Running, rest));
    assert(run_actions(BridgeState::Running, events) == acts_before + run_actions(
        BridgeState::Running,
        rest,
    ));
    assert(forwarded_lines(run_actions(BridgeState::Running, events)) =~= forwarded_lines(
        acts_before,
    ));
    assert(written_lines(run_actions(BridgeState::Running, events)) =~= written_lines(
        acts_before,
    ));
    assert(pong_payloads(run_actions(BridgeState::Running, events)) =~= pong_payloads(
        acts_before,
    ));
}

} // verus!
