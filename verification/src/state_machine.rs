//! The connection state machine of RFC 9293, section 3.3.2.

use crate::text::push_decimal;
use crate::text::decimal_text;
use vstd::prelude::*;

verus! {

/// The eleven connection states.
#[derive(Debug, Clone, Copy, PartialEq, Eq, Structural)]
pub enum TcpState {
    Listen,
    SynSent,
    SynReceived,
    Established,
    FinWait1,
    FinWait2,
    CloseWait,
    Closing,
    LastAck,
    TimeWait,
    Closed,
}

/// What can happen to a connection.
#[derive(Debug, Clone, Copy, PartialEq, Eq, Structural)]
pub enum TcpEvent {
    /// The application asks to connect.
    Connect,
    /// The application asks to listen.
    Listen,
    ReceiveSyn,
    ReceiveSynAck,
    ReceiveAck,
    ReceiveFin,
    ReceiveRst,
    /// The application asks to close.
    Close,
    Timeout,
}

/// One line of the transition log: the state left, the state entered and the
/// event that caused it.
pub type Transition = (TcpState, TcpState, TcpEvent);

/// The transition table. `None` marks a pair that the table does not hold.
///
/// A reset closes the connection from every state but `Listen`, which
/// ignores it.
pub open spec fn transition_target(state: TcpState, event: TcpEvent) -> Option<TcpState> {
    match (state, event) {
        (TcpState::Listen, TcpEvent::ReceiveRst) => Some(TcpState::Listen),
        (_, TcpEvent::ReceiveRst) => Some(TcpState::Closed),
        (TcpState::Closed, TcpEvent::Connect) => Some(TcpState::SynSent),
        (TcpState::Closed, TcpEvent::Listen) => Some(TcpState::Listen),
        (TcpState::Listen, TcpEvent::ReceiveSyn) => Some(TcpState::SynReceived),
        (TcpState::SynSent, TcpEvent::ReceiveSynAck) => Some(TcpState::Established),
        (TcpState::SynSent, TcpEvent::ReceiveSyn) => Some(TcpState::SynReceived),
        (TcpState::SynReceived, TcpEvent::ReceiveAck) => Some(TcpState::Established),
        (TcpState::SynReceived, TcpEvent::Close) => Some(TcpState::FinWait1),
        (TcpState::Established, TcpEvent::Close) => Some(TcpState::FinWait1),
        (TcpState::Established, TcpEvent::ReceiveFin) => Some(TcpState::CloseWait),
        (TcpState::FinWait1, TcpEvent::ReceiveAck) => Some(TcpState::FinWait2),
        (TcpState::FinWait1, TcpEvent::ReceiveFin) => Some(TcpState::Closing),
        (TcpState::FinWait2, TcpEvent::ReceiveFin) => Some(TcpState::TimeWait),
        (TcpState::CloseWait, TcpEvent::Close) => Some(TcpState::LastAck),
        (TcpState::Closing, TcpEvent::ReceiveAck) => Some(TcpState::TimeWait),
        (TcpState::LastAck, TcpEvent::ReceiveAck) => Some(TcpState::Closed),
        (TcpState::TimeWait, TcpEvent::Timeout) => Some(TcpState::Closed),
        _ => None,
    }
}

/// Where an expired timer leads: an unanswered opening is given up, and the
/// wait after closing ends. In every other state a timer has nothing to end.
pub open spec fn timeout_target(state: TcpState) -> Option<TcpState> {
    match state {
        TcpState::SynSent | TcpState::SynReceived | TcpState::TimeWait => Some(TcpState::Closed),
        _ => None,
    }
}

/// A step that the log may hold: one of the table, or an expired timer.
pub open spec fn legal_step(t: Transition) -> bool {
    transition_target(t.0, t.2) == Some(t.1) || (t.2 == TcpEvent::Timeout && timeout_target(t.0)
        == Some(t.1))
}

/// The state that a machine with the given log is in: where its last step
/// led, or `Closed` where it has made none.
pub open spec fn end_state(log: Seq<Transition>) -> TcpState {
    if log.len() == 0 {
        TcpState::Closed
    } else {
        log.last().1
    }
}

/// A log is a walk from `Closed`: every line is a legal step and starts
/// where the line before it ended.
pub open spec fn is_walk(log: Seq<Transition>) -> bool
    decreases log.len(),
{
    if log.len() == 0 {
        true
    } else {
        &&& is_walk(log.drop_last())
        &&& legal_step(log.last())
        &&& log.last().0 == end_state(log.drop_last())
    }
}

/// A walk stays a walk when a legal step is added where it ended.
pub proof fn lemma_walk_push(log: Seq<Transition>, step: Transition)
    requires
        is_walk(log),
        legal_step(step),
        step.0 == end_state(log),
    ensures
        is_walk(log.push(step)),
        end_state(log.push(step)) == step.1,
{
    assert(log.push(step).drop_last() =~= log);
}

pub open spec fn state_name(state: TcpState) -> Seq<char> {
    match state {
        TcpState::Listen => "Listen"@,
        TcpState::SynSent => "SynSent"@,
        TcpState::SynReceived => "SynReceived"@,
        TcpState::Established => "Established"@,
        TcpState::FinWait1 => "FinWait1"@,
        TcpState::FinWait2 => "FinWait2"@,
        TcpState::CloseWait => "CloseWait"@,
        TcpState::Closing => "Closing"@,
        TcpState::LastAck => "LastAck"@,
        TcpState::TimeWait => "TimeWait"@,
        TcpState::Closed => "Closed"@,
    }
}

pub open spec fn event_name(event: TcpEvent) -> Seq<char> {
    match event {
        TcpEvent::Connect => "Connect"@,
        TcpEvent::Listen => "Listen"@,
        TcpEvent::ReceiveSyn => "ReceiveSyn"@,
        TcpEvent::ReceiveSynAck => "ReceiveSynAck"@,
        TcpEvent::ReceiveAck => "ReceiveAck"@,
        TcpEvent::ReceiveFin => "ReceiveFin"@,
        TcpEvent::ReceiveRst => "ReceiveRst"@,
        TcpEvent::Close => "Close"@,
        TcpEvent::Timeout => "Timeout"@,
    }
}

/// The message of a refused transition.
pub open spec fn invalid_transition_text(state: TcpState, event: TcpEvent) -> Seq<char> {
    "Invalid transition: "@ + state_name(state) + " + "@ + event_name(event)
}

/// One line of the diagram: its number, counted from one, and the step.
pub open spec fn diagram_line(number: nat, t: Transition) -> Seq<char> {
    decimal_text(number) + ". "@ + state_name(t.0) + " --["@ + event_name(t.2) + "]--> "@
        + state_name(t.1) + "\n"@
}

/// The diagram of the first `n` lines of a log.
pub open spec fn diagram_text(log: Seq<Transition>, n: nat) -> Seq<char>
    decreases n,
{
    if n == 0 {
        Seq::<char>::empty()
    } else {
        diagram_text(log, (n - 1) as nat) + diagram_line(n, log[n - 1])
    }
}

impl TcpState {
    /// The state's name, as written in RFC 9293 without the hyphens.
    pub fn name(&self) -> (r: &'static str)
        ensures
            r@ == state_name(*self),
    {
        match self {
            TcpState::Listen => "Listen",
            TcpState::SynSent => "SynSent",
            TcpState::SynReceived => "SynReceived",
            TcpState::Established => "Established",
            TcpState::FinWait1 => "FinWait1",
            TcpState::FinWait2 => "FinWait2",
            TcpState::CloseWait => "CloseWait",
            TcpState::Closing => "Closing",
            TcpState::LastAck => "LastAck",
            TcpState::TimeWait => "TimeWait",
            TcpState::Closed => "Closed",
        }
    }
}

impl TcpEvent {
    /// The event's name.
    pub fn name(&self) -> (r: &'static str)
        ensures
            r@ == event_name(*self),
    {
        match self {
            TcpEvent::Connect => "Connect",
            TcpEvent::Listen => "Listen",
            TcpEvent::ReceiveSyn => "ReceiveSyn",
            TcpEvent::ReceiveSynAck => "ReceiveSynAck",
            TcpEvent::ReceiveAck => "ReceiveAck",
            TcpEvent::ReceiveFin => "ReceiveFin",
            TcpEvent::ReceiveRst => "ReceiveRst",
            TcpEvent::Close => "Close",
            TcpEvent::Timeout => "Timeout",
        }
    }
}

/// The message of a refused transition.
pub fn invalid_transition_message(state: TcpState, event: TcpEvent) -> (r: String)
    ensures
        r@ == invalid_transition_text(state, event),
{
    let mut message = String::new();
    message.push_str("Invalid transition: ");
    message.push_str(state.name());
    message.push_str(" + ");
    message.push_str(event.name());
    message
}

/// Appends one line of the diagram to `out`.
#[verifier::rlimit(50)]
fn push_diagram_line(out: &mut String, number: usize, step: Transition)
    ensures
        final(out)@ == old(out)@ + diagram_line(number as nat, step),
{
    let (from, to, event) = step;
    let mut line = String::new();
    push_decimal(&mut line, number);
    line.push_str(". ");
    line.push_str(from.name());
    line.push_str(" --[");
    line.push_str(event.name());
    line.push_str("]--> ");
    line.push_str(to.name());
    line.push_str("\n");
    assert(line@ =~= diagram_line(number as nat, step));
    out.push_str(line.as_str());
}

/// A connection's state with the log of the transitions it has made.
pub struct TcpStateMachine {
    current_state: TcpState,
    state_history: Vec<Transition>,
}

impl TcpStateMachine {
    /// The current state.
    pub closed spec fn state(&self) -> TcpState {
        self.current_state
    }

    /// The log, oldest line first.
    pub closed spec fn history(&self) -> Seq<Transition> {
        self.state_history@
    }

    /// The log is a walk from `Closed` that ends in the current state.
    pub open spec fn wf(&self) -> bool {
        &&& is_walk(self.history())
        &&& self.state() == end_state(self.history())
    }

    /// `next` is this machine after it took `event` to `target`: the state is
    /// `target` and the log has one more line.
    pub open spec fn stepped(&self, next: &TcpStateMachine, event: TcpEvent, target: TcpState) -> bool {
        &&& next.state() == target
        &&& next.history() == self.history().push((self.state(), target, event))
    }

    /// `next` is this machine unchanged.
    pub open spec fn unchanged(&self, next: &TcpStateMachine) -> bool {
        &&& next.state() == self.state()
        &&& next.history() == self.history()
    }

    /// What `transition` does, and so what each of the named events does:
    /// a pair of the table moves the machine and is logged; any other pair is
    /// refused with a message and leaves the machine as it was.
    pub open spec fn transition_outcome(
        &self,
        next: &TcpStateMachine,
        event: TcpEvent,
        result: Result<TcpState, String>,
    ) -> bool {
        match transition_target(self.state(), event) {
            Some(target) => result == Ok::<TcpState, String>(target) && self.stepped(
                next,
                event,
                target,
            ),
            None => {
                &&& result matches Err(message)
                &&& message@ == invalid_transition_text(self.state(), event)
                &&& self.unchanged(next)
            },
        }
    }

    /// The same for the events that return nothing on success.
    pub open spec fn event_outcome(
        &self,
        next: &TcpStateMachine,
        event: TcpEvent,
        result: Result<(), String>,
    ) -> bool {
        match transition_target(self.state(), event) {
            Some(target) => result is Ok && self.stepped(next, event, target),
            None => {
                &&& result matches Err(message)
                &&& message@ == invalid_transition_text(self.state(), event)
                &&& self.unchanged(next)
            },
        }
    }

    /// A machine in `Closed` with an empty log.
    pub fn new() -> (r: Self)
        ensures
            r.wf(),
            r.state() == TcpState::Closed,
            r.history() == Seq::<Transition>::empty(),
    {
        Self { current_state: TcpState::Closed, state_history: Vec::new() }
    }

    pub fn current_state(&self) -> (r: TcpState)
        ensures
            r == self.state(),
    {
        self.current_state
    }

    /// Looks `(current, event)` up in the table.
    pub fn next_state(&self, current: TcpState, event: TcpEvent) -> (r: Result<TcpState, String>)
        ensures
            match transition_target(current, event) {
                Some(target) => r == Ok::<TcpState, String>(target),
                None => r matches Err(message) && message@ == invalid_transition_text(
                    current,
                    event,
                ),
            },
    {
        match (current, event) {
            (TcpState::Listen, TcpEvent::ReceiveRst) => Ok(TcpState::Listen),
            (_, TcpEvent::ReceiveRst) => Ok(TcpState::Closed),
            (TcpState::Closed, TcpEvent::Connect) => Ok(TcpState::SynSent),
            (TcpState::Closed, TcpEvent::Listen) => Ok(TcpState::Listen),
            (TcpState::Listen, TcpEvent::ReceiveSyn) => Ok(TcpState::SynReceived),
            (TcpState::SynSent, TcpEvent::ReceiveSynAck) => Ok(TcpState::Established),
            (TcpState::SynSent, TcpEvent::ReceiveSyn) => Ok(TcpState::SynReceived),
            (TcpState::SynReceived, TcpEvent::ReceiveAck) => Ok(TcpState::Established),
            (TcpState::SynReceived, TcpEvent::Close) => Ok(TcpState::FinWait1),
            (TcpState::Established, TcpEvent::Close) => Ok(TcpState::FinWait1),
            (TcpState::Established, TcpEvent::ReceiveFin) => Ok(TcpState::CloseWait),
            (TcpState::FinWait1, TcpEvent::ReceiveAck) => Ok(TcpState::FinWait2),
            (TcpState::FinWait1, TcpEvent::ReceiveFin) => Ok(TcpState::Closing),
            (TcpState::FinWait2, TcpEvent::ReceiveFin) => Ok(TcpState::TimeWait),
            (TcpState::CloseWait, TcpEvent::Close) => Ok(TcpState::LastAck),
            (TcpState::Closing, TcpEvent::ReceiveAck) => Ok(TcpState::TimeWait),
            (TcpState::LastAck, TcpEvent::ReceiveAck) => Ok(TcpState::Closed),
            (TcpState::TimeWait, TcpEvent::Timeout) => Ok(TcpState::Closed),
            _ => Err(invalid_transition_message(current, event)),
        }
    }

    /// Takes `event`: moves to the table's target and logs the step, or
    /// refuses with a message and changes nothing.
    #[verifier::rlimit(50)]
    pub fn transition(&mut self, event: TcpEvent) -> (r: Result<TcpState, String>)
        requires
            old(self).wf(),
        ensures
            final(self).wf(),
            old(self).transition_outcome(final(self), event, r),
    {
        let old_state = self.current_state;
        match self.next_state(old_state, event) {
            Ok(new_state) => {
                proof {
                    lemma_walk_push(self.state_history@, (old_state, new_state, event));
                }
                self.current_state = new_state;
                self.state_history.push((old_state, new_state, event));
                Ok(new_state)
            },
            Err(message) => Err(message),
        }
    }

    pub fn is_established(&self) -> (r: bool)
        ensures
            r == (self.state() == TcpState::Established),
    {
        self.current_state == TcpState::Established
    }

    pub fn is_closed(&self) -> (r: bool)
        ensures
            r == (self.state() == TcpState::Closed),
    {
        self.current_state == TcpState::Closed
    }

    /// Data may be sent while the local side has not closed: in `Established`
    /// and in `CloseWait`.
    pub fn can_send_data(&self) -> (r: bool)
        ensures
            r == (self.state() == TcpState::Established || self.state() == TcpState::CloseWait),
    {
        match self.current_state {
            TcpState::Established | TcpState::CloseWait => true,
            _ => false,
        }
    }

    /// Data may arrive while the peer has not closed: in `Established`,
    /// `FinWait1` and `FinWait2`.
    pub fn can_receive_data(&self) -> (r: bool)
        ensures
            r == (self.state() == TcpState::Established || self.state() == TcpState::FinWait1
                || self.state() == TcpState::FinWait2),
    {
        match self.current_state {
            TcpState::Established | TcpState::FinWait1 | TcpState::FinWait2 => true,
            _ => false,
        }
    }

    fn apply(&mut self, event: TcpEvent) -> (r: Result<(), String>)
        requires
            old(self).wf(),
        ensures
            final(self).wf(),
            old(self).event_outcome(final(self), event, r),
    {
        match self.transition(event) {
            Ok(_) => Ok(()),
            Err(message) => Err(message),
        }
    }

    /// The application connects: `Closed` to `SynSent`.
    pub fn active_open(&mut self) -> (r: Result<(), String>)
        requires
            old(self).wf(),
        ensures
            final(self).wf(),
            old(self).event_outcome(final(self), TcpEvent::Connect, r),
    {
        self.apply(TcpEvent::Connect)
    }

    /// The peer's SYN/ACK arrives: `SynSent` to `Established`.
    pub fn complete_active_open(&mut self) -> (r: Result<(), String>)
        requires
            old(self).wf(),
        ensures
            final(self).wf(),
            old(self).event_outcome(final(self), TcpEvent::ReceiveSynAck, r),
    {
        self.apply(TcpEvent::ReceiveSynAck)
    }

    /// The application listens: `Closed` to `Listen`.
    pub fn passive_open(&mut self) -> (r: Result<(), String>)
        requires
            old(self).wf(),
        ensures
            final(self).wf(),
            old(self).event_outcome(final(self), TcpEvent::Listen, r),
    {
        self.apply(TcpEvent::Listen)
    }

    /// The ACK of our SYN/ACK arrives: `SynReceived` to `Established`.
    pub fn accept_connection(&mut self) -> (r: Result<(), String>)
        requires
            old(self).wf(),
        ensures
            final(self).wf(),
            old(self).event_outcome(final(self), TcpEvent::ReceiveAck, r),
    {
        self.apply(TcpEvent::ReceiveAck)
    }

    /// A SYN arrives: while we wait for a SYN/ACK, `SynSent` to `SynReceived`.
    pub fn simultaneous_open(&mut self) -> (r: Result<(), String>)
        requires
            old(self).wf(),
        ensures
            final(self).wf(),
            old(self).event_outcome(final(self), TcpEvent::ReceiveSyn, r),
    {
        self.apply(TcpEvent::ReceiveSyn)
    }

    /// The application closes: `Established` to `FinWait1`.
    pub fn active_close(&mut self) -> (r: Result<(), String>)
        requires
            old(self).wf(),
        ensures
            final(self).wf(),
            old(self).event_outcome(final(self), TcpEvent::Close, r),
    {
        self.apply(TcpEvent::Close)
    }

    /// The peer's FIN arrives: `Established` to `CloseWait`.
    pub fn passive_close(&mut self) -> (r: Result<(), String>)
        requires
            old(self).wf(),
        ensures
            final(self).wf(),
            old(self).event_outcome(final(self), TcpEvent::ReceiveFin, r),
    {
        self.apply(TcpEvent::ReceiveFin)
    }

    /// The peer's FIN arrives after ours left: `FinWait1` to `Closing`.
    pub fn simultaneous_close(&mut self) -> (r: Result<(), String>)
        requires
            old(self).wf(),
        ensures
            final(self).wf(),
            old(self).event_outcome(final(self), TcpEvent::ReceiveFin, r),
    {
        self.apply(TcpEvent::ReceiveFin)
    }

    /// A reset arrives.
    pub fn handle_reset(&mut self) -> (r: Result<(), String>)
        requires
            old(self).wf(),
        ensures
            final(self).wf(),
            r is Ok,
            old(self).event_outcome(final(self), TcpEvent::ReceiveRst, r),
    {
        self.apply(TcpEvent::ReceiveRst)
    }

    /// A timer expires. An opening that got no answer (`SynSent`,
    /// `SynReceived`) is given up and the wait in `TimeWait` ends: the machine
    /// closes and logs the step. In any other state the timeout is refused and
    /// nothing changes.
    #[verifier::rlimit(50)]
    pub fn handle_timeout(&mut self) -> (r: Result<(), String>)
        requires
            old(self).wf(),
        ensures
            final(self).wf(),
            match timeout_target(old(self).state()) {
                Some(target) => r is Ok && old(self).stepped(
                    final(self),
                    TcpEvent::Timeout,
                    target,
                ),
                None => {
                    &&& r matches Err(message)
                    &&& message@ == invalid_transition_text(old(self).state(), TcpEvent::Timeout)
                    &&& old(self).unchanged(final(self))
                },
            },
    {
        let old_state = self.current_state;
        match old_state {
            TcpState::SynSent | TcpState::SynReceived | TcpState::TimeWait => {
                proof {
                    lemma_walk_push(
                        self.state_history@,
                        (old_state, TcpState::Closed, TcpEvent::Timeout),
                    );
                }
                self.current_state = TcpState::Closed;
                self.state_history.push((old_state, TcpState::Closed, TcpEvent::Timeout));
                Ok(())
            },
            _ => Err(invalid_transition_message(old_state, TcpEvent::Timeout)),
        }
    }

    /// The log, oldest line first.
    pub fn get_state_history(&self) -> (r: &[Transition])
        ensures
            r@ == self.history(),
    {
        self.state_history.as_slice()
    }

    /// The log as text, one line for each step, such as
    /// `1. Closed --[Connect]--> SynSent`. The caller prints it.
    #[verifier::rlimit(50)]
    pub fn print_state_diagram(&self) -> (r: String)
        ensures
            r@ == diagram_text(self.history(), self.history().len()),
    {
        let mut out = String::new();
        let mut i: usize = 0;
        while i < self.state_history.len()
            invariant
                i <= self.state_history.len(),
                out@ == diagram_text(self.state_history@, i as nat),
            decreases self.state_history.len() - i,
        {
            push_diagram_line(&mut out, i + 1, self.state_history[i]);
            i = i + 1;
        }
        out
    }
}

/// Every step that `transition` logs is a step of the table, and from every
/// state each event has at most the one target that the table gives.
pub proof fn lemma_transition_follows_table(
    before: TcpStateMachine,
    after: TcpStateMachine,
    event: TcpEvent,
    result: Result<TcpState, String>,
)
    requires
        before.wf(),
        before.transition_outcome(&after, event, result),
    ensures
        result is Ok <==> transition_target(before.state(), event) is Some,
        result is Ok ==> after.history().len() == before.history().len() + 1
            && after.history().last() == (before.state(), after.state(), event)
            && transition_target(before.state(), event) == Some(after.state()),
        result is Err ==> after.state() == before.state() && after.history() == before.history(),
{
}

} // verus!
