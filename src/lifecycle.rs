use vstd::prelude::*;

verus! {

/// Where the service stands in its start, serve, drain and stop sequence.
#[derive(Clone, Copy, Debug, PartialEq, Eq, Structural)]
pub enum Phase {
    Starting,
    Serving,
    Draining,
    Stopped,
}

/// The termination signals that the service listens for.
#[derive(Clone, Copy, Debug, PartialEq, Eq, Structural)]
pub enum Signal {
    Interrupt,
    Terminate,
}

/// What the outside world reports to the lifecycle.
#[derive(Clone, Copy, Debug, PartialEq, Eq, Structural)]
pub enum Event {
    /// The signal handlers were registered.
    SignalsSubscribed,
    /// The signal handlers could not be registered.
    SignalSubscriptionFailed,
    /// The listener was bound to its address.
    Bound,
    /// The listener could not be bound.
    BindFailed,
    /// A termination signal arrived.
    SignalReceived(Signal),
    /// A new connection asks to be accepted.
    ConnectionOffered,
    /// An accepted connection has sent its whole response.
    ConnectionFinished,
    /// The serving task has returned.
    ServerFinished,
}

/// What the lifecycle asks the outside world to do next.
#[derive(Clone, Copy, Debug, PartialEq, Eq, Structural)]
pub enum Action {
    /// Bind the listener.
    Bind,
    /// Start the serving task on the bound listener.
    LaunchServer,
    /// Give up: startup failed, exit with a non-zero status.
    Fail,
    /// Accept the offered connection and serve it.
    AcceptConnection,
    /// Do not accept the offered connection.
    RefuseConnection,
    /// Stop accepting connections and let those in flight complete.
    StopAccepting,
    /// Everything is done: exit normally.
    Exit,
    /// Nothing to do; wait for the next event.
    Wait,
}

/// The lifecycle's state: its phase, whether the signal handlers are in
/// place, and how many accepted connections are still being served.
#[derive(Clone, Copy, Debug, PartialEq, Eq, Structural)]
pub struct Lifecycle {
    pub phase: Phase,
    pub signals_ready: bool,
    pub in_flight: u64,
}

/// The next state and the action for one event.
pub open spec fn next(s: Lifecycle, e: Event) -> (Lifecycle, Action) {
    match s.phase {
        Phase::Starting => match e {
            Event::SignalsSubscribed => (Lifecycle { signals_ready: true, ..s }, Action::Bind),
            Event::SignalSubscriptionFailed => (Lifecycle { phase: Phase::Stopped, ..s }, Action::Fail),
            Event::Bound => if s.signals_ready {
                (Lifecycle { phase: Phase::Serving, ..s }, Action::LaunchServer)
            } else {
                (Lifecycle { phase: Phase::Stopped, ..s }, Action::Fail)
            },
            Event::BindFailed => (Lifecycle { phase: Phase::Stopped, ..s }, Action::Fail),
            _ => (s, Action::Wait),
        },
        Phase::Serving => match e {
            Event::SignalReceived(_) => (Lifecycle { phase: Phase::Draining, ..s }, Action::StopAccepting),
            Event::ConnectionOffered => if s.in_flight < u64::MAX {
                (Lifecycle { in_flight: (s.in_flight + 1) as u64, ..s }, Action::AcceptConnection)
            } else {
                (s, Action::RefuseConnection)
            },
            Event::ConnectionFinished => finish_one(s),
            Event::ServerFinished => stop_when_drained(s),
            _ => (s, Action::Wait),
        },
        Phase::Draining => match e {
            Event::ConnectionOffered => (s, Action::RefuseConnection),
            Event::ConnectionFinished => finish_one(s),
            Event::ServerFinished => stop_when_drained(s),
            _ => (s, Action::Wait),
        },
        Phase::Stopped => match e {
            Event::ConnectionOffered => (s, Action::RefuseConnection),
            _ => (s, Action::Wait),
        },
    }
}

pub open spec fn finish_one(s: Lifecycle) -> (Lifecycle, Action) {
    if s.in_flight > 0 {
        (Lifecycle { in_flight: (s.in_flight - 1) as u64, ..s }, Action::Wait)
    } else {
        (s, Action::Wait)
    }
}

pub open spec fn stop_when_drained(s: Lifecycle) -> (Lifecycle, Action) {
    if s.in_flight == 0 {
        (Lifecycle { phase: Phase::Stopped, ..s }, Action::Exit)
    } else {
        (s, Action::Wait)
    }
}

impl Lifecycle {
    /// The initial state: starting, no signal handlers yet, nothing in flight.
    pub fn new() -> (s: Lifecycle)
        ensures
            s == (Lifecycle { phase: Phase::Starting, signals_ready: false, in_flight: 0 }),
    {
        Lifecycle { phase: Phase::Starting, signals_ready: false, in_flight: 0 }
    }

    /// Whether a connection offered now would be accepted.
    pub fn accepting(&self) -> (r: bool)
        ensures
            r == (self.phase == Phase::Serving && self.in_flight < u64::MAX),
    {
        self.phase == Phase::Serving && self.in_flight < u64::MAX
    }

    /// Takes one event, moves to the next state and says what to do.
    pub fn step(&mut self, e: Event) -> (a: Action)
        ensures
            (*final(self), a) == next(*old(self), e),
    {
        let s = *self;
        let (n, a) = match s.phase {
            Phase::Starting => match e {
                Event::SignalsSubscribed => (Lifecycle { signals_ready: true, ..s }, Action::Bind),
                Event::SignalSubscriptionFailed => (Lifecycle { phase: Phase::Stopped, ..s }, Action::Fail),
                Event::Bound => if s.signals_ready {
                    (Lifecycle { phase: Phase::Serving, ..s }, Action::LaunchServer)
                } else {
                    (Lifecycle { phase: Phase::Stopped, ..s }, Action::Fail)
                },
                Event::BindFailed => (Lifecycle { phase: Phase::Stopped, ..s }, Action::Fail),
                _ => (s, Action::Wait),
            },
            Phase::Serving => match e {
                Event::SignalReceived(_) => (Lifecycle { phase: Phase::Draining, ..s }, Action::StopAccepting),
                Event::ConnectionOffered => if s.in_flight < u64::MAX {
                    (Lifecycle { in_flight: s.in_flight + 1, ..s }, Action::AcceptConnection)
                } else {
                    (s, Action::RefuseConnection)
                },
                Event::ConnectionFinished => Self::exec_finish_one(s),
                Event::ServerFinished => Self::exec_stop_when_drained(s),
                _ => (s, Action::Wait),
            },
            Phase::Draining => match e {
                Event::ConnectionOffered => (s, Action::RefuseConnection),
                Event::ConnectionFinished => Self::exec_finish_one(s),
                Event::ServerFinished => Self::exec_stop_when_drained(s),
                _ => (s, Action::Wait),
            },
            Phase::Stopped => match e {
                Event::ConnectionOffered => (s, Action::RefuseConnection),
                _ => (s, Action::Wait),
            },
        };
        *self = n;
        a
    }

    fn exec_finish_one(s: Lifecycle) -> (r: (Lifecycle, Action))
        ensures
            r == finish_one(s),
    {
        if s.in_flight > 0 {
            (Lifecycle { in_flight: s.in_flight - 1, ..s }, Action::Wait)
        } else {
            (s, Action::Wait)
        }
    }

    fn exec_stop_when_drained(s: Lifecycle) -> (r: (Lifecycle, Action))
        ensures
            r == stop_when_drained(s),
    {
        if s.in_flight == 0 {
            (Lifecycle { phase: Phase::Stopped, ..s }, Action::Exit)
        } else {
            (s, Action::Wait)
        }
    }
}

/// The state after a sequence of events, taken in order.
pub open spec fn run(s: Lifecycle, evs: Seq<Event>) -> Lifecycle
    decreases evs.len(),
{
    if evs.len() == 0 {
        s
    } else {
        run(next(s, evs[0]).0, evs.drop_first())
    }
}

/// Whether any event of the sequence, taken in order from `s`, gets a
/// connection accepted.
pub open spec fn accepts_any(s: Lifecycle, evs: Seq<Event>) -> bool
    decreases evs.len(),
{
    if evs.len() == 0 {
        false
    } else {
        next(s, evs[0]).1 == Action::AcceptConnection || accepts_any(next(s, evs[0]).0, evs.drop_first())
    }
}

/// How many connections the sequence reports as finished.
pub open spec fn finished_count(evs: Seq<Event>) -> nat
    decreases evs.len(),
{
    if evs.len() == 0 {
        0
    } else {
        finished_count(evs.drop_first()) + if evs[0] == Event::ConnectionFinished { 1nat } else { 0nat }
    }
}

/// Once a termination signal has been taken, no connection is accepted any
/// more, and the lifecycle never goes back to serving.
pub proof fn lemma_no_accept_after_signal(s: Lifecycle, evs: Seq<Event>)
    requires
        s.phase == Phase::Draining || s.phase == Phase::Stopped,
    ensures
        !accepts_any(s, evs),
        run(s, evs).phase == Phase::Draining || run(s, evs).phase == Phase::Stopped,
    decreases evs.len(),
{
    if evs.len() > 0 {
        lemma_no_accept_after_signal(next(s, evs[0]).0, evs.drop_first());
    }
}

/// A signal taken while serving starts the drain: accepting stops, and the
/// connections in flight stay counted.
pub proof fn lemma_signal_starts_drain(s: Lifecycle, sig: Signal)
    requires
        s.phase == Phase::Serving,
    ensures
        next(s, Event::SignalReceived(sig)).0.phase == Phase::Draining,
        next(s, Event::SignalReceived(sig)).0.in_flight == s.in_flight,
        next(s, Event::SignalReceived(sig)).1 == Action::StopAccepting,
{
}

/// A drain ends only after every connection in flight when it began has been
/// reported finished: the lifecycle stops with nothing in flight.
pub proof fn lemma_drain_completes_in_flight(s: Lifecycle, evs: Seq<Event>)
    requires
        s.phase == Phase::Draining,
        run(s, evs).phase == Phase::Stopped,
    ensures
        finished_count(evs) >= s.in_flight,
        run(s, evs).in_flight == 0,
    decreases evs.len(),
{
    if evs.len() > 0 {
        let n = next(s, evs[0]).0;
        if n.phase == Phase::Draining {
            lemma_drain_completes_in_flight(n, evs.drop_first());
        } else {
            lemma_stopped_stays(n, evs.drop_first());
        }
    }
}

proof fn lemma_stopped_stays(s: Lifecycle, evs: Seq<Event>)
    requires
        s.phase == Phase::Stopped,
    ensures
        run(s, evs) == s,
    decreases evs.len(),
{
    if evs.len() > 0 {
        lemma_stopped_stays(next(s, evs[0]).0, evs.drop_first());
    }
}

} // verus!
