use fwends_backend::lifecycle::{Action, Event, Lifecycle, Phase, Signal};

fn started() -> Lifecycle {
    let mut s = Lifecycle::new();
    assert_eq!(s.step(Event::SignalsSubscribed), Action::Bind);
    assert_eq!(s.step(Event::Bound), Action::LaunchServer);
    assert_eq!(s.phase, Phase::Serving);
    s
}

#[test]
fn normal_start_and_stop() {
    let mut s = started();
    assert!(s.accepting());
    assert_eq!(s.step(Event::SignalReceived(Signal::Terminate)), Action::StopAccepting);
    assert_eq!(s.phase, Phase::Draining);
    assert!(!s.accepting());
    assert_eq!(s.step(Event::ServerFinished), Action::Exit);
    assert_eq!(s.phase, Phase::Stopped);
}

#[test]
fn in_flight_connection_drains_before_exit() {
    let mut s = started();
    assert_eq!(s.step(Event::ConnectionOffered), Action::AcceptConnection);
    assert_eq!(s.in_flight, 1);
    assert_eq!(s.step(Event::SignalReceived(Signal::Interrupt)), Action::StopAccepting);
    assert_eq!(s.step(Event::ConnectionOffered), Action::RefuseConnection);
    assert_eq!(s.in_flight, 1);
    assert_eq!(s.step(Event::ServerFinished), Action::Wait);
    assert_eq!(s.phase, Phase::Draining);
    assert_eq!(s.step(Event::ConnectionFinished), Action::Wait);
    assert_eq!(s.in_flight, 0);
    assert_eq!(s.step(Event::ServerFinished), Action::Exit);
    assert_eq!(s.phase, Phase::Stopped);
    assert_eq!(s.step(Event::ConnectionOffered), Action::RefuseConnection);
}

#[test]
fn second_signal_is_ignored() {
    let mut s = started();
    assert_eq!(s.step(Event::SignalReceived(Signal::Interrupt)), Action::StopAccepting);
    let before = s;
    assert_eq!(s.step(Event::SignalReceived(Signal::Terminate)), Action::Wait);
    assert_eq!(s, before);
}

#[test]
fn bind_failure_is_fatal() {
    let mut s = Lifecycle::new();
    assert_eq!(s.step(Event::SignalsSubscribed), Action::Bind);
    assert_eq!(s.step(Event::BindFailed), Action::Fail);
    assert_eq!(s.phase, Phase::Stopped);
    assert_eq!(s.step(Event::Bound), Action::Wait);
    assert_eq!(s.phase, Phase::Stopped);
}

#[test]
fn signal_subscription_failure_is_fatal() {
    let mut s = Lifecycle::new();
    assert_eq!(s.step(Event::SignalSubscriptionFailed), Action::Fail);
    assert_eq!(s.phase, Phase::Stopped);
    let mut t = Lifecycle::new();
    assert_eq!(t.step(Event::Bound), Action::Fail);
    assert_eq!(t.phase, Phase::Stopped);
}

#[test]
fn starting_ignores_traffic() {
    let mut s = Lifecycle::new();
    assert!(!s.accepting());
    assert_eq!(s.step(Event::ConnectionOffered), Action::Wait);
    assert_eq!(s.step(Event::SignalReceived(Signal::Interrupt)), Action::Wait);
    assert_eq!(s.phase, Phase::Starting);
}

#[test]
fn full_counter_refuses() {
    let mut s = started();
    s.in_flight = u64::MAX;
    assert!(!s.accepting());
    assert_eq!(s.step(Event::ConnectionOffered), Action::RefuseConnection);
    assert_eq!(s.step(Event::ConnectionFinished), Action::Wait);
    assert_eq!(s.in_flight, u64::MAX - 1);
}
