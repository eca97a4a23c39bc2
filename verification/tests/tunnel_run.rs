use prodtunnel::events::TunnelStatus;
use prodtunnel::run::{RunAction, RunEvent, RunStage, TunnelRun};

#[test]
fn run_with_socks_and_two_forwards_connects_after_all_binds() {
    let (mut run, step) = TunnelRun::start(Some(1080), vec![8080, 9090]);
    assert_eq!(step.status, Some(TunnelStatus::Connecting));
    assert_eq!(step.action, RunAction::Connect);
    let step = run.on_event(RunEvent::SessionReady);
    assert_eq!((step.status, step.action), (None, RunAction::BindSocks(1080)));
    let step = run.on_event(RunEvent::Bound);
    assert_eq!((step.status, step.action), (None, RunAction::BindForward(0, 8080)));
    let step = run.on_event(RunEvent::Bound);
    assert_eq!((step.status, step.action), (None, RunAction::BindForward(1, 9090)));
    let step = run.on_event(RunEvent::Bound);
    assert_eq!((step.status, step.action), (Some(TunnelStatus::Connected), RunAction::Serve));
    assert_eq!(run.stage(), RunStage::Serving);
    let step = run.on_event(RunEvent::Stopped);
    assert_eq!((step.status, step.action), (None, RunAction::Disconnect));
    let step = run.on_event(RunEvent::Closed);
    assert_eq!((step.status, step.action), (Some(TunnelStatus::Disconnected), RunAction::Done));
    assert_eq!(run.stage(), RunStage::Ended);
    let step = run.on_event(RunEvent::SessionReady);
    assert_eq!((step.status, step.action), (None, RunAction::Done));
}

#[test]
fn run_without_listeners_connects_at_once() {
    let (mut run, _) = TunnelRun::start(None, vec![]);
    let step = run.on_event(RunEvent::SessionReady);
    assert_eq!((step.status, step.action), (Some(TunnelStatus::Connected), RunAction::Serve));
}

#[test]
fn run_failures_before_connecting() {
    let (mut run, _) = TunnelRun::start(Some(1080), vec![]);
    let step = run.on_event(RunEvent::SessionFailed("connect failed: refused".to_string()));
    assert_eq!((step.status, step.action), (Some(TunnelStatus::Error), RunAction::Done));
    assert_eq!(step.message.as_deref(), Some("connect failed: refused"));

    let (mut run, _) = TunnelRun::start(Some(1080), vec![]);
    run.on_event(RunEvent::SessionReady);
    let step = run.on_event(RunEvent::BindFailed("in use".to_string()));
    assert_eq!(step.status, Some(TunnelStatus::Error));
    assert_eq!(step.message.as_deref(), Some("failed to bind local SOCKS port 1080: in use"));
    assert_eq!(step.action, RunAction::Done);

    let (mut run, _) = TunnelRun::start(None, vec![5000, 6000]);
    run.on_event(RunEvent::SessionReady);
    run.on_event(RunEvent::Bound);
    let step = run.on_event(RunEvent::BindFailed("denied".to_string()));
    assert_eq!(step.message.as_deref(), Some("failed to bind local forward port 6000: denied"));
    assert_eq!(run.stage(), RunStage::Ended);
}

#[test]
fn run_accept_failure_reports_then_disconnects() {
    let (mut run, _) = TunnelRun::start(None, vec![]);
    run.on_event(RunEvent::SessionReady);
    let step = run.on_event(RunEvent::AcceptFailed("too many files".to_string()));
    assert_eq!(step.status, Some(TunnelStatus::Error));
    assert_eq!(step.message.as_deref(), Some("accept error: too many files"));
    assert_eq!(step.action, RunAction::Disconnect);
    let step = run.on_event(RunEvent::Closed);
    assert_eq!(step.status, Some(TunnelStatus::Disconnected));
}

#[test]
fn run_ignores_events_of_other_stages() {
    let (mut run, _) = TunnelRun::start(None, vec![]);
    let step = run.on_event(RunEvent::Bound);
    assert_eq!((step.status, step.action), (None, RunAction::Wait));
    assert_eq!(run.stage(), RunStage::Connecting);
}

#[test]
fn run_ends_when_the_session_dies() {
    let (mut run, _) = TunnelRun::start(Some(1080), vec![]);
    run.on_event(RunEvent::SessionReady);
    let step = run.on_event(RunEvent::Bound);
    assert_eq!(step.status, Some(TunnelStatus::Connected));
    let step = run.on_event(RunEvent::SessionLost);
    assert_eq!(step.status, None);
    assert_eq!(step.action, RunAction::Disconnect);
    assert_eq!(run.stage(), RunStage::Closing);
    let step = run.on_event(RunEvent::Closed);
    assert_eq!(step.status, Some(TunnelStatus::Disconnected));
    assert_eq!(step.action, RunAction::Done);
    assert_eq!(run.stage(), RunStage::Ended);
}
