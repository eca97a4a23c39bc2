//! The life of a running tunnel as a state machine: connect, bind the SOCKS listener and
//! the forwards, serve, close. The application performs each action and reports what
//! came of it; the machine decides what is next and which status to announce.
use vstd::prelude::*;

use crate::connect::{forward_bind_error, port_message, socks_bind_error};
use crate::events::TunnelStatus;
use crate::text::concat_text;

verus! {

/// Where a tunnel's run stands.
#[derive(Clone, Copy, Debug, PartialEq, Eq, Structural)]
pub enum RunStage {
    /// The SSH session is being opened and authenticated.
    Connecting,
    /// The local SOCKS listener is being bound.
    BindingSocks,
    /// The forward at this index of the configured forwards is being bound.
    BindingForwards(usize),
    /// Connected: serving connections until stopped.
    Serving,
    /// The session is being closed.
    Closing,
    /// The run is over.
    Ended,
}

/// What the application reports back.
#[derive(Debug)]
pub enum RunEvent {
    /// The session is open and authenticated.
    SessionReady,
    /// Opening or authenticating the session failed, with this message.
    SessionFailed(String),
    /// The listener asked for was bound.
    Bound,
    /// Binding the listener asked for failed, with this error.
    BindFailed(String),
    /// The tunnel was cancelled, or its command channel closed.
    Stopped,
    /// The SSH session died while serving.
    SessionLost,
    /// Accepting a SOCKS connection failed, with this error.
    AcceptFailed(String),
    /// The session was closed.
    Closed,
}

/// The value of a `RunEvent`.
pub enum RunEventSpec {
    SessionReady,
    SessionFailed(Seq<char>),
    Bound,
    BindFailed(Seq<char>),
    Stopped,
    SessionLost,
    AcceptFailed(Seq<char>),
    Closed,
}

impl View for RunEvent {
    type V = RunEventSpec;

    open spec fn view(&self) -> RunEventSpec {
        match self {
            RunEvent::SessionReady => RunEventSpec::SessionReady,
            RunEvent::SessionFailed(m) => RunEventSpec::SessionFailed(m@),
            RunEvent::Bound => RunEventSpec::Bound,
            RunEvent::BindFailed(m) => RunEventSpec::BindFailed(m@),
            RunEvent::Stopped => RunEventSpec::Stopped,
            RunEvent::SessionLost => RunEventSpec::SessionLost,
            RunEvent::AcceptFailed(m) => RunEventSpec::AcceptFailed(m@),
            RunEvent::Closed => RunEventSpec::Closed,
        }
    }
}

/// What the application is to do next.
#[derive(Clone, Copy, Debug, PartialEq, Eq, Structural)]
pub enum RunAction {
    /// Open and authenticate the SSH session.
    Connect,
    /// Bind the local SOCKS listener on this port.
    BindSocks(u16),
    /// Bind the forward at this index, on this local port.
    BindForward(usize, u16),
    /// Start the forwards' listeners and serve connections.
    Serve,
    /// Close the session, then report `Closed`.
    Disconnect,
    /// Nothing: the event did not concern this stage.
    Wait,
    /// Stop: the run is over.
    Done,
}

/// The outcome of one step: the status to announce (with its message), and the action.
#[derive(Debug)]
pub struct RunStep {
    pub status: Option<TunnelStatus>,
    pub message: Option<String>,
    pub action: RunAction,
}

/// The outcome of one step, as values.
pub struct StepSpec {
    pub stage: RunStage,
    pub status: Option<TunnelStatus>,
    pub message: Option<Seq<char>>,
    pub action: RunAction,
}

/// The step once the SOCKS listener is settled: bind the first forward, or, where
/// there is none, connected.
pub open spec fn after_socks(ports: Seq<u16>) -> StepSpec {
    if ports.len() > 0 {
        StepSpec { stage: RunStage::BindingForwards(0), status: None, message: None, action: RunAction::BindForward(0, ports[0]) }
    } else {
        StepSpec { stage: RunStage::Serving, status: Some(TunnelStatus::Connected), message: None, action: RunAction::Serve }
    }
}

/// The step once the forward at `index` is bound: bind the next, or, after the last,
/// connected.
pub open spec fn after_forward(ports: Seq<u16>, index: int) -> StepSpec {
    if index + 1 < ports.len() {
        StepSpec {
            stage: RunStage::BindingForwards((index + 1) as usize),
            status: None,
            message: None,
            action: RunAction::BindForward((index + 1) as usize, ports[index + 1]),
        }
    } else {
        StepSpec { stage: RunStage::Serving, status: Some(TunnelStatus::Connected), message: None, action: RunAction::Serve }
    }
}

/// The run ends with an error, announced with `message`.
pub open spec fn failed(message: Seq<char>) -> StepSpec {
    StepSpec { stage: RunStage::Ended, status: Some(TunnelStatus::Error), message: Some(message), action: RunAction::Done }
}

/// The event does not concern the stage: nothing changes.
pub open spec fn ignored(stage: RunStage) -> StepSpec {
    StepSpec { stage, status: None, message: None, action: if stage == RunStage::Ended { RunAction::Done } else { RunAction::Wait } }
}

/// The next step of a run with SOCKS port `socks` (if enabled) and forward ports
/// `ports`, at `stage`, on `event`.
pub open spec fn run_transition(socks: Option<u16>, ports: Seq<u16>, stage: RunStage, event: RunEventSpec) -> StepSpec {
    match (stage, event) {
        (RunStage::Connecting, RunEventSpec::SessionReady) => match socks {
            Some(p) => StepSpec { stage: RunStage::BindingSocks, status: None, message: None, action: RunAction::BindSocks(p) },
            None => after_socks(ports),
        },
        (RunStage::Connecting, RunEventSpec::SessionFailed(m)) => failed(m),
        (RunStage::BindingSocks, RunEventSpec::Bound) => after_socks(ports),
        (RunStage::BindingSocks, RunEventSpec::BindFailed(e)) => failed(
            port_message("failed to bind local SOCKS port "@, match socks { Some(p) => p, None => 0 }, e),
        ),
        (RunStage::BindingForwards(i), RunEventSpec::Bound) => after_forward(ports, i as int),
        (RunStage::BindingForwards(i), RunEventSpec::BindFailed(e)) => failed(
            port_message("failed to bind local forward port "@, ports[i as int], e),
        ),
        (RunStage::Serving, RunEventSpec::Stopped) => StepSpec {
            stage: RunStage::Closing,
            status: None,
            message: None,
            action: RunAction::Disconnect,
        },
        (RunStage::Serving, RunEventSpec::SessionLost) => StepSpec {
            stage: RunStage::Closing,
            status: None,
            message: None,
            action: RunAction::Disconnect,
        },
        (RunStage::Serving, RunEventSpec::AcceptFailed(e)) => StepSpec {
            stage: RunStage::Closing,
            status: Some(TunnelStatus::Error),
            message: Some("accept error: "@ + e),
            action: RunAction::Disconnect,
        },
        (RunStage::Closing, RunEventSpec::Closed) => StepSpec {
            stage: RunStage::Ended,
            status: Some(TunnelStatus::Disconnected),
            message: None,
            action: RunAction::Done,
        },
        _ => ignored(stage),
    }
}

/// The state of one tunnel's run.
pub struct TunnelRun {
    socks_port: Option<u16>,
    forward_ports: Vec<u16>,
    stage: RunStage,
}

impl TunnelRun {
    /// The SOCKS port, where SOCKS is enabled.
    pub closed spec fn socks(&self) -> Option<u16> {
        self.socks_port
    }

    /// The local ports of the configured forwards, in order.
    pub closed spec fn ports(&self) -> Seq<u16> {
        self.forward_ports@
    }

    /// The stage the run is at.
    pub closed spec fn stage_of(&self) -> RunStage {
        self.stage
    }

    /// A forward stage names an existing forward, and binding SOCKS means SOCKS is on.
    pub closed spec fn wf(&self) -> bool {
        &&& (self.stage matches RunStage::BindingForwards(i) ==> i < self.forward_ports@.len())
        &&& (self.stage == RunStage::BindingSocks ==> self.socks_port is Some)
    }

    /// A run that is to listen for SOCKS on `socks_port` (if any) and bind
    /// `forward_ports`. It starts connecting, which is announced.
    pub fn start(socks_port: Option<u16>, forward_ports: Vec<u16>) -> (started: (TunnelRun, RunStep))
        ensures
            started.0.wf(),
            started.0.socks() == socks_port,
            started.0.ports() == forward_ports@,
            started.0.stage_of() == RunStage::Connecting,
            started.1.status == Some(TunnelStatus::Connecting),
            started.1.message is None,
            started.1.action == RunAction::Connect,
    {
        (
            TunnelRun { socks_port, forward_ports, stage: RunStage::Connecting },
            RunStep { status: Some(TunnelStatus::Connecting), message: None, action: RunAction::Connect },
        )
    }

    /// The current stage.
    pub fn stage(&self) -> (stage: RunStage)
        ensures
            stage == self.stage_of(),
    {
        self.stage
    }

    fn step_after_socks(&mut self) -> (step: RunStep)
        requires
            old(self).wf(),
        ensures
            final(self).wf(),
            final(self).socks() == old(self).socks(),
            final(self).ports() == old(self).ports(),
            final(self).stage_of() == after_socks(old(self).ports()).stage,
            step.status == after_socks(old(self).ports()).status,
            step.message is None,
            step.action == after_socks(old(self).ports()).action,
    {
        if self.forward_ports.len() > 0 {
            self.stage = RunStage::BindingForwards(0);
            RunStep { status: None, message: None, action: RunAction::BindForward(0, self.forward_ports[0]) }
        } else {
            self.stage = RunStage::Serving;
            RunStep { status: Some(TunnelStatus::Connected), message: None, action: RunAction::Serve }
        }
    }

    /// Takes in what came of the last action, and gives the next step.
    pub fn on_event(&mut self, event: RunEvent) -> (step: RunStep)
        requires
            old(self).wf(),
        ensures
            final(self).wf(),
            final(self).socks() == old(self).socks(),
            final(self).ports() == old(self).ports(),
            ({
                let next = run_transition(old(self).socks(), old(self).ports(), old(self).stage_of(), event@);
                &&& final(self).stage_of() == next.stage
                &&& step.status == next.status
                &&& step.action == next.action
                &&& match step.message {
                    Some(m) => next.message == Some(m@),
                    None => next.message is None,
                }
            }),
            match step.action {
                RunAction::BindForward(k, p) => k < old(self).ports().len() && p == old(self).ports()[k as int]
                    && final(self).stage_of() == RunStage::BindingForwards(k),
                _ => true,
            },
    {
        let count = self.forward_ports.len();
        proof {
            assert(self.forward_ports@.len() == count);
            lemma_forward_binds_follow_ports(self.socks_port, self.forward_ports@, self.stage, event@);
        }
        match (self.stage, event) {
            (RunStage::Connecting, RunEvent::SessionReady) => match self.socks_port {
                Some(p) => {
                    self.stage = RunStage::BindingSocks;
                    RunStep { status: None, message: None, action: RunAction::BindSocks(p) }
                },
                None => self.step_after_socks(),
            },
            (RunStage::Connecting, RunEvent::SessionFailed(m)) => {
                self.stage = RunStage::Ended;
                RunStep { status: Some(TunnelStatus::Error), message: Some(m), action: RunAction::Done }
            },
            (RunStage::BindingSocks, RunEvent::Bound) => self.step_after_socks(),
            (RunStage::BindingSocks, RunEvent::BindFailed(e)) => {
                let port = match self.socks_port {
                    Some(p) => p,
                    None => 0,
                };
                self.stage = RunStage::Ended;
                RunStep { status: Some(TunnelStatus::Error), message: Some(socks_bind_error(port, e.as_str())), action: RunAction::Done }
            },
            (RunStage::BindingForwards(i), RunEvent::Bound) => {
                let n = self.forward_ports.len();
                assert(i < n);
                if i < n - 1 {
                    self.stage = RunStage::BindingForwards(i + 1);
                    RunStep { status: None, message: None, action: RunAction::BindForward(i + 1, self.forward_ports[i + 1]) }
                } else {
                    self.stage = RunStage::Serving;
                    RunStep { status: Some(TunnelStatus::Connected), message: None, action: RunAction::Serve }
                }
            },
            (RunStage::BindingForwards(i), RunEvent::BindFailed(e)) => {
                let port = self.forward_ports[i];
                self.stage = RunStage::Ended;
                RunStep { status: Some(TunnelStatus::Error), message: Some(forward_bind_error(port, e.as_str())), action: RunAction::Done }
            },
            (RunStage::Serving, RunEvent::Stopped) => {
                self.stage = RunStage::Closing;
                RunStep { status: None, message: None, action: RunAction::Disconnect }
            },
            (RunStage::Serving, RunEvent::SessionLost) => {
                self.stage = RunStage::Closing;
                RunStep { status: None, message: None, action: RunAction::Disconnect }
            },
            (RunStage::Serving, RunEvent::AcceptFailed(e)) => {
                self.stage = RunStage::Closing;
                RunStep {
                    status: Some(TunnelStatus::Error),
                    message: Some(concat_text("accept error: ", e.as_str())),
                    action: RunAction::Disconnect,
                }
            },
            (RunStage::Closing, RunEvent::Closed) => {
                self.stage = RunStage::Ended;
                RunStep { status: Some(TunnelStatus::Disconnected), message: None, action: RunAction::Done }
            },
            (RunStage::Ended, _) => RunStep { status: None, message: None, action: RunAction::Done },
            _ => RunStep { status: None, message: None, action: RunAction::Wait },
        }
    }
}

/// Connected is announced only on entering the serving stage, and only on the success
/// of the last thing to set up: the session when nothing is to be bound, else the SOCKS
/// listener when there is no forward, else the last forward.
pub proof fn lemma_connected_only_when_all_bound(socks: Option<u16>, ports: Seq<u16>, stage: RunStage, event: RunEventSpec)
    requires
        stage matches RunStage::BindingForwards(i) ==> i < ports.len(),
        run_transition(socks, ports, stage, event).status == Some(TunnelStatus::Connected),
    ensures
        run_transition(socks, ports, stage, event).stage == RunStage::Serving,
        run_transition(socks, ports, stage, event).action == RunAction::Serve,
        stage != RunStage::Serving,
        (stage == RunStage::Connecting && event == RunEventSpec::SessionReady && socks is None && ports.len() == 0)
            || (stage == RunStage::BindingSocks && event == RunEventSpec::Bound && ports.len() == 0)
            || (stage matches RunStage::BindingForwards(i) && event == RunEventSpec::Bound && i + 1 == ports.len()),
{
}

/// Before the run is connected, a failure ends it at once with an error and no
/// disconnect: the status is Error, the stage Ended, the action Done.
pub proof fn lemma_setup_failure_ends_run(socks: Option<u16>, ports: Seq<u16>, stage: RunStage, detail: Seq<char>)
    requires
        stage == RunStage::Connecting || stage == RunStage::BindingSocks || stage is BindingForwards,
        stage matches RunStage::BindingForwards(i) ==> i < ports.len(),
    ensures
        ({
            let event = if stage == RunStage::Connecting {
                RunEventSpec::SessionFailed(detail)
            } else {
                RunEventSpec::BindFailed(detail)
            };
            let next = run_transition(socks, ports, stage, event);
            &&& next.stage == RunStage::Ended
            &&& next.status == Some(TunnelStatus::Error)
            &&& next.action == RunAction::Done
        }),
{
}

/// An ended run stays ended: no event changes it or announces anything.
pub proof fn lemma_ended_is_final(socks: Option<u16>, ports: Seq<u16>, event: RunEventSpec)
    ensures
        run_transition(socks, ports, RunStage::Ended, event).stage == RunStage::Ended,
        run_transition(socks, ports, RunStage::Ended, event).status is None,
        run_transition(socks, ports, RunStage::Ended, event).action == RunAction::Done,
{
}

/// A connected run that is stopped, or whose session dies, is closed, and announced
/// Disconnected once closed.
pub proof fn lemma_stop_then_disconnected(socks: Option<u16>, ports: Seq<u16>)
    ensures
        run_transition(socks, ports, RunStage::Serving, RunEventSpec::Stopped).stage == RunStage::Closing,
        run_transition(socks, ports, RunStage::Serving, RunEventSpec::Stopped).action == RunAction::Disconnect,
        run_transition(socks, ports, RunStage::Serving, RunEventSpec::SessionLost).stage == RunStage::Closing,
        run_transition(socks, ports, RunStage::Serving, RunEventSpec::SessionLost).action == RunAction::Disconnect,
        run_transition(socks, ports, RunStage::Closing, RunEventSpec::Closed).stage == RunStage::Ended,
        run_transition(socks, ports, RunStage::Closing, RunEventSpec::Closed).status == Some(TunnelStatus::Disconnected),
{
}

/// Forwards are bound in their configured order, each on its own local port: the
/// forward asked for next is the first one (after the session or the SOCKS listener) or
/// the one after the forward just bound, and it is bound on the port configured for it.
pub proof fn lemma_forward_binds_follow_ports(socks: Option<u16>, ports: Seq<u16>, stage: RunStage, event: RunEventSpec)
    requires
        stage matches RunStage::BindingForwards(i) ==> i < ports.len(),
        ports.len() <= usize::MAX,
    ensures
        match run_transition(socks, ports, stage, event).action {
            RunAction::BindForward(k, p) => {
                &&& k < ports.len()
                &&& p == ports[k as int]
                &&& run_transition(socks, ports, stage, event).stage == RunStage::BindingForwards(k)
                &&& event == RunEventSpec::Bound || event == RunEventSpec::SessionReady
                &&& match stage {
                    RunStage::BindingForwards(i) => k == i + 1,
                    _ => k == 0,
                }
            },
            _ => true,
        },
{
}

} // verus!
