//! Checks that the daemon runs.
use crate::diagnostics::{
    fails, logs, starts, succeeds, tells_failure, tells_success, Diagnostic, Effect, EffectView,
    MessageView, Step, StepView,
};
use crate::text::{decimal, spell};
use vstd::prelude::*;
use vstd::string::StringExecFns;

verus! {

/// Where the diagnostic stands.
#[derive(Debug)]
pub enum DaemonStage {
    Idle,
    /// The daemon is being connected to.
    Connecting,
    /// The daemon has been asked for its status.
    Asking,
    Finished,
}

/// What the diagnostic is told.
#[derive(Debug)]
pub enum DaemonEvent {
    Begin,
    /// Whether the daemon could be connected to, or why not.
    Connected(Result<(), String>),
    /// How long the daemon has run, in milliseconds, or why it would not say.
    Status(Result<u64, String>),
}

/// Looks after the daemon whose files are in this directory.
pub struct DaemonDiagnostic(pub String);

/// The name of the diagnostic.
pub open spec fn daemon_name() -> Seq<char> {
    "turbo.daemon"@
}

impl Diagnostic for DaemonDiagnostic {
    type Stage = DaemonStage;

    type Event = DaemonEvent;

    open spec fn spec_name() -> Seq<char> {
        daemon_name()
    }

    open spec fn idle() -> DaemonStage {
        DaemonStage::Idle
    }

    open spec fn finished(stage: DaemonStage) -> bool {
        stage is Finished
    }

    open spec fn accepts(stage: DaemonStage, event: DaemonEvent) -> bool {
        match event {
            DaemonEvent::Begin => stage is Idle,
            DaemonEvent::Connected(_) => stage is Connecting,
            DaemonEvent::Status(_) => stage is Asking,
        }
    }

    open spec fn terminal_gone(event: DaemonEvent) -> bool {
        false
    }

    open spec fn answer(stage: DaemonStage, event: DaemonEvent) -> StepView<DaemonStage> {
        match event {
            DaemonEvent::Begin => StepView {
                effects: seq![
                    starts(daemon_name(), "Turbo Daemon"@),
                    logs(daemon_name(), "Connecting to daemon..."@),
                    logs(daemon_name(), "Getting status..."@),
                    EffectView::Connect {
                        can_start_server: true,
                        can_kill_server: false,
                        pid_file: "turbod.pid"@,
                        sock_file: "turbod.sock"@,
                    },
                ],
                next: DaemonStage::Connecting,
            },
            DaemonEvent::Connected(Ok(_)) => StepView {
                effects: seq![EffectView::GetStatus],
                next: DaemonStage::Asking,
            },
            DaemonEvent::Connected(Err(reason)) => StepView {
                effects: seq![fails(daemon_name(), "Failed to connect to daemon: "@ + reason@)],
                next: DaemonStage::Finished,
            },
            DaemonEvent::Status(Ok(uptime)) => StepView {
                effects: seq![
                    logs(daemon_name(), "Daemon up for "@ + decimal(uptime as nat) + "ms"@),
                    succeeds(daemon_name(), "Daemon is running"@),
                ],
                next: DaemonStage::Finished,
            },
            DaemonEvent::Status(Err(reason)) => StepView {
                effects: seq![fails(daemon_name(), "Failed to get daemon status: "@ + reason@)],
                next: DaemonStage::Finished,
            },
        }
    }

    proof fn keeps_the_rules(stage: DaemonStage, event: DaemonEvent) {
    }

    fn name() -> (name: &'static str) {
        "turbo.daemon"
    }

    fn execute(&self, stage: DaemonStage, event: DaemonEvent) -> (step: Step<DaemonStage>) {
        match event {
            DaemonEvent::Begin => Step::to(DaemonStage::Connecting).send(
                Self::started("Turbo Daemon".to_owned()),
            ).send(Self::log_line("Connecting to daemon...".to_owned())).send(
                Self::log_line("Getting status...".to_owned()),
            ).perform(
                Effect::Connect {
                    can_start_server: true,
                    can_kill_server: false,
                    pid_file: "turbod.pid".to_owned(),
                    sock_file: "turbod.sock".to_owned(),
                },
            ),
            DaemonEvent::Connected(Ok(_)) => Step::to(DaemonStage::Asking).perform(
                Effect::GetStatus,
            ),
            DaemonEvent::Connected(Err(reason)) => Step::to(DaemonStage::Finished).send(
                Self::failed("Failed to connect to daemon: ".to_owned().concat(reason.as_str())),
            ),
            DaemonEvent::Status(Ok(uptime)) => Step::to(DaemonStage::Finished).send(
                Self::log_line(
                    "Daemon up for ".to_owned().concat(spell(uptime).as_str()).concat("ms"),
                ),
            ).send(Self::done("Daemon is running".to_owned())),
            DaemonEvent::Status(Err(reason)) => Step::to(DaemonStage::Finished).send(
                Self::failed("Failed to get daemon status: ".to_owned().concat(reason.as_str())),
            ),
        }
    }
}

/// The daemon is connected to first: it may be started for that, it is not killed, and
/// its files are those that the daemon leaves in its directory. Nothing is closed yet.
pub proof fn the_daemon_is_connected_to_first(
    diagnostic: &DaemonDiagnostic,
    stage: DaemonStage,
    step: Step<DaemonStage>,
)
    requires
        call_ensures(
            <DaemonDiagnostic as Diagnostic>::execute,
            (diagnostic, stage, DaemonEvent::Begin),
            step,
        ),
    ensures
        step.next is Connecting,
        step@.effects.last() matches EffectView::Connect {
            can_start_server,
            can_kill_server,
            pid_file,
            sock_file,
        } && can_start_server && !can_kill_server && pid_file == "turbod.pid"@ && sock_file
            == "turbod.sock"@,
        !tells_failure(step@.effects),
        !tells_success(step@.effects),
{
    assert(step@ == DaemonDiagnostic::answer(stage, DaemonEvent::Begin));
}

/// A daemon that could be connected to is asked for its status. One that could not is a
/// failure, which tells the reason whole.
pub proof fn a_connection_is_used_or_its_failure_told(
    diagnostic: &DaemonDiagnostic,
    stage: DaemonStage,
    connected: Result<(), String>,
    step: Step<DaemonStage>,
)
    requires
        call_ensures(
            <DaemonDiagnostic as Diagnostic>::execute,
            (diagnostic, stage, DaemonEvent::Connected(connected)),
            step,
        ),
    ensures
        step@.effects.len() == 1,
        connected is Ok ==> step.next is Asking && step@.effects[0] is GetStatus,
        connected matches Err(reason) ==> step.next is Finished && step@.effects[0]
            == EffectView::Send(
            MessageView::Failed(daemon_name(), "Failed to connect to daemon: "@ + reason@),
        ),
{
    assert(step@ == DaemonDiagnostic::answer(stage, DaemonEvent::Connected(connected)));
}

/// A daemon that tells its status runs, however long it has, and that time is told in
/// milliseconds. One that does not is a failure, which tells the reason whole.
pub proof fn a_daemon_that_answers_runs(
    diagnostic: &DaemonDiagnostic,
    stage: DaemonStage,
    status: Result<u64, String>,
    step: Step<DaemonStage>,
    spelt: String,
)
    requires
        call_ensures(
            <DaemonDiagnostic as Diagnostic>::execute,
            (diagnostic, stage, DaemonEvent::Status(status)),
            step,
        ),
        status matches Ok(uptime) ==> call_ensures(spell, (uptime,), spelt),
    ensures
        step.next is Finished,
        status is Ok ==> {
            &&& step@.effects.len() == 2
            &&& step@.effects[0] == EffectView::Send(
            MessageView::LogLine(daemon_name(), "Daemon up for "@ + spelt@ + "ms"@),
        )
            &&& step@.effects[1] == EffectView::Send(
            MessageView::Done(daemon_name(), "Daemon is running"@),
        )
        },
        status matches Err(reason) ==> {
            &&& step@.effects.len() == 1
            &&& step@.effects[0] == EffectView::Send(
            MessageView::Failed(daemon_name(), "Failed to get daemon status: "@ + reason@),
        )
        },
{
    assert(step@ == DaemonDiagnostic::answer(stage, DaemonEvent::Status(status)));
}

} // verus!
