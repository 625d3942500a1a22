//! Checks that the newest version is installed, and updates to it.
use crate::diagnostics::{
    asks, fails, logs, puts_question, starts, succeeds, tells_failure, tells_success, yes_and_no,
    yes_or_no, Diagnostic, Effect, EffectView, MessageView, Step, StepView,
};
use crate::text::same_text;
use vstd::prelude::*;
use vstd::string::StringExecFns;

verus! {

/// Where the diagnostic stands.
#[derive(Debug)]
pub enum UpdateStage {
    Idle,
    /// The published versions are being looked up.
    Checking,
    /// The user has been asked whether to update.
    Asking,
    /// The update runs.
    Updating,
    Finished,
}

/// What the diagnostic is told.
#[derive(Debug)]
pub enum UpdateEvent {
    /// The diagnostic is to begin, at this version.
    Begin(String),
    /// The newer version, if there is one, or why that is not known.
    Checked(Result<Option<String>, String>),
    /// The terminal went before it was asked.
    TerminalShut,
    /// The user's answer.
    Answered(String),
    /// The terminal went before it answered.
    AnswerLost,
    /// Whether the update ran and reported success.
    Updated { success: bool },
}

pub struct UpdateDiagnostic();

/// The name of the diagnostic.
pub open spec fn update_name() -> Seq<char> {
    "turbo.update"@
}

/// The arguments of the program that updates.
pub open spec fn update_arguments() -> Seq<Seq<char>> {
    seq!["--yes"@, "@turbo/codemod@latest"@, "update"@]
}

impl UpdateDiagnostic {
    /// The arguments of the program that updates.
    fn arguments() -> (args: Vec<String>)
        ensures
            args.deep_view() == update_arguments(),
    {
        let args = vec![
            "--yes".to_owned(),
            "@turbo/codemod@latest".to_owned(),
            "update".to_owned(),
        ];
        assert(args.deep_view() == update_arguments());
        args
    }
}

impl Diagnostic for UpdateDiagnostic {
    type Stage = UpdateStage;

    type Event = UpdateEvent;

    open spec fn spec_name() -> Seq<char> {
        update_name()
    }

    open spec fn idle() -> UpdateStage {
        UpdateStage::Idle
    }

    open spec fn finished(stage: UpdateStage) -> bool {
        stage is Finished
    }

    /// An answer that was not offered cannot come.
    open spec fn accepts(stage: UpdateStage, event: UpdateEvent) -> bool {
        match event {
            UpdateEvent::Begin(_) => stage is Idle,
            UpdateEvent::Checked(_) => stage is Checking,
            UpdateEvent::TerminalShut => stage is Asking,
            UpdateEvent::Answered(answer) => stage is Asking && yes_or_no().contains(answer@),
            UpdateEvent::AnswerLost => stage is Asking,
            UpdateEvent::Updated { .. } => stage is Updating,
        }
    }

    open spec fn terminal_gone(event: UpdateEvent) -> bool {
        event is TerminalShut || event is AnswerLost
    }

    open spec fn answer(stage: UpdateStage, event: UpdateEvent) -> StepView<UpdateStage> {
        let name = update_name();
        match event {
            UpdateEvent::Begin(version) => StepView {
                effects: seq![
                    starts(name, "Update Turborepo To Latest Version"@),
                    logs(name, "Checking for updates..."@),
                    EffectView::CheckForUpdates {
                        package: "turbo"@,
                        current_version: version@,
                        timeout_secs: None,
                        interval_secs: Some(0),
                    },
                ],
                next: UpdateStage::Checking,
            },
            UpdateEvent::Checked(Ok(Some(version))) => StepView {
                effects: seq![
                    logs(name, "Turborepo "@ + version@ + " is available"@),
                    asks(
                        name,
                        "Would you like to run the codemod automatically?"@,
                        yes_or_no(),
                    ),
                ],
                next: UpdateStage::Asking,
            },
            UpdateEvent::Checked(Ok(None)) => StepView {
                effects: seq![succeeds(name, "Turborepo Updated To Latest Version"@)],
                next: UpdateStage::Finished,
            },
            UpdateEvent::Checked(Err(reason)) => StepView {
                effects: seq![fails(name, "Failed to check for updates: "@ + reason@)],
                next: UpdateStage::Finished,
            },
            UpdateEvent::TerminalShut => StepView { effects: seq![], next: UpdateStage::Finished },
            UpdateEvent::Answered(answer) => if answer@ == "Yes"@ {
                StepView {
                    effects: seq![
                        logs(name, "Updating Turborepo..."@),
                        EffectView::RunCommand("npx"@, update_arguments()),
                    ],
                    next: UpdateStage::Updating,
                }
            } else {
                StepView {
                    effects: seq![fails(name, "Turborepo on old version"@)],
                    next: UpdateStage::Finished,
                }
            },
            UpdateEvent::AnswerLost => StepView { effects: seq![], next: UpdateStage::Finished },
            UpdateEvent::Updated { success } => StepView {
                effects: seq![
                    if success {
                        succeeds(name, "Turborepo Updated To Latest Version"@)
                    } else {
                        fails(name, "Unable to update Turborepo"@)
                    },
                ],
                next: UpdateStage::Finished,
            },
        }
    }

    proof fn keeps_the_rules(stage: UpdateStage, event: UpdateEvent) {
    }

    fn name() -> (name: &'static str) {
        "turbo.update"
    }

    fn execute(&self, stage: UpdateStage, event: UpdateEvent) -> (step: Step<UpdateStage>) {
        match event {
            UpdateEvent::Begin(version) => Step::to(UpdateStage::Checking).send(
                Self::started("Update Turborepo To Latest Version".to_owned()),
            ).send(Self::log_line("Checking for updates...".to_owned())).perform(
                Effect::CheckForUpdates {
                    package: "turbo".to_owned(),
                    current_version: version,
                    timeout_secs: None,
                    interval_secs: Some(0),
                },
            ),
            UpdateEvent::Checked(Ok(Some(version))) => Step::to(UpdateStage::Asking).send(
                Self::log_line(
                    "Turborepo ".to_owned().concat(version.as_str()).concat(" is available"),
                ),
            ).send(
                Self::request(
                    "Would you like to run the codemod automatically?".to_owned(),
                    yes_and_no(),
                ),
            ),
            UpdateEvent::Checked(Ok(None)) => Step::to(UpdateStage::Finished).send(
                Self::done("Turborepo Updated To Latest Version".to_owned()),
            ),
            UpdateEvent::Checked(Err(reason)) => Step::to(UpdateStage::Finished).send(
                Self::failed("Failed to check for updates: ".to_owned().concat(reason.as_str())),
            ),
            UpdateEvent::TerminalShut => Step::to(UpdateStage::Finished),
            UpdateEvent::Answered(answer) => if same_text(answer.as_str(), "Yes") {
                Step::to(UpdateStage::Updating).send(
                    Self::log_line("Updating Turborepo...".to_owned()),
                ).perform(Effect::RunCommand("npx".to_owned(), Self::arguments()))
            } else {
                Step::to(UpdateStage::Finished).send(
                    Self::failed("Turborepo on old version".to_owned()),
                )
            },
            UpdateEvent::AnswerLost => Step::to(UpdateStage::Finished),
            UpdateEvent::Updated { success } => if success {
                Step::to(UpdateStage::Finished).send(
                    Self::done("Turborepo Updated To Latest Version".to_owned()),
                )
            } else {
                Step::to(UpdateStage::Finished).send(
                    Self::failed("Unable to update Turborepo".to_owned()),
                )
            },
        }
    }
}

/// The published versions are looked up every time, for the current version, whichever
/// it is, and without a timeout. Nothing is closed yet.
pub proof fn updates_are_looked_up_every_time(
    diagnostic: &UpdateDiagnostic,
    stage: UpdateStage,
    version: String,
    step: Step<UpdateStage>,
)
    requires
        call_ensures(
            <UpdateDiagnostic as Diagnostic>::execute,
            (diagnostic, stage, UpdateEvent::Begin(version)),
            step,
        ),
    ensures
        step.next is Checking,
        step@.effects.len() == 3,
        step@.effects.last() matches EffectView::CheckForUpdates {
            package,
            current_version,
            timeout_secs,
            interval_secs,
        } && package == "turbo"@ && current_version == version@ && timeout_secs is None
            && interval_secs == Some(0u64),
        !tells_success(step@.effects),
        !tells_failure(step@.effects),
{
    assert(step@ == UpdateDiagnostic::answer(stage, UpdateEvent::Begin(version)));
}

/// If there is no newer version, all is well. If there is one, the user is asked, and it
/// is named. If that is not known, it is a failure, which tells the reason whole.
pub proof fn a_newer_version_is_offered(
    diagnostic: &UpdateDiagnostic,
    stage: UpdateStage,
    checked: Result<Option<String>, String>,
    step: Step<UpdateStage>,
)
    requires
        call_ensures(
            <UpdateDiagnostic as Diagnostic>::execute,
            (diagnostic, stage, UpdateEvent::Checked(checked)),
            step,
        ),
    ensures
        puts_question(step@.effects) <==> checked matches Ok(Some(_)),
        tells_success(step@.effects) <==> checked matches Ok(None),
        tells_failure(step@.effects) <==> checked is Err,
        checked matches Ok(Some(version)) ==> {
            &&& step.next is Asking
            &&& step@.effects.len() == 2
            &&& step@.effects[0] == EffectView::Send(
            MessageView::LogLine(update_name(), "Turborepo "@ + version@ + " is available"@),
        )
            &&& step@.effects.last() matches EffectView::Send(
                MessageView::Request(name, question, answers),
            ) && name == update_name() && question
                == "Would you like to run the codemod automatically?"@ && answers.len() == 2
                && answers[0] == "Yes"@ && answers[1] == "No"@
        },
        checked matches Ok(None) ==> step@.effects.last() == EffectView::Send(
            MessageView::Done(update_name(), "Turborepo Updated To Latest Version"@),
        ),
        !(checked matches Ok(Some(_))) ==> step.next is Finished && step@.effects.len() == 1,
        checked matches Err(reason) ==> step@.effects.last() == EffectView::Send(
            MessageView::Failed(update_name(), "Failed to check for updates: "@ + reason@),
        ),
{
    assert(step@ == UpdateDiagnostic::answer(stage, UpdateEvent::Checked(checked)));
    match checked {
        Ok(Some(_)) => {
            assert(step@.effects[1] is Send && step@.effects[1]->Send_0 is Request);
        },
        Ok(None) => {
            assert(step@.effects[0] is Send && step@.effects[0]->Send_0 is Done);
        },
        Err(_) => {
            assert(step@.effects[0] is Send && step@.effects[0]->Send_0 is Failed);
        },
    }
}

/// The update is run exactly if the user agreed, and any other answer is a failure. If
/// the terminal has gone, nothing is done.
pub proof fn only_consent_updates(
    diagnostic: &UpdateDiagnostic,
    stage: UpdateStage,
    event: UpdateEvent,
    step: Step<UpdateStage>,
)
    requires
        call_ensures(<UpdateDiagnostic as Diagnostic>::execute, (diagnostic, stage, event), step),
        event is Answered || event is TerminalShut || event is AnswerLost,
    ensures
        match event {
            UpdateEvent::Answered(answer) => if answer@ == "Yes"@ {
                step.next is Updating && !tells_failure(step@.effects) && (
                step@.effects.last() matches EffectView::RunCommand(program, args) && program
                    == "npx"@ && args.len() == 3 && args[0] == "--yes"@ && args[1]
                    == "@turbo/codemod@latest"@ && args[2] == "update"@)
            } else {
                step.next is Finished && step@.effects.len() == 1 && tells_failure(step@.effects)
            },
            _ => step.next is Finished && step@.effects.len() == 0,
        },
        !tells_success(step@.effects),
{
    assert(step@ == UpdateDiagnostic::answer(stage, event));
    if let UpdateEvent::Answered(answer) = event {
        if answer@ != "Yes"@ {
            assert(step@.effects[0] is Send && step@.effects[0]->Send_0 is Failed);
        }
    }
}

/// All is well after the update exactly if it ran and reported success.
pub proof fn the_update_decides(
    diagnostic: &UpdateDiagnostic,
    stage: UpdateStage,
    success: bool,
    step: Step<UpdateStage>,
)
    requires
        call_ensures(
            <UpdateDiagnostic as Diagnostic>::execute,
            (diagnostic, stage, UpdateEvent::Updated { success }),
            step,
        ),
    ensures
        step.next is Finished,
        step@.effects.len() == 1,
        step@.effects[0] == EffectView::Send(
            if success {
                MessageView::Done(update_name(), "Turborepo Updated To Latest Version"@)
            } else {
                MessageView::Failed(update_name(), "Unable to update Turborepo"@)
            },
        ),
{
    assert(step@ == UpdateDiagnostic::answer(stage, UpdateEvent::Updated { success }));
}

} // verus!
