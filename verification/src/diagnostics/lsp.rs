//! Checks that the editor extension runs.
use crate::diagnostics::{
    fails, logs, starts, succeeds, tells_failure, tells_success, Diagnostic, Effect, EffectView,
    MessageView, Step, StepView,
};
use crate::text::{signed_decimal, spell_signed};
use vstd::prelude::*;
use vstd::string::StringExecFns;

verus! {

/// Where the diagnostic stands.
#[derive(Debug)]
pub enum LspStage {
    Idle,
    /// The owner of the extension's lock is being looked for.
    Looking,
    Finished,
}

/// What the diagnostic is told.
#[derive(Debug)]
pub enum LspEvent {
    Begin,
    /// The process that owns the lock, if there is one, or why that is not
    /// known.
    Owner(Result<Option<i32>, String>),
}

/// Looks for the extension whose lock is in this directory.
pub struct LSPDiagnostic(pub String);

/// The name of the diagnostic.
pub open spec fn lsp_name() -> Seq<char> {
    "turbo.lsp"@
}

impl Diagnostic for LSPDiagnostic {
    type Stage = LspStage;

    type Event = LspEvent;

    open spec fn spec_name() -> Seq<char> {
        lsp_name()
    }

    open spec fn idle() -> LspStage {
        LspStage::Idle
    }

    open spec fn finished(stage: LspStage) -> bool {
        stage is Finished
    }

    open spec fn accepts(stage: LspStage, event: LspEvent) -> bool {
        match event {
            LspEvent::Begin => stage is Idle,
            LspEvent::Owner(_) => stage is Looking,
        }
    }

    open spec fn terminal_gone(event: LspEvent) -> bool {
        false
    }

    open spec fn answer(stage: LspStage, event: LspEvent) -> StepView<LspStage> {
        match event {
            LspEvent::Begin => StepView {
                effects: seq![
                    starts(lsp_name(), "Turborepo Extension"@),
                    logs(lsp_name(), "Checking if it is running..."@),
                    EffectView::FindOwner("lsp.pid"@),
                ],
                next: LspStage::Looking,
            },
            LspEvent::Owner(Ok(Some(pid))) => StepView {
                effects: seq![
                    succeeds(
                        lsp_name(),
                        "Turborepo Extension is running ("@ + signed_decimal(pid as int) + ")"@,
                    ),
                ],
                next: LspStage::Finished,
            },
            LspEvent::Owner(Ok(None)) => StepView {
                effects: seq![fails(lsp_name(), "Turborepo Extension is not running"@)],
                next: LspStage::Finished,
            },
            LspEvent::Owner(Err(reason)) => StepView {
                effects: seq![fails(lsp_name(), "Failed to get LSP status: "@ + reason@)],
                next: LspStage::Finished,
            },
        }
    }

    proof fn keeps_the_rules(stage: LspStage, event: LspEvent) {
    }

    fn name() -> (name: &'static str) {
        "turbo.lsp"
    }

    fn execute(&self, stage: LspStage, event: LspEvent) -> (step: Step<LspStage>) {
        match event {
            LspEvent::Begin => Step::to(LspStage::Looking).send(
                Self::started("Turborepo Extension".to_owned()),
            ).send(Self::log_line("Checking if it is running...".to_owned())).perform(
                Effect::FindOwner("lsp.pid".to_owned()),
            ),
            LspEvent::Owner(Ok(Some(pid))) => Step::to(LspStage::Finished).send(
                Self::done(
                    "Turborepo Extension is running (".to_owned().concat(
                        spell_signed(pid).as_str(),
                    ).concat(")"),
                ),
            ),
            LspEvent::Owner(Ok(None)) => Step::to(LspStage::Finished).send(
                Self::failed("Turborepo Extension is not running".to_owned()),
            ),
            LspEvent::Owner(Err(reason)) => Step::to(LspStage::Finished).send(
                Self::failed("Failed to get LSP status: ".to_owned().concat(reason.as_str())),
            ),
        }
    }
}

/// The owner of the extension's lock is looked for first. Nothing is closed yet.
pub proof fn the_owner_is_looked_for_first(
    diagnostic: &LSPDiagnostic,
    stage: LspStage,
    step: Step<LspStage>,
)
    requires
        call_ensures(
            <LSPDiagnostic as Diagnostic>::execute,
            (diagnostic, stage, LspEvent::Begin),
            step,
        ),
    ensures
        step.next is Looking,
        step@.effects.last() == EffectView::FindOwner("lsp.pid"@),
        !tells_failure(step@.effects),
        !tells_success(step@.effects),
{
    assert(step@ == LSPDiagnostic::answer(stage, LspEvent::Begin));
}

/// The extension runs exactly if a process owns its lock, whichever it is, and that
/// process is named. If none does, or that is not known, it is a failure, and the reason
/// is told whole.
pub proof fn the_extension_runs_if_it_owns_its_lock(
    diagnostic: &LSPDiagnostic,
    stage: LspStage,
    owner: Result<Option<i32>, String>,
    step: Step<LspStage>,
    spelt: String,
)
    requires
        call_ensures(
            <LSPDiagnostic as Diagnostic>::execute,
            (diagnostic, stage, LspEvent::Owner(owner)),
            step,
        ),
        owner matches Ok(Some(pid)) ==> call_ensures(spell_signed, (pid,), spelt),
    ensures
        step.next is Finished,
        step@.effects.len() == 1,
        match owner {
            Ok(Some(_)) => step@.effects[0] == EffectView::Send(
            MessageView::Done(lsp_name(), "Turborepo Extension is running ("@ + spelt@ + ")"@),
        ),
            Ok(None) => step@.effects[0] == EffectView::Send(
            MessageView::Failed(lsp_name(), "Turborepo Extension is not running"@),
        ),
            Err(reason) => step@.effects[0] == EffectView::Send(
            MessageView::Failed(lsp_name(), "Failed to get LSP status: "@ + reason@),
        ),
        },
{
    assert(step@ == LSPDiagnostic::answer(stage, LspEvent::Owner(owner)));
}

} // verus!
