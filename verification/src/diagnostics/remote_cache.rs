//! Checks that the remote cache is enabled, and links the repository to it.
use crate::diagnostics::{
    accepts_all, fails, logs, stage_after, starts, succeeds, tells_failure, tells_success,
    transcript, Diagnostic, Effect, EffectView, LinkTarget, MessageView, Step, StepView,
};
use vstd::prelude::*;
use vstd::string::StringExecFns;

verus! {

/// Where the diagnostic stands.
#[derive(Debug)]
pub enum RemoteCacheStage {
    Idle,
    /// The terminal has been asked to suspend its output.
    Suspending,
    /// The repository is being linked.
    Linking,
    Finished,
}

/// What the configuration says of the team.
#[derive(Debug)]
pub struct Team {
    pub has_id: bool,
    pub has_slug: bool,
}

/// What the diagnostic is told.
#[derive(Debug)]
pub enum RemoteCacheEvent {
    /// The diagnostic is to begin. Without a team, the configuration cannot be
    /// read.
    Begin(Option<Team>),
    /// The terminal went before it was asked to suspend its output.
    TerminalShut,
    /// The terminal has suspended its output.
    Suspended,
    /// What came of linking the repository.
    Linked(Result<(), String>),
}

/// Looks after the remote cache of the repository that `base` stands for.
pub struct RemoteCacheDiagnostic<B>(pub B);

impl<B> RemoteCacheDiagnostic<B> {
    pub fn new(base: B) -> (diagnostic: Self)
        ensures
            diagnostic.0 == base,
    {
        RemoteCacheDiagnostic(base)
    }
}

/// The name of the diagnostic.
pub open spec fn remote_cache_name() -> Seq<char> {
    "vercel.auth"@
}

/// Links the repository to the remote cache, and leaves what Git ignores as it is.
pub open spec fn links() -> EffectView {
    EffectView::Link { modify_gitignore: false, target: LinkTarget::RemoteCache }
}

impl<B> Diagnostic for RemoteCacheDiagnostic<B> {
    type Stage = RemoteCacheStage;

    type Event = RemoteCacheEvent;

    open spec fn spec_name() -> Seq<char> {
        remote_cache_name()
    }

    open spec fn idle() -> RemoteCacheStage {
        RemoteCacheStage::Idle
    }

    open spec fn finished(stage: RemoteCacheStage) -> bool {
        stage is Finished
    }

    open spec fn accepts(stage: RemoteCacheStage, event: RemoteCacheEvent) -> bool {
        match event {
            RemoteCacheEvent::Begin(_) => stage is Idle,
            RemoteCacheEvent::TerminalShut => stage is Suspending,
            RemoteCacheEvent::Suspended => stage is Suspending,
            RemoteCacheEvent::Linked(_) => stage is Linking,
        }
    }

    open spec fn terminal_gone(event: RemoteCacheEvent) -> bool {
        event is TerminalShut
    }

    open spec fn answer(stage: RemoteCacheStage, event: RemoteCacheEvent) -> StepView<
        RemoteCacheStage,
    > {
        let name = remote_cache_name();
        match event {
            RemoteCacheEvent::Begin(None) => StepView {
                effects: seq![fails(name, "Malformed config file"@)],
                next: RemoteCacheStage::Finished,
            },
            RemoteCacheEvent::Begin(Some(team)) => if team.has_id || team.has_slug {
                StepView {
                    effects: seq![
                        starts(name, "Remote Cache"@),
                        logs(name, "Checking credentials"@),
                        succeeds(name, "Remote Cache Enabled"@),
                    ],
                    next: RemoteCacheStage::Finished,
                }
            } else {
                StepView {
                    effects: seq![
                        starts(name, "Remote Cache"@),
                        logs(name, "Checking credentials"@),
                        logs(name, "Linking to remote cache"@),
                        EffectView::Send(MessageView::Suspend(name)),
                    ],
                    next: RemoteCacheStage::Suspending,
                }
            },
            RemoteCacheEvent::TerminalShut => StepView {
                effects: seq![],
                next: RemoteCacheStage::Finished,
            },
            RemoteCacheEvent::Suspended => StepView {
                effects: seq![logs(name, "Ready to link"@), links()],
                next: RemoteCacheStage::Linking,
            },
            RemoteCacheEvent::Linked(result) => StepView {
                effects: seq![
                    logs(name, "Linked"@),
                    EffectView::Resume,
                    match result {
                        Ok(_) => succeeds(name, "Remote Cache Enabled"@),
                        Err(reason) => fails(name, "Failed to link: "@ + reason@),
                    },
                ],
                next: RemoteCacheStage::Finished,
            },
        }
    }

    proof fn keeps_the_rules(stage: RemoteCacheStage, event: RemoteCacheEvent) {
    }

    fn name() -> (name: &'static str) {
        "vercel.auth"
    }

    fn execute(&self, stage: RemoteCacheStage, event: RemoteCacheEvent) -> (step: Step<
        RemoteCacheStage,
    >) {
        match event {
            RemoteCacheEvent::Begin(None) => Step::to(RemoteCacheStage::Finished).send(
                Self::failed("Malformed config file".to_owned()),
            ),
            RemoteCacheEvent::Begin(Some(team)) => if team.has_id || team.has_slug {
                Step::to(RemoteCacheStage::Finished).send(
                    Self::started("Remote Cache".to_owned()),
                ).send(Self::log_line("Checking credentials".to_owned())).send(
                    Self::done("Remote Cache Enabled".to_owned()),
                )
            } else {
                Step::to(RemoteCacheStage::Suspending).send(
                    Self::started("Remote Cache".to_owned()),
                ).send(Self::log_line("Checking credentials".to_owned())).send(
                    Self::log_line("Linking to remote cache".to_owned()),
                ).send(Self::suspend())
            },
            RemoteCacheEvent::TerminalShut => Step::to(RemoteCacheStage::Finished),
            RemoteCacheEvent::Suspended => Step::to(RemoteCacheStage::Linking).send(
                Self::log_line("Ready to link".to_owned()),
            ).perform(
                Effect::Link { modify_gitignore: false, target: LinkTarget::RemoteCache },
            ),
            RemoteCacheEvent::Linked(result) => {
                let linked = Step::to(RemoteCacheStage::Finished).send(
                    Self::log_line("Linked".to_owned()),
                ).perform(Effect::Resume);
                match result {
                    Ok(_) => linked.send(Self::done("Remote Cache Enabled".to_owned())),
                    Err(reason) => linked.send(
                        Self::failed("Failed to link: ".to_owned().concat(reason.as_str())),
                    ),
                }
            },
        }
    }
}

/// The terminal is told that it may go on exactly when the repository was linked
/// while its output was suspended, and before the diagnostic closes.
pub proof fn output_is_resumed_after_linking<B>(events: Seq<RemoteCacheEvent>)
    requires
        accepts_all::<RemoteCacheDiagnostic<B>>(RemoteCacheStage::Idle, events),
        stage_after::<RemoteCacheDiagnostic<B>>(RemoteCacheStage::Idle, events) is Finished,
    ensures
        ({
            let effects = transcript::<RemoteCacheDiagnostic<B>>(RemoteCacheStage::Idle, events);
            let suspend = EffectView::Send(MessageView::Suspend(remote_cache_name()));
            &&& effects.contains(links()) <==> effects.contains(EffectView::Resume)
            &&& effects.contains(links()) ==> exists|i: int, j: int, k: int|
                0 <= i < j < k < effects.len() - 1 && #[trigger] effects[i] == suspend
                    && #[trigger] effects[j] == links() && #[trigger] effects[k]
                    == EffectView::Resume && effects.last().closing()
        }),
{
    reveal_with_fuel(accepts_all, 5);
    reveal_with_fuel(stage_after, 5);
    reveal_with_fuel(transcript, 5);
    let effects = transcript::<RemoteCacheDiagnostic<B>>(RemoteCacheStage::Idle, events);
    assert(events.len() > 0);
    let one = events.drop_first();
    if events[0] matches RemoteCacheEvent::Begin(Some(team)) && !team.has_id && !team.has_slug {
        assert(one.len() > 0);
        let two = one.drop_first();
        if one[0] is Suspended {
            assert(two.len() > 0);
            let three = two.drop_first();
            assert(three.len() == 0);
            assert(effects.len() == 9);
            assert(effects[5] == links());
            assert(effects[7] == EffectView::Resume);
            assert(effects[3] == EffectView::Send(MessageView::Suspend(remote_cache_name())));
        } else {
            assert(two.len() == 0);
            assert(effects.len() == 4);
        }
    } else {
        assert(one.len() == 0);
    }
}

/// The remote cache is enabled already exactly if the configuration names a team, by
/// its id or by its slug. If it names none, the terminal is asked to suspend its output,
/// and if it cannot be read, that is a failure.
pub proof fn a_team_enables_the_remote_cache<B>(
    stage: RemoteCacheStage,
    team: Option<Team>,
    step: StepView<RemoteCacheStage>,
)
    requires
        step == RemoteCacheDiagnostic::<B>::answer(stage, RemoteCacheEvent::Begin(team)),
    ensures
        tells_success(step.effects) <==> (team matches Some(team) && (team.has_id
            || team.has_slug)),
        tells_failure(step.effects) <==> team is None,
        step.next is Suspending <==> (team matches Some(team) && !team.has_id && !team.has_slug),
        step.next is Suspending || step.next is Finished,
        step.effects.len() == match team {
            None => 1nat,
            Some(team) => if team.has_id || team.has_slug {
                3nat
            } else {
                4nat
            },
        },
        step.next is Suspending ==> step.effects.last() == EffectView::Send(
            MessageView::Suspend(remote_cache_name()),
        ),
        !step.effects.contains(EffectView::Resume),
{
    if let Some(team) = team {
        if team.has_id || team.has_slug {
            assert(step.effects[2] is Send && step.effects[2]->Send_0 is Done);
        }
    } else {
        assert(step.effects[0] is Send && step.effects[0]->Send_0 is Failed);
    }
}

/// Once the output is suspended, the repository is linked to the remote cache, and what
/// Git ignores is left as it is. If the terminal has gone, nothing is done.
pub proof fn the_repository_is_linked_while_output_is_suspended<B>(
    stage: RemoteCacheStage,
    event: RemoteCacheEvent,
    step: StepView<RemoteCacheStage>,
)
    requires
        step == RemoteCacheDiagnostic::<B>::answer(stage, event),
        event is Suspended || event is TerminalShut,
    ensures
        event is Suspended ==> step.next is Linking && !tells_success(step.effects)
            && !tells_failure(step.effects) && (step.effects.last() matches EffectView::Link {
            modify_gitignore,
            target,
        } && !modify_gitignore && target == LinkTarget::RemoteCache),
        event is TerminalShut ==> step.next is Finished && step.effects.len() == 0,
{
}

/// The remote cache is enabled exactly if the repository could be linked, and if not,
/// the reason is told whole. Either way the terminal is told before that it may go on.
pub proof fn linking_decides<B>(
    stage: RemoteCacheStage,
    linked: Result<(), String>,
    step: StepView<RemoteCacheStage>,
)
    requires
        step == RemoteCacheDiagnostic::<B>::answer(stage, RemoteCacheEvent::Linked(linked)),
    ensures
        step.next is Finished,
        step.effects.len() == 3,
        step.effects[0] == EffectView::Send(
            MessageView::LogLine(remote_cache_name(), "Linked"@),
        ),
        step.effects[1] is Resume,
        linked is Ok ==> step.effects[2] == EffectView::Send(
            MessageView::Done(remote_cache_name(), "Remote Cache Enabled"@),
        ),
        linked matches Err(reason) ==> step.effects[2] == EffectView::Send(
            MessageView::Failed(remote_cache_name(), "Failed to link: "@ + reason@),
        ),
{
}

/// The diagnostic keeps what it is made of.
pub proof fn the_base_is_kept<B>(base: B, diagnostic: RemoteCacheDiagnostic<B>)
    requires
        call_ensures(RemoteCacheDiagnostic::<B>::new, (base,), diagnostic),
    ensures
        diagnostic.0 == base,
{
}

} // verus!
