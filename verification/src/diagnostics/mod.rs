//! The checks that look at a developer's set-up, and what they tell the
//! terminal.
//!
//! A diagnostic is a machine: it is handed an event, names the effects that are
//! to be performed in order, and the stage in which it waits for the next
//! event. It ends with exactly one closing message, unless the terminal has
//! gone.
use vstd::prelude::*;

pub mod daemon;
pub mod git_daemon;
pub mod lsp;
pub mod remote_cache;
pub mod update;

verus! {

/// What a diagnostic tells the terminal. The first text is always the name of
/// the diagnostic.
#[derive(Debug)]
pub enum DiagnosticMessage {
    NotApplicable(String, String),
    /// The name of the diagnostic, and a name for people to read.
    Started(String, String),
    LogLine(String, String),
    Done(String, String),
    Failed(String, String),
    /// Asks that terminal output be suspended. The terminal says when it has
    /// stopped, and the diagnostic says when it may go on.
    Suspend(String),
    /// Puts a question to the user, with the answers to choose from.
    Request(String, String, Vec<String>),
}

/// What a message says.
pub enum MessageView {
    NotApplicable(Seq<char>, Seq<char>),
    Started(Seq<char>, Seq<char>),
    LogLine(Seq<char>, Seq<char>),
    Done(Seq<char>, Seq<char>),
    Failed(Seq<char>, Seq<char>),
    Suspend(Seq<char>),
    Request(Seq<char>, Seq<char>, Seq<Seq<char>>),
}

impl View for DiagnosticMessage {
    type V = MessageView;

    open spec fn view(&self) -> MessageView {
        match self {
            DiagnosticMessage::NotApplicable(id, text) => MessageView::NotApplicable(id@, text@),
            DiagnosticMessage::Started(id, text) => MessageView::Started(id@, text@),
            DiagnosticMessage::LogLine(id, text) => MessageView::LogLine(id@, text@),
            DiagnosticMessage::Done(id, text) => MessageView::Done(id@, text@),
            DiagnosticMessage::Failed(id, text) => MessageView::Failed(id@, text@),
            DiagnosticMessage::Suspend(id) => MessageView::Suspend(id@),
            DiagnosticMessage::Request(id, text, options) => MessageView::Request(
                id@,
                text@,
                options.deep_view(),
            ),
        }
    }
}

impl MessageView {
    /// The name of the diagnostic that sent the message.
    pub open spec fn sender(self) -> Seq<char> {
        match self {
            MessageView::NotApplicable(id, _) => id,
            MessageView::Started(id, _) => id,
            MessageView::LogLine(id, _) => id,
            MessageView::Done(id, _) => id,
            MessageView::Failed(id, _) => id,
            MessageView::Suspend(id) => id,
            MessageView::Request(id, _, _) => id,
        }
    }

    /// Whether the message is the last that its diagnostic has to say.
    pub open spec fn closing(self) -> bool {
        self is Done || self is Failed || self is NotApplicable
    }
}

/// What a repository can be linked to.
#[derive(Clone, Copy, Debug, PartialEq, Eq, Structural)]
pub enum LinkTarget {
    RemoteCache,
}

/// Something that is to be done for a diagnostic.
#[derive(Debug)]
pub enum Effect {
    /// Send a message to the terminal. That the terminal has gone matters for a
    /// request and for a suspension only.
    Send(DiagnosticMessage),
    /// Run `git` once with each of these lists of arguments, and report what
    /// all of them wrote.
    RunGit(Vec<Vec<String>>),
    /// Connect to the daemon, whose files have these names in the daemon's
    /// directory.
    Connect { can_start_server: bool, can_kill_server: bool, pid_file: String, sock_file: String },
    /// Ask the daemon for its status.
    GetStatus,
    /// Find the process that owns the lock of this name in the daemon's
    /// directory.
    FindOwner(String),
    /// Link the repository to the target, and have Git ignore what that leaves behind
    /// or not.
    Link { modify_gitignore: bool, target: LinkTarget },
    /// Tell the terminal that it may resume its output.
    Resume,
    /// Ask whether a version of this package is published that is newer than the
    /// current one, unless that was asked less than this many seconds ago. Without a
    /// timeout the registry's own holds.
    CheckForUpdates {
        package: String,
        current_version: String,
        timeout_secs: Option<u64>,
        interval_secs: Option<u64>,
    },
    /// Run a program with these arguments.
    RunCommand(String, Vec<String>),
}

/// What an effect asks for.
pub enum EffectView {
    Send(MessageView),
    RunGit(Seq<Seq<Seq<char>>>),
    Connect {
        can_start_server: bool,
        can_kill_server: bool,
        pid_file: Seq<char>,
        sock_file: Seq<char>,
    },
    GetStatus,
    FindOwner(Seq<char>),
    Link { modify_gitignore: bool, target: LinkTarget },
    Resume,
    CheckForUpdates {
        package: Seq<char>,
        current_version: Seq<char>,
        timeout_secs: Option<u64>,
        interval_secs: Option<u64>,
    },
    RunCommand(Seq<char>, Seq<Seq<char>>),
}

impl View for Effect {
    type V = EffectView;

    open spec fn view(&self) -> EffectView {
        match self {
            Effect::Send(message) => EffectView::Send(message@),
            Effect::RunGit(runs) => EffectView::RunGit(runs.deep_view()),
            Effect::Connect { can_start_server, can_kill_server, pid_file, sock_file } =>
                EffectView::Connect {
                can_start_server: *can_start_server,
                can_kill_server: *can_kill_server,
                pid_file: pid_file@,
                sock_file: sock_file@,
            },
            Effect::GetStatus => EffectView::GetStatus,
            Effect::FindOwner(file) => EffectView::FindOwner(file@),
            Effect::Link { modify_gitignore, target } => EffectView::Link {
                modify_gitignore: *modify_gitignore,
                target: *target,
            },
            Effect::Resume => EffectView::Resume,
            Effect::CheckForUpdates { package, current_version, timeout_secs, interval_secs } =>
                EffectView::CheckForUpdates {
                package: package@,
                current_version: current_version@,
                timeout_secs: *timeout_secs,
                interval_secs: *interval_secs,
            },
            Effect::RunCommand(program, args) => EffectView::RunCommand(
                program@,
                args.deep_view(),
            ),
        }
    }
}

impl EffectView {
    /// Whether the effect sends a diagnostic's last message.
    pub open spec fn closing(self) -> bool {
        self matches EffectView::Send(message) && message.closing()
    }
}

/// What a diagnostic answers to an event: the effects to perform, in order,
/// and the stage in which it then waits.
#[derive(Debug)]
pub struct Step<S> {
    pub effects: Vec<Effect>,
    pub next: S,
}

/// What a step asks for.
#[verifier::ext_equal]
pub struct StepView<S> {
    pub effects: Seq<EffectView>,
    pub next: S,
}

impl<S> View for Step<S> {
    type V = StepView<S>;

    open spec fn view(&self) -> StepView<S> {
        StepView {
            effects: Seq::new(self.effects@.len(), |i: int| self.effects@[i]@),
            next: self.next,
        }
    }
}

impl<S> Step<S> {
    /// A step that only goes to `next`.
    pub(crate) fn to(next: S) -> (step: Self)
        ensures
            step@ == (StepView { effects: seq![], next }),
    {
        let step = Step { effects: Vec::new(), next };
        assert(step@.effects == Seq::<EffectView>::empty());
        step
    }

    /// The step with one more effect.
    pub(crate) fn perform(self, effect: Effect) -> (step: Self)
        ensures
            step@ == (StepView { effects: self@.effects.push(effect@), next: self.next }),
    {
        let mut effects = self.effects;
        effects.push(effect);
        let step = Step { effects, next: self.next };
        assert(step@.effects == self@.effects.push(effect@));
        step
    }

    /// The step with one more message to send.
    pub(crate) fn send(self, message: DiagnosticMessage) -> (step: Self)
        ensures
            step@ == (StepView {
                effects: self@.effects.push(EffectView::Send(message@)),
                next: self.next,
            }),
    {
        self.perform(Effect::Send(message))
    }
}

pub open spec fn starts(name: Seq<char>, text: Seq<char>) -> EffectView {
    EffectView::Send(MessageView::Started(name, text))
}

pub open spec fn logs(name: Seq<char>, text: Seq<char>) -> EffectView {
    EffectView::Send(MessageView::LogLine(name, text))
}

pub open spec fn asks(name: Seq<char>, text: Seq<char>, options: Seq<Seq<char>>) -> EffectView {
    EffectView::Send(MessageView::Request(name, text, options))
}

pub open spec fn succeeds(name: Seq<char>, text: Seq<char>) -> EffectView {
    EffectView::Send(MessageView::Done(name, text))
}

pub open spec fn fails(name: Seq<char>, text: Seq<char>) -> EffectView {
    EffectView::Send(MessageView::Failed(name, text))
}

/// The answers to a question that is simply agreed to or not.
pub open spec fn yes_or_no() -> Seq<Seq<char>> {
    seq!["Yes"@, "No"@]
}

/// The answers to a question that is simply agreed to or not.
pub(crate) fn yes_and_no() -> (options: Vec<String>)
    ensures
        options.deep_view() == yes_or_no(),
{
    let options = vec!["Yes".to_owned(), "No".to_owned()];
    assert(options.deep_view() == yes_or_no());
    options
}

/// What is asked of one step of a diagnostic: its messages carry its name, a
/// closing message stands at the end and finishes the diagnostic, and a
/// diagnostic finishes only with a closing message or because the terminal has
/// gone.
pub open spec fn closes_properly(
    effects: Seq<EffectView>,
    name: Seq<char>,
    finished: bool,
    terminal_gone: bool,
) -> bool {
    &&& forall|i: int|
        0 <= i < effects.len() && (#[trigger] effects[i]) is Send ==> effects[i]->Send_0.sender()
            == name
    &&& forall|i: int|
        0 <= i < effects.len() && (#[trigger] effects[i]).closing() ==> i == effects.len() - 1
            && finished
    &&& finished && !terminal_gone ==> effects.len() > 0 && effects.last().closing()
}

/// What is asked of the first step of a diagnostic: the first thing it does is
/// to say that it has started, or to close.
pub open spec fn opens_properly(effects: Seq<EffectView>) -> bool {
    &&& effects.len() > 0
    &&& effects[0] matches EffectView::Send(message)
    &&& message is Started || message.closing()
}

/// Whether the effect sends what only the first message of a diagnostic can say:
/// that it has started, or that it does not apply.
pub open spec fn opening(effect: EffectView) -> bool {
    effect matches EffectView::Send(message) && (message is Started || message is NotApplicable)
}

/// What is asked of one step of a diagnostic: what only the first message can
/// say is said by nothing but the first effect of the first step.
pub open spec fn opens_once(effects: Seq<EffectView>, first_step: bool) -> bool {
    forall|i: int|
        0 <= i < effects.len() && opening(#[trigger] effects[i]) ==> first_step && i == 0
}

/// A check of the developer's set-up.
pub trait Diagnostic: Sized {
    /// Where the diagnostic stands.
    type Stage;

    /// What it is told.
    type Event;

    /// The name of the diagnostic.
    spec fn spec_name() -> Seq<char>;

    /// The stage before anything has happened.
    spec fn idle() -> Self::Stage;

    /// Whether there is nothing left to do.
    spec fn finished(stage: Self::Stage) -> bool;

    /// Whether the event can come in the stage.
    spec fn accepts(stage: Self::Stage, event: Self::Event) -> bool;

    /// Whether the event says that nobody listens to the diagnostic any more.
    spec fn terminal_gone(event: Self::Event) -> bool;

    /// The answer to an event.
    spec fn answer(stage: Self::Stage, event: Self::Event) -> StepView<Self::Stage>;

    /// Every step keeps to the rules on opening and closing messages, none leads
    /// back to the beginning, and a finished diagnostic takes no event.
    proof fn keeps_the_rules(stage: Self::Stage, event: Self::Event)
        requires
            Self::accepts(stage, event),
        ensures
            !Self::finished(stage),
            closes_properly(
                Self::answer(stage, event).effects,
                Self::spec_name(),
                Self::finished(Self::answer(stage, event).next),
                Self::terminal_gone(event),
            ),
            stage == Self::idle() ==> opens_properly(Self::answer(stage, event).effects),
            opens_once(Self::answer(stage, event).effects, stage == Self::idle()),
            Self::answer(stage, event).next != Self::idle(),
    ;

    /// The name of the diagnostic.
    fn name() -> (name: &'static str)
        ensures
            name@ == Self::spec_name(),
    ;

    /// Answers an event.
    fn execute(&self, stage: Self::Stage, event: Self::Event) -> (step: Step<Self::Stage>)
        requires
            Self::accepts(stage, event),
        ensures
            step@ == Self::answer(stage, event),
    ;

    /// Says that the diagnostic has started.
    fn started(message: String) -> (sent: DiagnosticMessage)
        ensures
            sent@ == MessageView::Started(Self::spec_name(), message@),
    {
        DiagnosticMessage::Started(Self::name().to_owned(), message)
    }

    /// Adds a line to the log.
    fn log_line(message: String) -> (sent: DiagnosticMessage)
        ensures
            sent@ == MessageView::LogLine(Self::spec_name(), message@),
    {
        DiagnosticMessage::LogLine(Self::name().to_owned(), message)
    }

    /// Puts a question to the user.
    fn request(message: String, options: Vec<String>) -> (sent: DiagnosticMessage)
        ensures
            sent@ == MessageView::Request(Self::spec_name(), message@, options.deep_view()),
    {
        DiagnosticMessage::Request(Self::name().to_owned(), message, options)
    }

    /// Asks that terminal output be suspended.
    fn suspend() -> (sent: DiagnosticMessage)
        ensures
            sent@ == MessageView::Suspend(Self::spec_name()),
    {
        DiagnosticMessage::Suspend(Self::name().to_owned())
    }

    /// Closes the diagnostic with success.
    fn done(message: String) -> (sent: DiagnosticMessage)
        ensures
            sent@ == MessageView::Done(Self::spec_name(), message@),
    {
        DiagnosticMessage::Done(Self::name().to_owned(), message)
    }

    /// Closes the diagnostic with a failure.
    fn failed(message: String) -> (sent: DiagnosticMessage)
        ensures
            sent@ == MessageView::Failed(Self::spec_name(), message@),
    {
        DiagnosticMessage::Failed(Self::name().to_owned(), message)
    }

    /// Closes a diagnostic that does not apply here.
    fn not_applicable(message: String) -> (sent: DiagnosticMessage)
        ensures
            sent@ == MessageView::NotApplicable(Self::spec_name(), message@),
    {
        DiagnosticMessage::NotApplicable(Self::name().to_owned(), message)
    }
}

/// Whether a diagnostic in `stage` can be told `events` one after the other.
pub open spec fn accepts_all<D: Diagnostic>(stage: D::Stage, events: Seq<D::Event>) -> bool
    decreases events.len(),
{
    events.len() > 0 ==> {
        &&& D::accepts(stage, events[0])
        &&& accepts_all::<D>(D::answer(stage, events[0]).next, events.drop_first())
    }
}

/// The stage that `events` lead to.
pub open spec fn stage_after<D: Diagnostic>(stage: D::Stage, events: Seq<D::Event>) -> D::Stage
    decreases events.len(),
{
    if events.len() == 0 {
        stage
    } else {
        stage_after::<D>(D::answer(stage, events[0]).next, events.drop_first())
    }
}

/// All the effects of `events`, in order.
pub open spec fn transcript<D: Diagnostic>(stage: D::Stage, events: Seq<D::Event>) -> Seq<
    EffectView,
>
    decreases events.len(),
{
    if events.len() == 0 {
        seq![]
    } else {
        D::answer(stage, events[0]).effects + transcript::<D>(
            D::answer(stage, events[0]).next,
            events.drop_first(),
        )
    }
}

/// Over a whole run, a diagnostic signs all its messages with its name, sends
/// at most one closing message, and does nothing after it. A run that finishes
/// while somebody listens ends with the closing message.
pub proof fn a_run_closes_once<D: Diagnostic>(stage: D::Stage, events: Seq<D::Event>)
    requires
        accepts_all::<D>(stage, events),
        !D::finished(stage),
    ensures
        closes_properly(
            transcript::<D>(stage, events),
            D::spec_name(),
            D::finished(stage_after::<D>(stage, events)),
            exists|i: int| 0 <= i < events.len() && D::terminal_gone(#[trigger] events[i]),
        ),
    decreases events.len(),
{
    if events.len() > 0 {
        let event = events[0];
        let first = D::answer(stage, event);
        let rest = events.drop_first();
        D::keeps_the_rules(stage, event);
        assert(accepts_all::<D>(first.next, rest));
        if rest.len() > 0 {
            D::keeps_the_rules(first.next, rest[0]);
            a_run_closes_once::<D>(first.next, rest);
            let tail = transcript::<D>(first.next, rest);
            let whole = first.effects + tail;
            assert forall|i: int|
                0 <= i < whole.len() && (#[trigger] whole[i]).closing() implies i == whole.len() - 1
                && D::finished(stage_after::<D>(first.next, rest)) by {
                if i < first.effects.len() {
                    assert(whole[i] == first.effects[i]);
                } else {
                    assert(whole[i] == tail[i - first.effects.len()]);
                }
            }
            assert forall|i: int|
                0 <= i < whole.len() && (#[trigger] whole[i]) is Send implies
                whole[i]->Send_0.sender() == D::spec_name() by {
                if i < first.effects.len() {
                    assert(whole[i] == first.effects[i]);
                } else {
                    assert(whole[i] == tail[i - first.effects.len()]);
                }
            }
            if exists|i: int| 0 <= i < rest.len() && D::terminal_gone(#[trigger] rest[i]) {
                let i = choose|i: int| 0 <= i < rest.len() && D::terminal_gone(#[trigger] rest[i]);
                assert(D::terminal_gone(events[i + 1]));
            }
        } else {
            assert(transcript::<D>(first.next, rest) == Seq::<EffectView>::empty());
            assert(first.effects + Seq::<EffectView>::empty() == first.effects);
            assert(stage_after::<D>(first.next, rest) == first.next);
            assert(stage_after::<D>(stage, events) == first.next);
        }
    } else {
        assert(transcript::<D>(stage, events) == Seq::<EffectView>::empty());
    }
}

/// The first thing a diagnostic does is to say that it has started, or to
/// close.
pub proof fn a_run_opens_first<D: Diagnostic>(events: Seq<D::Event>)
    requires
        accepts_all::<D>(D::idle(), events),
        events.len() > 0,
    ensures
        opens_properly(transcript::<D>(D::idle(), events)),
{
    D::keeps_the_rules(D::idle(), events[0]);
}

/// Over a whole run, a diagnostic says at most once that it has started or that it
/// does not apply, and says it first.
pub proof fn a_run_starts_once<D: Diagnostic>(events: Seq<D::Event>)
    requires
        accepts_all::<D>(D::idle(), events),
    ensures
        opens_once(transcript::<D>(D::idle(), events), true),
{
    if events.len() > 0 {
        let first = D::answer(D::idle(), events[0]);
        let rest = events.drop_first();
        D::keeps_the_rules(D::idle(), events[0]);
        assert(accepts_all::<D>(first.next, rest));
        lemma_never_opens_again::<D>(first.next, rest);
        let tail = transcript::<D>(first.next, rest);
        let whole = first.effects + tail;
        assert forall|i: int| 0 <= i < whole.len() && opening(#[trigger] whole[i]) implies i
            == 0 by {
            if i < first.effects.len() {
                assert(whole[i] == first.effects[i]);
            } else {
                assert(whole[i] == tail[i - first.effects.len()]);
            }
        }
    }
}

/// After the first step nothing is said that only the first message can say.
proof fn lemma_never_opens_again<D: Diagnostic>(stage: D::Stage, events: Seq<D::Event>)
    requires
        accepts_all::<D>(stage, events),
        stage != D::idle(),
    ensures
        opens_once(transcript::<D>(stage, events), false),
    decreases events.len(),
{
    if events.len() > 0 {
        let first = D::answer(stage, events[0]);
        let rest = events.drop_first();
        D::keeps_the_rules(stage, events[0]);
        assert(accepts_all::<D>(first.next, rest));
        lemma_never_opens_again::<D>(first.next, rest);
        let tail = transcript::<D>(first.next, rest);
        let whole = first.effects + tail;
        assert forall|i: int| 0 <= i < whole.len() implies !opening(#[trigger] whole[i]) by {
            if i < first.effects.len() {
                assert(whole[i] == first.effects[i]);
            } else {
                assert(whole[i] == tail[i - first.effects.len()]);
            }
        }
    }
}

/// Whether the effects tell the terminal of a failure.
pub open spec fn tells_failure(effects: Seq<EffectView>) -> bool {
    exists|i: int|
        0 <= i < effects.len() && (#[trigger] effects[i]) is Send && effects[i]->Send_0 is Failed
}

/// Whether the effects tell the terminal of a success.
pub open spec fn tells_success(effects: Seq<EffectView>) -> bool {
    exists|i: int|
        0 <= i < effects.len() && (#[trigger] effects[i]) is Send && effects[i]->Send_0 is Done
}

/// Whether the effects put a question to the user.
pub open spec fn puts_question(effects: Seq<EffectView>) -> bool {
    exists|i: int|
        0 <= i < effects.len() && (#[trigger] effects[i]) is Send && effects[i]->Send_0 is Request
}

/// What a diagnostic says carries its name and the text, whole.
pub proof fn messages_carry_name_and_text<D: Diagnostic>(
    text: String,
    options: Vec<String>,
    started: DiagnosticMessage,
    line: DiagnosticMessage,
    question: DiagnosticMessage,
    suspension: DiagnosticMessage,
    success: DiagnosticMessage,
    failure: DiagnosticMessage,
    absence: DiagnosticMessage,
)
    requires
        call_ensures(D::started, (text,), started),
        call_ensures(D::log_line, (text,), line),
        call_ensures(D::request, (text, options), question),
        call_ensures(D::suspend, (), suspension),
        call_ensures(D::done, (text,), success),
        call_ensures(D::failed, (text,), failure),
        call_ensures(D::not_applicable, (text,), absence),
    ensures
        started@ == MessageView::Started(D::spec_name(), text@),
        line@ == MessageView::LogLine(D::spec_name(), text@),
        question@ == MessageView::Request(D::spec_name(), text@, options.deep_view()),
        suspension@ == MessageView::Suspend(D::spec_name()),
        success@ == MessageView::Done(D::spec_name(), text@),
        failure@ == MessageView::Failed(D::spec_name(), text@),
        absence@ == MessageView::NotApplicable(D::spec_name(), text@),
{
}

/// Messages that say the same are of one kind, and have the same name, the same text and
/// the same answers to choose from.
pub proof fn messages_are_seen_whole(a: DiagnosticMessage, b: DiagnosticMessage)
    requires
        a@ == b@,
    ensures
        match (a, b) {
            (
                DiagnosticMessage::NotApplicable(name, text),
                DiagnosticMessage::NotApplicable(other, same),
            ) => name@ == other@ && text@ == same@,
            (DiagnosticMessage::Started(name, text), DiagnosticMessage::Started(other, same)) =>
                name@ == other@ && text@ == same@,
            (DiagnosticMessage::LogLine(name, text), DiagnosticMessage::LogLine(other, same)) =>
                name@ == other@ && text@ == same@,
            (DiagnosticMessage::Done(name, text), DiagnosticMessage::Done(other, same)) => name@
                == other@ && text@ == same@,
            (DiagnosticMessage::Failed(name, text), DiagnosticMessage::Failed(other, same)) => name@
                == other@ && text@ == same@,
            (DiagnosticMessage::Suspend(name), DiagnosticMessage::Suspend(other)) => name@
                == other@,
            (
                DiagnosticMessage::Request(name, text, options),
                DiagnosticMessage::Request(other, same, offered),
            ) => name@ == other@ && text@ == same@ && options.deep_view() == offered.deep_view(),
            _ => false,
        },
{
}

/// The name of the diagnostic that sent a message is the one that the message carries,
/// and a message closes the diagnostic exactly if it says a success, a failure, or that
/// the diagnostic does not apply.
pub proof fn a_message_names_its_sender(
    message: DiagnosticMessage,
    name: String,
    text: String,
    options: Vec<String>,
)
    ensures
        message == DiagnosticMessage::NotApplicable(name, text) ==> message@.sender() == name@
            && message@.closing(),
        message == DiagnosticMessage::Started(name, text) ==> message@.sender() == name@
            && !message@.closing(),
        message == DiagnosticMessage::LogLine(name, text) ==> message@.sender() == name@
            && !message@.closing(),
        message == DiagnosticMessage::Done(name, text) ==> message@.sender() == name@
            && message@.closing(),
        message == DiagnosticMessage::Failed(name, text) ==> message@.sender() == name@
            && message@.closing(),
        message == DiagnosticMessage::Suspend(name) ==> message@.sender() == name@
            && !message@.closing(),
        message == DiagnosticMessage::Request(name, text, options) ==> message@.sender() == name@
            && !message@.closing(),
{
}

/// The effects of a step are seen one by one, in their order, and each with all that it
/// asks for.
pub proof fn effects_are_seen_whole<S>(step: Step<S>, i: int)
    requires
        0 <= i < step.effects@.len(),
    ensures
        step@.next == step.next,
        step@.effects.len() == step.effects@.len(),
        match step.effects@[i] {
            Effect::Send(message) => step@.effects[i] matches EffectView::Send(seen) && seen
                == message@,
            Effect::RunGit(runs) => step@.effects[i] matches EffectView::RunGit(seen) && seen
                == runs.deep_view(),
            Effect::Connect { can_start_server, can_kill_server, pid_file, sock_file } => {
                step@.effects[i] matches EffectView::Connect {
                    can_start_server: start,
                    can_kill_server: kill,
                    pid_file: pid,
                    sock_file: sock,
                } && start == can_start_server && kill == can_kill_server && pid == pid_file@
                    && sock == sock_file@
            },
            Effect::GetStatus => step@.effects[i] is GetStatus,
            Effect::FindOwner(file) => step@.effects[i] matches EffectView::FindOwner(seen) && seen
                == file@,
            Effect::Link { modify_gitignore, target } => {
                step@.effects[i] matches EffectView::Link { modify_gitignore: modify, target: to }
                    && modify == modify_gitignore && to == target
            },
            Effect::Resume => step@.effects[i] is Resume,
            Effect::CheckForUpdates { package, current_version, timeout_secs, interval_secs } => {
                step@.effects[i] matches EffectView::CheckForUpdates {
                    package: name,
                    current_version: version,
                    timeout_secs: timeout,
                    interval_secs: interval,
                } && name == package@ && version == current_version@ && timeout == timeout_secs
                    && interval == interval_secs
            },
            Effect::RunCommand(program, args) => {
                step@.effects[i] matches EffectView::RunCommand(name, given) && name == program@
                    && given == args.deep_view()
            },
        },
{
}

} // verus!
