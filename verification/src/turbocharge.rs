//! What the terminal shows while the diagnostics run.
//!
//! The diagnostics run side by side, and their messages arrive mixed. The
//! terminal shows one diagnostic at a time: a message that is not that
//! diagnostic's turn goes back to the end of the queue.
use crate::diagnostics::{DiagnosticMessage, MessageView};
use vstd::prelude::*;

verus! {

/// The number of diagnostics that are run.
pub const NUM_TASKS: usize = 4;

/// What the terminal is to do with a message.
#[derive(Debug)]
pub enum Display {
    /// Start a spinner with this text.
    StartSpinner(String),
    /// Do nothing.
    Nothing,
    /// Print a line above the spinner.
    PrintLine(String),
    /// Finish the spinner with the text of a success.
    FinishDone(String),
    /// Finish the spinner with the text of a failure.
    FinishFailed(String),
    /// Finish a spinner with a text that says that the diagnostic does not
    /// apply, a new one if there is none.
    FinishNotApplicable { new_spinner: bool, text: String },
    /// Put a question to the user, who chooses one of the options, and send the
    /// answer back.
    Prompt { prompt: String, options: Vec<String> },
    /// Suspend the spinner until the diagnostic says that it may go on.
    SuspendOutput,
    /// Put the message back at the end of the queue.
    Requeue,
}

/// What a display shows.
pub enum DisplayView {
    StartSpinner(Seq<char>),
    Nothing,
    PrintLine(Seq<char>),
    FinishDone(Seq<char>),
    FinishFailed(Seq<char>),
    FinishNotApplicable { new_spinner: bool, text: Seq<char> },
    Prompt { prompt: Seq<char>, options: Seq<Seq<char>> },
    SuspendOutput,
    Requeue,
}

impl View for Display {
    type V = DisplayView;

    open spec fn view(&self) -> DisplayView {
        match self {
            Display::StartSpinner(text) => DisplayView::StartSpinner(text@),
            Display::Nothing => DisplayView::Nothing,
            Display::PrintLine(text) => DisplayView::PrintLine(text@),
            Display::FinishDone(text) => DisplayView::FinishDone(text@),
            Display::FinishFailed(text) => DisplayView::FinishFailed(text@),
            Display::FinishNotApplicable { new_spinner, text } =>
                DisplayView::FinishNotApplicable { new_spinner: *new_spinner, text: text@ },
            Display::Prompt { prompt, options } => DisplayView::Prompt {
                prompt: prompt@,
                options: options.deep_view(),
            },
            Display::SuspendOutput => DisplayView::SuspendOutput,
            Display::Requeue => DisplayView::Requeue,
        }
    }
}

/// What the terminal keeps in mind: the diagnostic it shows, and how many have
/// closed in each way.
pub struct DashboardView {
    pub active: Option<Seq<char>>,
    pub complete: nat,
    pub failed: nat,
    pub not_applicable: nat,
}

impl DashboardView {
    /// The number of diagnostics that have closed.
    pub open spec fn closed(self) -> nat {
        self.complete + self.failed + self.not_applicable
    }

    /// Whether all diagnostics have closed.
    pub open spec fn finished(self) -> bool {
        self.closed() == NUM_TASKS
    }

    /// Whether every diagnostic succeeded or did not apply.
    pub open spec fn fully_turbocharged(self) -> bool {
        self.complete + self.not_applicable == NUM_TASKS
    }

    /// Whether it is the turn of the message.
    pub open spec fn takes(self, message: MessageView) -> bool {
        match self.active {
            Some(id) => message.sender() == id,
            None => message is Started || message is NotApplicable,
        }
    }

    /// What the message changes.
    pub open spec fn after(self, message: MessageView) -> DashboardView {
        if !self.takes(message) {
            self
        } else {
            match message {
                MessageView::Started(id, _) => DashboardView { active: Some(id), ..self },
                MessageView::Done(_, _) => DashboardView {
                    active: None,
                    complete: self.complete + 1,
                    ..self
                },
                MessageView::Failed(_, _) => DashboardView {
                    active: None,
                    failed: self.failed + 1,
                    ..self
                },
                MessageView::NotApplicable(_, _) => DashboardView {
                    not_applicable: self.not_applicable + 1,
                    ..self
                },
                _ => self,
            }
        }
    }

    /// What the terminal is to do with the message.
    pub open spec fn display(self, message: MessageView) -> DisplayView {
        if !self.takes(message) {
            DisplayView::Requeue
        } else {
            match message {
                MessageView::Started(_, name) => if self.active is None {
                    DisplayView::StartSpinner(name)
                } else {
                    DisplayView::Nothing
                },
                MessageView::LogLine(_, line) => DisplayView::PrintLine(line),
                MessageView::Done(_, text) => DisplayView::FinishDone(text),
                MessageView::Failed(_, text) => DisplayView::FinishFailed(text),
                MessageView::NotApplicable(_, text) => DisplayView::FinishNotApplicable {
                    new_spinner: self.active is None,
                    text,
                },
                MessageView::Request(_, prompt, options) => DisplayView::Prompt {
                    prompt,
                    options,
                },
                MessageView::Suspend(_) => DisplayView::SuspendOutput,
            }
        }
    }
}

/// The state of the terminal.
#[derive(Debug)]
pub struct Dashboard {
    active: Option<String>,
    complete: usize,
    failed: usize,
    not_applicable: usize,
}

impl View for Dashboard {
    type V = DashboardView;

    closed spec fn view(&self) -> DashboardView {
        DashboardView {
            active: match self.active {
                Some(id) => Some(id@),
                None => None,
            },
            complete: self.complete as nat,
            failed: self.failed as nat,
            not_applicable: self.not_applicable as nat,
        }
    }
}

impl Dashboard {
    /// No more diagnostics have closed than are run.
    pub open spec fn well_formed(&self) -> bool {
        self@.closed() <= NUM_TASKS
    }

    /// Nothing is shown, and nothing has closed.
    pub fn new() -> (dashboard: Self)
        ensures
            dashboard.well_formed(),
            dashboard@ == (DashboardView {
                active: None,
                complete: 0,
                failed: 0,
                not_applicable: 0,
            }),
    {
        Dashboard { active: None, complete: 0, failed: 0, not_applicable: 0 }
    }

    /// Whether a diagnostic is shown that has this name.
    fn shows(&self, id: &String) -> (yes: bool)
        ensures
            yes == (self@.active == Some(id@)),
    {
        match &self.active {
            Some(active) => *active == *id,
            None => false,
        }
    }

    /// Takes in a message.
    pub fn handle(&mut self, message: &DiagnosticMessage) -> (display: Display)
        requires
            old(self).well_formed(),
            !old(self)@.finished(),
        ensures
            final(self).well_formed(),
            final(self)@ == old(self)@.after(message@),
            display@ == old(self)@.display(message@),
    {
        let idle = self.active.is_none();
        match message {
            DiagnosticMessage::Started(id, name) => if idle {
                self.active = Some(id.clone());
                Display::StartSpinner(name.clone())
            } else if self.shows(id) {
                Display::Nothing
            } else {
                Display::Requeue
            },
            DiagnosticMessage::LogLine(id, line) => if self.shows(id) {
                Display::PrintLine(line.clone())
            } else {
                Display::Requeue
            },
            DiagnosticMessage::Done(id, text) => if self.shows(id) {
                self.complete = self.complete + 1;
                self.active = None;
                Display::FinishDone(text.clone())
            } else {
                Display::Requeue
            },
            DiagnosticMessage::NotApplicable(id, text) => if idle || self.shows(id) {
                self.not_applicable = self.not_applicable + 1;
                Display::FinishNotApplicable { new_spinner: idle, text: text.clone() }
            } else {
                Display::Requeue
            },
            DiagnosticMessage::Failed(id, text) => if self.shows(id) {
                self.failed = self.failed + 1;
                self.active = None;
                Display::FinishFailed(text.clone())
            } else {
                Display::Requeue
            },
            DiagnosticMessage::Request(id, prompt, options) => if self.shows(id) {
                let offered = copy_texts(options);
                Display::Prompt { prompt: prompt.clone(), options: offered }
            } else {
                Display::Requeue
            },
            DiagnosticMessage::Suspend(id) => if self.shows(id) {
                Display::SuspendOutput
            } else {
                Display::Requeue
            },
        }
    }

    /// Whether all diagnostics have closed.
    pub fn finished(&self) -> (yes: bool)
        requires
            self.well_formed(),
        ensures
            yes == self@.finished(),
    {
        self.complete + self.not_applicable + self.failed == NUM_TASKS
    }

    /// Whether every diagnostic succeeded or did not apply.
    pub fn fully_turbocharged(&self) -> (yes: bool)
        requires
            self.well_formed(),
        ensures
            yes == self@.fully_turbocharged(),
    {
        self.complete + self.not_applicable == NUM_TASKS
    }
}

/// The same texts once more.
fn copy_texts(texts: &Vec<String>) -> (copy: Vec<String>)
    ensures
        copy.deep_view() == texts.deep_view(),
{
    let mut copy: Vec<String> = Vec::new();
    let mut i: usize = 0;
    while i < texts.len()
        invariant
            i <= texts@.len(),
            copy@ == texts@.take(i as int),
        decreases texts@.len() - i,
    {
        copy.push(texts[i].clone());
        i += 1;
    }
    assert(copy@ == texts@);
    copy
}

/// The option that the user chose.
pub fn chosen_option(options: Vec<String>, choice: usize) -> (answer: String)
    requires
        choice < options@.len(),
    ensures
        answer@ == options@[choice as int]@,
{
    let mut options = options;
    options.swap_remove(choice)
}

/// A message of another diagnostic than the one that is shown changes nothing
/// and goes back to the queue.
pub proof fn one_diagnostic_at_a_time(dashboard: DashboardView, message: MessageView)
    requires
        dashboard.active matches Some(id) && id != message.sender(),
    ensures
        dashboard.after(message) == dashboard,
        dashboard.display(message) is Requeue,
{
}

/// A message goes back to the queue exactly when it is not its turn, and then
/// nothing has changed.
pub proof fn requeued_unless_taken(dashboard: DashboardView, message: MessageView)
    ensures
        dashboard.display(message) is Requeue <==> !dashboard.takes(message),
        dashboard.display(message) is Requeue ==> dashboard.after(message) == dashboard,
{
}

/// When all diagnostics have closed, all is well unless one of them failed.
pub proof fn fully_turbocharged_unless_one_failed(dashboard: DashboardView)
    requires
        dashboard.finished(),
    ensures
        dashboard.fully_turbocharged() <==> dashboard.failed == 0,
{
}

/// A dashboard with its queue: the messages that wait, those that came in, and
/// those that were taken, each in order.
pub struct Exchange {
    pub dashboard: DashboardView,
    pub queue: Seq<MessageView>,
    pub arrived: Seq<MessageView>,
    pub taken: Seq<MessageView>,
}

/// What happens at the queue.
pub enum Turn {
    /// A diagnostic sends a message.
    Arrive(MessageView),
    /// The terminal looks at the message that has waited longest.
    Look,
}

impl Exchange {
    /// Before anything has happened.
    pub open spec fn start() -> Exchange {
        Exchange {
            dashboard: DashboardView { active: None, complete: 0, failed: 0, not_applicable: 0 },
            queue: seq![],
            arrived: seq![],
            taken: seq![],
        }
    }

    pub open spec fn turn(self, turn: Turn) -> Exchange {
        match turn {
            Turn::Arrive(message) => Exchange {
                queue: self.queue.push(message),
                arrived: self.arrived.push(message),
                ..self
            },
            Turn::Look => if self.queue.len() == 0 {
                self
            } else {
                let message = self.queue[0];
                let rest = self.queue.drop_first();
                Exchange {
                    dashboard: self.dashboard.after(message),
                    queue: if self.dashboard.display(message) is Requeue {
                        rest.push(message)
                    } else {
                        rest
                    },
                    taken: if self.dashboard.display(message) is Requeue {
                        self.taken
                    } else {
                        self.taken.push(message)
                    },
                    ..self
                }
            },
        }
    }

    pub open spec fn turns(self, turns: Seq<Turn>) -> Exchange
        decreases turns.len(),
    {
        if turns.len() == 0 {
            self
        } else {
            self.turns(turns.drop_last()).turn(turns.last())
        }
    }
}

/// The number of closing messages.
pub open spec fn closings(messages: Seq<MessageView>) -> nat
    decreases messages.len(),
{
    if messages.len() == 0 {
        0
    } else {
        closings(messages.drop_last()) + if messages.last().closing() {
            1nat
        } else {
            0nat
        }
    }
}

/// Whatever happens at the queue, every message that came in either waits or
/// was taken once, and the closing messages that were taken are the
/// diagnostics that have closed.
pub proof fn nothing_is_lost(turns: Seq<Turn>)
    ensures
        ({
            let end = Exchange::start().turns(turns);
            &&& end.queue.to_multiset().add(end.taken.to_multiset()) == end.arrived.to_multiset()
            &&& end.dashboard.closed() == closings(end.taken)
        }),
    decreases turns.len(),
{
    broadcast use vstd::seq_lib::group_to_multiset_ensures;

    if turns.len() == 0 {
        assert(Exchange::start().queue.to_multiset().add(Exchange::start().taken.to_multiset())
            =~= Exchange::start().arrived.to_multiset()) by {
            assert(Seq::<MessageView>::empty().to_multiset().len() == 0);
        }
    } else {
        nothing_is_lost(turns.drop_last());
        let before = Exchange::start().turns(turns.drop_last());
        let after = before.turn(turns.last());
        match turns.last() {
            Turn::Arrive(message) => {
                assert(after.queue.to_multiset().add(after.taken.to_multiset())
                    =~= after.arrived.to_multiset());
            },
            Turn::Look => {
                if before.queue.len() > 0 {
                    let message = before.queue[0];
                    assert(before.queue.drop_first() == before.queue.remove(0));
                    assert(before.queue.to_multiset().count(message) > 0) by {
                        assert(before.queue.contains(message));
                    }
                    assert(after.queue.to_multiset().add(after.taken.to_multiset())
                        =~= after.arrived.to_multiset());
                    if before.dashboard.takes(message) {
                        assert(before.taken.push(message).drop_last() == before.taken);
                    }
                }
            },
        }
    }
}

/// The first `n` looks at the queue.
pub open spec fn looks(n: nat) -> Seq<Turn> {
    Seq::new(n, |i: int| Turn::Look)
}

/// A message whose turn it is does not wait for ever: if one is in the queue
/// and no more come in, one is taken before the terminal has looked at every
/// message.
pub proof fn a_ready_message_is_reached(exchange: Exchange, i: int)
    requires
        0 <= i < exchange.queue.len(),
        exchange.dashboard.takes(exchange.queue[i]),
    ensures
        exists|n: nat|
            n <= i + 1 && (#[trigger] exchange.turns(looks(n))).taken.len()
                == exchange.taken.len() + 1,
    decreases i,
{
    let once = exchange.turn(Turn::Look);
    assert(looks(1).drop_last() == looks(0));
    assert(exchange.turns(looks(0)) == exchange);
    assert(exchange.turns(looks(1)) == once) by {
        assert(looks(1).last() == Turn::Look);
    }
    if exchange.dashboard.takes(exchange.queue[0]) {
        assert(exchange.turns(looks(1)).taken.len() == exchange.taken.len() + 1);
    } else {
        assert(once.queue[i - 1] == exchange.queue[i]);
        a_ready_message_is_reached(once, i - 1);
        let n = choose|n: nat|
            n <= i && (#[trigger] once.turns(looks(n))).taken.len() == once.taken.len() + 1;
        lemma_first_look(exchange, n);
        assert(exchange.turns(looks(n + 1)).taken.len() == exchange.taken.len() + 1);
    }
}

/// Looking once and then `n` times is looking `n + 1` times.
proof fn lemma_first_look(exchange: Exchange, n: nat)
    ensures
        exchange.turn(Turn::Look).turns(looks(n)) == exchange.turns(looks(n + 1)),
    decreases n,
{
    assert(looks(n + 1).drop_last() == looks(n));
    assert(looks(n + 1).last() == Turn::Look);
    if n == 0 {
        assert(exchange.turns(looks(0)) == exchange);
    } else {
        lemma_first_look(exchange, (n - 1) as nat);
        assert(looks(n).drop_last() == looks((n - 1) as nat));
        assert(looks(n).last() == Turn::Look);
    }
}

/// Whether the message says that its diagnostic came to an end after it had
/// started.
pub open spec fn ends(message: MessageView) -> bool {
    message is Done || message is Failed
}

impl Exchange {
    /// Whether it waits in the queue that the diagnostic has started.
    pub open spec fn start_waits(self, id: Seq<char>) -> bool {
        exists|i: int|
            0 <= i < self.queue.len() && (#[trigger] self.queue[i]) is Started
                && self.queue[i].sender() == id
    }

    /// Whether it waits in the queue that the diagnostic has ended.
    pub open spec fn end_waits(self, id: Seq<char>) -> bool {
        exists|i: int|
            0 <= i < self.queue.len() && ends(#[trigger] self.queue[i]) && self.queue[i].sender()
                == id
    }

    /// Whether the diagnostics have said all that they have to say, each of
    /// them that it started and that it ended, once: for the one that is shown
    /// the end waits and no start, for the others both wait or neither does.
    /// What does not apply neither starts nor ends. A diagnostic that ends without
    /// having started is left out: see `an_end_without_a_start_is_never_shown`.
    pub open spec fn all_said(self) -> bool {
        &&& forall|i: int, j: int|
            0 <= i < j < self.queue.len() && (#[trigger] self.queue[i]).sender() == (
            #[trigger] self.queue[j]).sender() ==> !(self.queue[i] is Started
                && self.queue[j] is Started) && !(ends(self.queue[i]) && ends(self.queue[j]))
        &&& self.dashboard.active matches Some(id) ==> !self.start_waits(id) && self.end_waits(id)
        &&& forall|i: int|
            0 <= i < self.queue.len() && (#[trigger] self.queue[i]) is Started ==> self.end_waits(
                self.queue[i].sender(),
            )
        &&& forall|i: int|
            0 <= i < self.queue.len() && ends(#[trigger] self.queue[i]) ==> self.dashboard.active
                == Some(self.queue[i].sender()) || self.start_waits(self.queue[i].sender())
    }
}

/// One look changes nothing about what has been said.
proof fn lemma_all_said_stays(exchange: Exchange)
    requires
        exchange.all_said(),
    ensures
        exchange.turn(Turn::Look).all_said(),
{
    let next = exchange.turn(Turn::Look);
    let queue = exchange.queue;
    if queue.len() > 0 {
        let message = queue[0];
        let requeued = !exchange.dashboard.takes(message);
        let last = queue.len() - 1;
        // where a message of the new queue was before
        assert forall|k: int| 0 <= k < next.queue.len() implies #[trigger] next.queue[k] == queue[(
        if k == last {
            0
        } else {
            k + 1
        })] by {}
        // where a message that was not taken is now
        assert forall|id: Seq<char>|
            exchange.start_waits(id) && !(message is Started && message.sender() == id
                && !requeued) implies next.start_waits(id) by {
            let i = choose|i: int|
                0 <= i < queue.len() && (#[trigger] queue[i]) is Started && queue[i].sender() == id;
            let k = if i == 0 {
                last
            } else {
                i - 1
            };
            assert(next.queue[k] == queue[i]);
        }
        assert forall|id: Seq<char>|
            exchange.end_waits(id) && !(ends(message) && message.sender() == id
                && !requeued) implies next.end_waits(id) by {
            let i = choose|i: int|
                0 <= i < queue.len() && ends(#[trigger] queue[i]) && queue[i].sender() == id;
            let k = if i == 0 {
                last
            } else {
                i - 1
            };
            assert(next.queue[k] == queue[i]);
        }
        assert forall|id: Seq<char>| next.start_waits(id) implies exchange.start_waits(id) && !(
        message is Started && message.sender() == id && !requeued) by {
            let k = choose|k: int|
                0 <= k < next.queue.len() && (#[trigger] next.queue[k]) is Started
                    && next.queue[k].sender() == id;
            let i = if k == last {
                0
            } else {
                k + 1
            };
            assert(queue[i] == next.queue[k]);
        }
        assert forall|j: int, k: int|
            0 <= j < k < next.queue.len() && (#[trigger] next.queue[j]).sender() == (
            #[trigger] next.queue[k]).sender() implies !(next.queue[j] is Started
            && next.queue[k] is Started) && !(ends(next.queue[j]) && ends(next.queue[k])) by {
            let a = j + 1;
            let b = if k == last {
                0
            } else {
                k + 1
            };
            assert(next.queue[j] == queue[a]);
            assert(next.queue[k] == queue[b]);
        }
        assert forall|k: int|
            0 <= k < next.queue.len() && (#[trigger] next.queue[k]) is Started implies
            next.end_waits(next.queue[k].sender()) by {
            let i = if k == last {
                0
            } else {
                k + 1
            };
            assert(queue[i] == next.queue[k]);
            assert(exchange.end_waits(queue[i].sender()));
            if ends(message) && message.sender() == queue[i].sender() && !requeued {
                assert(exchange.dashboard.active == Some(message.sender()));
                assert(exchange.start_waits(message.sender()));
            }
        }
        assert forall|k: int|
            0 <= k < next.queue.len() && ends(#[trigger] next.queue[k]) implies
            next.dashboard.active == Some(next.queue[k].sender()) || next.start_waits(
            next.queue[k].sender(),
        ) by {
            let i = if k == last {
                0
            } else {
                k + 1
            };
            assert(queue[i] == next.queue[k]);
            if ends(message) && !requeued {
                assert(message.sender() != queue[i].sender());
            }
        }
        if next.dashboard.active is Some && exchange.dashboard.active is None {
            assert(message is Started);
            assert(next.dashboard.active == Some(message.sender()));
            assert(exchange.end_waits(message.sender()));
        }
    }
}

/// If something waits that closes a diagnostic, then it is the turn of some
/// message that waits.
proof fn lemma_some_turn(exchange: Exchange, k: int) -> (i: int)
    requires
        exchange.all_said(),
        0 <= k < exchange.queue.len(),
        exchange.queue[k].closing(),
    ensures
        0 <= i < exchange.queue.len(),
        exchange.dashboard.takes(exchange.queue[i]),
{
    match exchange.dashboard.active {
        Some(id) => choose|i: int|
            0 <= i < exchange.queue.len() && ends(#[trigger] exchange.queue[i])
                && exchange.queue[i].sender() == id,
        None => if exchange.queue[k] is NotApplicable {
            k
        } else {
            choose|i: int|
                0 <= i < exchange.queue.len() && (#[trigger] exchange.queue[i]) is Started
                    && exchange.queue[i].sender() == exchange.queue[k].sender()
        },
    }
}

/// Looking `n` times keeps what has been said, and the number of messages.
proof fn lemma_looking(exchange: Exchange, n: nat)
    requires
        exchange.all_said(),
    ensures
        exchange.turns(looks(n)).all_said(),
        exchange.turns(looks(n)).queue.len() + exchange.turns(looks(n)).taken.len()
            == exchange.queue.len() + exchange.taken.len(),
    decreases n,
{
    if n > 0 {
        lemma_looking(exchange, (n - 1) as nat);
        assert(looks(n).drop_last() == looks((n - 1) as nat));
        assert(looks(n).last() == Turn::Look);
        lemma_all_said_stays(exchange.turns(looks((n - 1) as nat)));
    } else {
        assert(exchange.turns(looks(0)) == exchange);
    }
}

/// Looking `n` times and then `m` times is looking `n + m` times.
proof fn lemma_look_on(exchange: Exchange, n: nat, m: nat)
    ensures
        exchange.turns(looks(n)).turns(looks(m)) == exchange.turns(looks(n + m)),
    decreases m,
{
    if m > 0 {
        lemma_look_on(exchange, n, (m - 1) as nat);
        assert(looks(m).drop_last() == looks((m - 1) as nat));
        assert(looks(m).last() == Turn::Look);
        assert(looks(n + m).drop_last() == looks((n + m - 1) as nat));
        assert(looks(n + m).last() == Turn::Look);
    } else {
        assert(exchange.turns(looks(n)).turns(looks(0)) == exchange.turns(looks(n)));
    }
}

/// Whether nothing waits that closes a diagnostic.
pub open spec fn nothing_left_to_close(exchange: Exchange) -> bool {
    forall|i: int| 0 <= i < exchange.queue.len() ==> !(#[trigger] exchange.queue[i]).closing()
}

/// Once the diagnostics have said all that they have to say, the terminal comes
/// to the end of each of them.
pub proof fn every_diagnostic_closes(exchange: Exchange)
    requires
        exchange.all_said(),
    ensures
        exists|n: nat| nothing_left_to_close(#[trigger] exchange.turns(looks(n))),
    decreases exchange.queue.len(),
{
    if nothing_left_to_close(exchange) {
        assert(exchange.turns(looks(0)) == exchange);
    } else {
        let k = choose|k: int|
            0 <= k < exchange.queue.len() && (#[trigger] exchange.queue[k]).closing();
        let i = lemma_some_turn(exchange, k);
        a_ready_message_is_reached(exchange, i);
        let n = choose|n: nat|
            n <= i + 1 && (#[trigger] exchange.turns(looks(n))).taken.len() == exchange.taken.len()
                + 1;
        lemma_looking(exchange, n);
        let next = exchange.turns(looks(n));
        every_diagnostic_closes(next);
        let m = choose|m: nat| nothing_left_to_close(#[trigger] next.turns(looks(m)));
        lemma_look_on(exchange, n, m);
        assert(nothing_left_to_close(exchange.turns(looks(n + m))));
    }
}

/// The closing messages of a list, and of one with a message before it.
proof fn lemma_closings_prepended(message: MessageView, messages: Seq<MessageView>)
    ensures
        closings(seq![message] + messages) == closings(seq![message]) + closings(messages),
    decreases messages.len(),
{
    if messages.len() == 0 {
        assert(seq![message] + messages =~= seq![message]);
    } else {
        lemma_closings_prepended(message, messages.drop_last());
        assert((seq![message] + messages).drop_last() =~= seq![message] + messages.drop_last());
    }
}

/// A list without closing messages.
proof fn lemma_no_closings(messages: Seq<MessageView>)
    requires
        forall|i: int| 0 <= i < messages.len() ==> !(#[trigger] messages[i]).closing(),
    ensures
        closings(messages) == 0,
    decreases messages.len(),
{
    if messages.len() > 0 {
        lemma_no_closings(messages.drop_last());
    }
}

/// Every closing message that came in either waits or was taken.
proof fn lemma_closings_kept(turns: Seq<Turn>)
    ensures
        ({
            let end = Exchange::start().turns(turns);
            closings(end.queue) + closings(end.taken) == closings(end.arrived)
        }),
    decreases turns.len(),
{
    if turns.len() > 0 {
        lemma_closings_kept(turns.drop_last());
        let before = Exchange::start().turns(turns.drop_last());
        match turns.last() {
            Turn::Arrive(message) => {
                assert(before.queue.push(message).drop_last() =~= before.queue);
                assert(before.arrived.push(message).drop_last() =~= before.arrived);
            },
            Turn::Look => {
                if before.queue.len() > 0 {
                    let message = before.queue[0];
                    let rest = before.queue.drop_first();
                    lemma_closings_prepended(message, rest);
                    assert(seq![message] + rest =~= before.queue);
                    assert(seq![message].drop_last() =~= Seq::<MessageView>::empty());
                    assert(closings(Seq::<MessageView>::empty()) == 0);
                    assert(seq![message].last() == message);
                    assert(rest.push(message).drop_last() =~= rest);
                    assert(before.taken.push(message).drop_last() =~= before.taken);
                }
            },
        }
    }
}

/// What happens one after the other happens in one go.
proof fn lemma_turns_joined(exchange: Exchange, first: Seq<Turn>, second: Seq<Turn>)
    ensures
        exchange.turns(first).turns(second) == exchange.turns(first + second),
    decreases second.len(),
{
    if second.len() == 0 {
        assert(first + second =~= first);
    } else {
        lemma_turns_joined(exchange, first, second.drop_last());
        assert((first + second).drop_last() =~= first + second.drop_last());
        assert((first + second).last() == second.last());
    }
}

/// Once as many closing messages came in as diagnostics are run, and all has been
/// said, the terminal finishes. It does not if one of them ends without having
/// started, as the remote cache does whose configuration cannot be read.
pub proof fn the_terminal_finishes(turns: Seq<Turn>)
    requires
        Exchange::start().turns(turns).all_said(),
        closings(Exchange::start().turns(turns).arrived) == NUM_TASKS,
    ensures
        exists|n: nat|
            (#[trigger] Exchange::start().turns(turns).turns(looks(n))).dashboard.finished(),
{
    let exchange = Exchange::start().turns(turns);
    every_diagnostic_closes(exchange);
    let n = choose|n: nat| nothing_left_to_close(#[trigger] exchange.turns(looks(n)));
    let end = exchange.turns(looks(n));
    lemma_turns_joined(Exchange::start(), turns, looks(n));
    lemma_closings_kept(turns + looks(n));
    nothing_is_lost(turns + looks(n));
    lemma_no_closings(end.queue);
    lemma_nothing_arrives(exchange, n);
    assert(end.dashboard.finished());
}

/// Nothing comes in while the terminal looks.
proof fn lemma_nothing_arrives(exchange: Exchange, n: nat)
    ensures
        exchange.turns(looks(n)).arrived == exchange.arrived,
    decreases n,
{
    if n > 0 {
        lemma_nothing_arrives(exchange, (n - 1) as nat);
        assert(looks(n).drop_last() == looks((n - 1) as nat));
        assert(looks(n).last() == Turn::Look);
    }
}

/// Whether the end of a diagnostic waits that is not shown, and nothing says that it
/// has started.
pub open spec fn ends_without_start(exchange: Exchange, message: MessageView) -> bool {
    &&& exchange.queue.contains(message)
    &&& ends(message)
    &&& exchange.dashboard.active != Some(message.sender())
    &&& !exchange.start_waits(message.sender())
}

/// Whether the start of a diagnostic comes in.
pub open spec fn start_comes(turn: Turn, id: Seq<char>) -> bool {
    turn matches Turn::Arrive(message) && message is Started && message.sender() == id
}

/// A turn does not change that an end waits without a start, unless the start comes.
proof fn lemma_end_waits_on(exchange: Exchange, message: MessageView, turn: Turn)
    requires
        ends_without_start(exchange, message),
        !start_comes(turn, message.sender()),
    ensures
        ends_without_start(exchange.turn(turn), message),
{
    let id = message.sender();
    let next = exchange.turn(turn);
    let queue = exchange.queue;
    let k = choose|k: int| 0 <= k < queue.len() && queue[k] == message;
    match turn {
        Turn::Arrive(_) => {
            assert(next.queue[k] == message);
            if next.start_waits(id) {
                let i = choose|i: int|
                    0 <= i < next.queue.len() && (#[trigger] next.queue[i]) is Started
                        && next.queue[i].sender() == id;
                assert(i < queue.len() ==> queue[i] == next.queue[i]);
            }
        },
        Turn::Look => {
            let last = queue.len() - 1;
            if k == 0 {
                assert(!exchange.dashboard.takes(message));
                assert(next.queue[last] == message);
            } else {
                assert(next.queue[k - 1] == message);
            }
            if next.start_waits(id) {
                let i = choose|i: int|
                    0 <= i < next.queue.len() && (#[trigger] next.queue[i]) is Started
                        && next.queue[i].sender() == id;
                if i == last {
                    assert(queue[0] == next.queue[i]);
                } else {
                    assert(queue[i + 1] == next.queue[i]);
                }
            }
            if next.dashboard.active == Some(id) {
                assert(queue[0] is Started && queue[0].sender() == id);
            }
        },
    }
}

/// An end without a start waits for ever: whatever happens at the queue, it is not
/// taken unless the start comes.
proof fn lemma_end_never_taken(exchange: Exchange, message: MessageView, more: Seq<Turn>)
    requires
        ends_without_start(exchange, message),
        forall|i: int| 0 <= i < more.len() ==> !start_comes(#[trigger] more[i], message.sender()),
    ensures
        ends_without_start(exchange.turns(more), message),
    decreases more.len(),
{
    if more.len() > 0 {
        assert forall|i: int| 0 <= i < more.drop_last().len() implies !start_comes(
            #[trigger] more.drop_last()[i],
            message.sender(),
        ) by {
            assert(!start_comes(more[i], message.sender()));
        }
        lemma_end_never_taken(exchange, message, more.drop_last());
        assert(!start_comes(more[more.len() - 1], message.sender()));
        lemma_end_waits_on(exchange.turns(more.drop_last()), message, more.last());
    }
}

/// A list with a closing message.
proof fn lemma_some_closing(messages: Seq<MessageView>, k: int)
    requires
        0 <= k < messages.len(),
        messages[k].closing(),
    ensures
        closings(messages) > 0,
    decreases messages.len(),
{
    if k < messages.len() - 1 {
        lemma_some_closing(messages.drop_last(), k);
    }
}

/// A diagnostic that ends without having started is never shown: whatever happens at
/// the queue, its end stays there unless its start comes. The terminal does not finish
/// then, if no more closing messages come in than diagnostics are run.
pub proof fn an_end_without_a_start_is_never_shown(
    turns: Seq<Turn>,
    more: Seq<Turn>,
    message: MessageView,
)
    requires
        ends_without_start(Exchange::start().turns(turns), message),
        forall|i: int| 0 <= i < more.len() ==> !start_comes(#[trigger] more[i], message.sender()),
    ensures
        Exchange::start().turns(turns).turns(more).queue.contains(message),
        closings(Exchange::start().turns(turns).turns(more).arrived) <= NUM_TASKS
            ==> !Exchange::start().turns(turns).turns(more).dashboard.finished(),
{
    let exchange = Exchange::start().turns(turns);
    lemma_end_never_taken(exchange, message, more);
    let end = exchange.turns(more);
    lemma_turns_joined(Exchange::start(), turns, more);
    lemma_closings_kept(turns + more);
    nothing_is_lost(turns + more);
    let k = choose|k: int| 0 <= k < end.queue.len() && end.queue[k] == message;
    lemma_some_closing(end.queue, k);
}

/// The number of messages of a list that end a diagnostic in some way, and with one
/// more message.
proof fn lemma_one_more(messages: Seq<MessageView>, message: MessageView)
    ensures
        ({
            let longer = messages.push(message);
            &&& longer.filter(|m: MessageView| m is Failed).len() == messages.filter(
                |m: MessageView| m is Failed,
            ).len() + if message is Failed {
                1nat
            } else {
                0nat
            }
            &&& longer.filter(|m: MessageView| m is Done).len() == messages.filter(
                |m: MessageView| m is Done,
            ).len() + if message is Done {
                1nat
            } else {
                0nat
            }
            &&& longer.filter(|m: MessageView| m is NotApplicable).len() == messages.filter(
                |m: MessageView| m is NotApplicable,
            ).len() + if message is NotApplicable {
                1nat
            } else {
                0nat
            }
        }),
{
    reveal(Seq::filter);
    assert(messages.push(message).drop_last() =~= messages);
}

/// A list has no message that says a failure exactly if it has none among those that say
/// one.
proof fn lemma_no_failure(messages: Seq<MessageView>)
    ensures
        messages.filter(|m: MessageView| m is Failed).len() == 0 <==> (forall|i: int|
            0 <= i < messages.len() ==> !((#[trigger] messages[i]) is Failed)),
    decreases messages.len(),
{
    reveal(Seq::filter);
    if messages.len() > 0 {
        lemma_no_failure(messages.drop_last());
        assert forall|i: int| 0 <= i < messages.drop_last().len() implies #[trigger] messages[i]
            == messages.drop_last()[i] by {}
        if forall|i: int|
            0 <= i < messages.drop_last().len() ==> !((
            #[trigger] messages.drop_last()[i]) is Failed) {
            assert forall|i: int|
                0 <= i < messages.len() - 1 implies !((#[trigger] messages[i]) is Failed) by {
                assert(!(messages.drop_last()[i] is Failed));
            }
        }
        if forall|i: int| 0 <= i < messages.len() ==> !((#[trigger] messages[i]) is Failed) {
            assert(!(messages[messages.len() - 1] is Failed));
        }
    }
}

/// Whatever happens at the queue, each message that was taken and that closes a
/// diagnostic counts as what it is, wherever it stands: the failures are the messages
/// that say a failure, and likewise for what is done and for what does not apply. So,
/// when all have closed, all is well exactly if no message said a failure.
pub proof fn every_closing_message_counts_as_what_it_is(turns: Seq<Turn>)
    ensures
        ({
            let end = Exchange::start().turns(turns);
            &&& end.dashboard.failed == end.taken.filter(|m: MessageView| m is Failed).len()
            &&& end.dashboard.complete == end.taken.filter(|m: MessageView| m is Done).len()
            &&& end.dashboard.not_applicable == end.taken.filter(
                |m: MessageView| m is NotApplicable,
            ).len()
            &&& end.dashboard.finished() ==> (end.dashboard.fully_turbocharged() <==> (forall|
                i: int,
            |
                0 <= i < end.taken.len() ==> !((#[trigger] end.taken[i]) is Failed)))
        }),
    decreases turns.len(),
{
    let end = Exchange::start().turns(turns);
    if turns.len() == 0 {
        reveal(Seq::filter);
    } else {
        every_closing_message_counts_as_what_it_is(turns.drop_last());
        let before = Exchange::start().turns(turns.drop_last());
        if turns.last() is Look && before.queue.len() > 0 {
            lemma_one_more(before.taken, before.queue[0]);
        }
    }
    lemma_no_failure(end.taken);
}

/// While a diagnostic is shown, its messages are taken and no others. While none is
/// shown, those are taken that say that a diagnostic starts or does not apply, and no
/// others. What is not taken goes back to the queue and changes nothing.
pub proof fn a_message_is_taken_in_its_turn(
    dashboard: &mut Dashboard,
    message: &DiagnosticMessage,
    display: Display,
)
    requires
        call_ensures(Dashboard::handle, (dashboard, message), display),
    ensures
        ({
            let name = match message {
                DiagnosticMessage::NotApplicable(name, _) => name@,
                DiagnosticMessage::Started(name, _) => name@,
                DiagnosticMessage::LogLine(name, _) => name@,
                DiagnosticMessage::Done(name, _) => name@,
                DiagnosticMessage::Failed(name, _) => name@,
                DiagnosticMessage::Suspend(name) => name@,
                DiagnosticMessage::Request(name, _, _) => name@,
            };
            let turn = match old(dashboard)@.active {
                Some(shown) => shown == name,
                None => message is Started || message is NotApplicable,
            };
            &&& display is Requeue <==> !turn
            &&& !turn ==> final(dashboard)@ == old(dashboard)@
        }),
{
}

/// A message that is taken counts for what it says: a failure is one more failure, a
/// success one more success, what does not apply one more of those, and no other message
/// counts. After a failure or a success nothing is shown, and from its start on a
/// diagnostic is shown.
pub proof fn a_message_counts_for_what_it_says(
    dashboard: &mut Dashboard,
    message: &DiagnosticMessage,
    display: Display,
)
    requires
        call_ensures(Dashboard::handle, (dashboard, message), display),
        !(display is Requeue),
    ensures
        final(dashboard)@.failed == old(dashboard)@.failed + if message is Failed {
            1nat
        } else {
            0nat
        },
        final(dashboard)@.complete == old(dashboard)@.complete + if message is Done {
            1nat
        } else {
            0nat
        },
        final(dashboard)@.not_applicable == old(dashboard)@.not_applicable
            + if message is NotApplicable {
            1nat
        } else {
            0nat
        },
        match message {
            DiagnosticMessage::Started(name, _) => final(dashboard)@.active == Some(name@),
            DiagnosticMessage::Done(_, _) | DiagnosticMessage::Failed(_, _) => final(
                dashboard)@.active is None,
            _ => final(dashboard)@.active == old(dashboard)@.active,
        },
{
}

/// What is shown of a message that is taken is what it says, whole: a spinner starts
/// with the name of the diagnostic, unless there is one already, a line is printed, the
/// spinner finishes with the text of a success, of a failure, or of what does not apply,
/// and a question is put with all its answers.
pub proof fn what_is_shown_is_what_was_said(
    dashboard: &mut Dashboard,
    message: &DiagnosticMessage,
    display: Display,
)
    requires
        call_ensures(Dashboard::handle, (dashboard, message), display),
        !(display is Requeue),
    ensures
        match message {
            DiagnosticMessage::Started(_, text) => if old(dashboard)@.active is None {
                display matches Display::StartSpinner(shown) && shown@ == text@
            } else {
                display is Nothing
            },
            DiagnosticMessage::LogLine(_, text) => display matches Display::PrintLine(shown)
                && shown@ == text@,
            DiagnosticMessage::Done(_, text) => display matches Display::FinishDone(shown)
                && shown@ == text@,
            DiagnosticMessage::Failed(_, text) => display matches Display::FinishFailed(shown)
                && shown@ == text@,
            DiagnosticMessage::NotApplicable(_, text) => {
                display matches Display::FinishNotApplicable { new_spinner, text: shown } && shown@
                    == text@ && (new_spinner <==> old(dashboard)@.active is None)
            },
            DiagnosticMessage::Request(_, text, answers) => {
                display matches Display::Prompt { prompt, options } && prompt@ == text@
                    && options@.len() == answers@.len() && (forall|i: int|
                    0 <= i < answers@.len() ==> (#[trigger] options@[i])@ == answers@[i]@)
            },
            DiagnosticMessage::Suspend(_) => display is SuspendOutput,
        },
{
    if let DiagnosticMessage::Request(_, _, answers) = message {
        if let Display::Prompt { prompt, options } = display {
            assert(options.deep_view() == answers.deep_view());
            assert(options.deep_view().len() == options@.len());
            assert(answers.deep_view().len() == answers@.len());
            assert forall|i: int| 0 <= i < answers@.len() implies (#[trigger] options@[i])@
                == answers@[i]@ by {
                assert(options.deep_view()[i] == answers.deep_view()[i]);
            }
        }
    }
}

/// At first nothing is shown and nothing has closed. The terminal is finished when as
/// many diagnostics have closed as are run, and all is well if as many of them succeeded
/// or did not apply.
pub proof fn the_terminal_counts_to_the_number_of_diagnostics(
    fresh: Dashboard,
    dashboard: &Dashboard,
    finished: bool,
    well: bool,
)
    requires
        call_ensures(Dashboard::new, (), fresh),
        call_ensures(Dashboard::finished, (dashboard,), finished),
        call_ensures(Dashboard::fully_turbocharged, (dashboard,), well),
    ensures
        fresh@.active is None && fresh@.complete == 0 && fresh@.failed == 0
            && fresh@.not_applicable == 0,
        finished <==> dashboard@.complete + dashboard@.failed + dashboard@.not_applicable
            == NUM_TASKS,
        well <==> dashboard@.complete + dashboard@.not_applicable
            == NUM_TASKS,
        finished && well ==> dashboard@.failed == 0,
{
}

/// The answer is the option that the user chose, wherever it stands.
pub proof fn the_chosen_option_is_the_answer(options: Vec<String>, choice: usize, answer: String)
    requires
        choice < options@.len(),
        call_ensures(chosen_option, (options, choice), answer),
    ensures
        answer@ == options@[choice as int]@,
{
}

/// What is displayed is seen whole.
pub proof fn displays_are_seen_whole(display: Display)
    ensures
        match display {
            Display::StartSpinner(text) => display@ matches DisplayView::StartSpinner(seen) && seen
                == text@,
            Display::Nothing => display@ is Nothing,
            Display::PrintLine(text) => display@ matches DisplayView::PrintLine(seen) && seen
                == text@,
            Display::FinishDone(text) => display@ matches DisplayView::FinishDone(seen) && seen
                == text@,
            Display::FinishFailed(text) => display@ matches DisplayView::FinishFailed(seen) && seen
                == text@,
            Display::FinishNotApplicable { new_spinner, text } => {
                display@ matches DisplayView::FinishNotApplicable { new_spinner: new, text: seen }
                    && new == new_spinner && seen == text@
            },
            Display::Prompt { prompt, options } => {
                display@ matches DisplayView::Prompt { prompt: seen, options: offered } && seen
                    == prompt@ && offered == options.deep_view()
            },
            Display::SuspendOutput => display@ is SuspendOutput,
            Display::Requeue => display@ is Requeue,
        },
{
}

} // verus!
