use std::collections::VecDeque;
use turbocharge::diagnostics::DiagnosticMessage;
use turbocharge::turbocharge::{chosen_option, Dashboard, Display, NUM_TASKS};

fn started(id: &str) -> DiagnosticMessage {
    DiagnosticMessage::Started(id.to_string(), format!("{} name", id))
}

fn line(id: &str, text: &str) -> DiagnosticMessage {
    DiagnosticMessage::LogLine(id.to_string(), text.to_string())
}

fn done(id: &str) -> DiagnosticMessage {
    DiagnosticMessage::Done(id.to_string(), format!("{} done", id))
}

fn failed(id: &str) -> DiagnosticMessage {
    DiagnosticMessage::Failed(id.to_string(), format!("{} failed", id))
}

fn not_applicable(id: &str) -> DiagnosticMessage {
    DiagnosticMessage::NotApplicable(id.to_string(), format!("{} n/a", id))
}

fn shown(dashboard: &mut Dashboard, message: DiagnosticMessage) -> String {
    format!("{:?}", dashboard.handle(&message))
}

#[test]
fn one_diagnostic_is_shown_at_a_time() {
    let mut dashboard = Dashboard::new();
    assert_eq!(shown(&mut dashboard, line("a", "early")), "Requeue");
    assert_eq!(shown(&mut dashboard, done("a")), "Requeue");
    assert_eq!(shown(&mut dashboard, started("a")), "StartSpinner(\"a name\")");
    assert_eq!(shown(&mut dashboard, started("a")), "Nothing");
    assert_eq!(shown(&mut dashboard, started("b")), "Requeue");
    assert_eq!(shown(&mut dashboard, not_applicable("b")), "Requeue");
    assert_eq!(shown(&mut dashboard, failed("b")), "Requeue");
    assert_eq!(shown(&mut dashboard, line("a", "one")), "PrintLine(\"one\")");
    assert_eq!(shown(&mut dashboard, done("a")), "FinishDone(\"a done\")");
    assert_eq!(shown(&mut dashboard, started("b")), "StartSpinner(\"b name\")");
    assert_eq!(shown(&mut dashboard, failed("b")), "FinishFailed(\"b failed\")");
    assert!(!dashboard.finished());
}

#[test]
fn what_does_not_apply_gets_a_spinner_if_there_is_none() {
    let mut dashboard = Dashboard::new();
    assert_eq!(
        shown(&mut dashboard, not_applicable("a")),
        "FinishNotApplicable { new_spinner: true, text: \"a n/a\" }"
    );
    shown(&mut dashboard, started("b"));
    assert_eq!(
        shown(&mut dashboard, not_applicable("b")),
        "FinishNotApplicable { new_spinner: false, text: \"b n/a\" }"
    );
    // the spinner of what does not apply stays
    assert_eq!(shown(&mut dashboard, started("c")), "Requeue");
}

#[test]
fn questions_and_suspensions_are_for_the_one_that_is_shown() {
    let options = || vec!["Yes".to_string(), "No".to_string()];
    let request =
        |id: &str| DiagnosticMessage::Request(id.to_string(), "Sure?".to_string(), options());
    let mut dashboard = Dashboard::new();
    assert_eq!(shown(&mut dashboard, request("a")), "Requeue");
    shown(&mut dashboard, started("a"));
    assert_eq!(
        shown(&mut dashboard, request("a")),
        "Prompt { prompt: \"Sure?\", options: [\"Yes\", \"No\"] }"
    );
    assert_eq!(
        shown(&mut dashboard, DiagnosticMessage::Suspend("a".to_string())),
        "SuspendOutput"
    );
    assert_eq!(shown(&mut dashboard, DiagnosticMessage::Suspend("b".to_string())), "Requeue");
    assert_eq!(chosen_option(options(), 0), "Yes");
    assert_eq!(chosen_option(options(), 1), "No");
}

/// Runs the queue until all diagnostics have closed.
fn run(messages: Vec<DiagnosticMessage>) -> (Dashboard, Vec<String>, usize) {
    let mut dashboard = Dashboard::new();
    let mut queue = VecDeque::from(messages);
    let mut displays = Vec::new();
    while !dashboard.finished() {
        let message = queue.pop_front().expect("a message");
        match dashboard.handle(&message) {
            Display::Requeue => queue.push_back(message),
            display => displays.push(format!("{:?}", display)),
        }
    }
    (dashboard, displays, queue.len())
}

#[test]
fn interleaved_messages_are_shown_one_diagnostic_after_the_other() {
    let (dashboard, displays, left) = run(vec![
        started("a"),
        started("b"),
        line("b", "from b"),
        line("a", "from a"),
        not_applicable("c"),
        done("b"),
        done("a"),
        started("d"),
        done("d"),
    ]);
    assert_eq!(left, 0);
    assert!(dashboard.fully_turbocharged());
    assert_eq!(
        displays,
        vec![
            "StartSpinner(\"a name\")",
            "PrintLine(\"from a\")",
            "FinishDone(\"a done\")",
            "StartSpinner(\"d name\")",
            "FinishDone(\"d done\")",
            "StartSpinner(\"b name\")",
            "PrintLine(\"from b\")",
            "FinishDone(\"b done\")",
            "FinishNotApplicable { new_spinner: true, text: \"c n/a\" }",
        ]
    );
}

#[test]
fn one_failure_is_enough() {
    let (dashboard, displays, _) = run(vec![
        not_applicable("a"),
        not_applicable("b"),
        started("c"),
        done("c"),
        started("d"),
        failed("d"),
    ]);
    assert_eq!(NUM_TASKS, 4);
    assert_eq!(displays.len(), 6);
    assert!(dashboard.finished());
    assert!(!dashboard.fully_turbocharged());
}

#[test]
fn an_end_without_a_start_keeps_the_terminal_waiting() {
    let mut dashboard = Dashboard::new();
    let mut queue = VecDeque::from(vec![
        failed("d"),
        not_applicable("a"),
        not_applicable("b"),
        started("c"),
        done("c"),
    ]);
    for _ in 0..100 {
        let message = queue.pop_front().expect("a message");
        if let Display::Requeue = dashboard.handle(&message) {
            queue.push_back(message);
        }
    }
    assert!(!dashboard.finished());
    assert_eq!(queue.len(), 1);
    assert!(matches!(&queue[0], DiagnosticMessage::Failed(id, _) if id == "d"));
}
