use turbocharge::diagnostics::daemon::{DaemonDiagnostic, DaemonEvent, DaemonStage};
use turbocharge::diagnostics::git_daemon::{
    probe, read_setting, read_version, setting_in_text, version_in_report, GitDaemonDiagnostic,
    GitEvent, GitStage, GitVersion, Probe,
};
use turbocharge::diagnostics::lsp::{LSPDiagnostic, LspEvent, LspStage};
use turbocharge::diagnostics::remote_cache::{
    RemoteCacheDiagnostic, RemoteCacheEvent, RemoteCacheStage, Team,
};
use turbocharge::diagnostics::update::{UpdateDiagnostic, UpdateEvent, UpdateStage};
use turbocharge::diagnostics::{Diagnostic, DiagnosticMessage, Effect, Step};

/// The effects of a step, spelt out.
fn spelt<S>(step: &Step<S>) -> Vec<String> {
    step.effects.iter().map(|effect| format!("{:?}", effect)).collect()
}

fn git_log(text: &str) -> String {
    format!("Send(LogLine(\"git.daemon\", \"{}\"))", text)
}

fn git_failed(text: &str) -> String {
    format!("Send(Failed(\"git.daemon\", \"{}\"))", text)
}

fn known(text: &str, fsmonitor: bool, untrackedcache: bool) -> GitEvent {
    GitEvent::Probed(Ok(Probe {
        version: version_in_report(text),
        fsmonitor,
        untrackedcache,
    }))
}

const ENABLED: &str = "Send(Done(\"git.daemon\", \"Git FS Monitor Enabled\"))";

#[test]
fn git_does_not_apply_on_unix() {
    let step = GitDaemonDiagnostic.execute(GitStage::Idle, GitEvent::Begin { unix: true });
    assert!(matches!(step.next, GitStage::Finished));
    assert_eq!(
        spelt(&step),
        vec!["Send(NotApplicable(\"git.daemon\", \"Git FS Monitor (not available on unix)\"))"]
    );
}

#[test]
fn git_is_probed_elsewhere() {
    let step = GitDaemonDiagnostic.execute(GitStage::Idle, GitEvent::Begin { unix: false });
    assert!(matches!(step.next, GitStage::Probing));
    assert_eq!(
        spelt(&step),
        vec![
            "Send(Started(\"git.daemon\", \"Git FS Monitor\"))",
            "RunGit([[\"--version\"], [\"config\", \"--get\", \"core.fsmonitor\"], [\"config\", \
             \"--get\", \"core.untrackedcache\"]])",
        ]
    );
}

#[test]
fn git_that_cannot_be_asked_fails() {
    let event = GitEvent::Probed(Err("no such file".to_string()));
    let step = GitDaemonDiagnostic.execute(GitStage::Probing, event);
    assert!(matches!(step.next, GitStage::Finished));
    assert_eq!(
        spelt(&step),
        vec![
            git_log("Collecting metadata"),
            git_failed("Failed to get git version: no such file")
        ]
    );
}

#[test]
fn git_without_a_version_fails() {
    let step = GitDaemonDiagnostic.execute(GitStage::Probing, known("hub 1.2.3", true, true));
    assert!(matches!(step.next, GitStage::Finished));
    assert_eq!(
        spelt(&step),
        vec![git_log("Collecting metadata"), git_failed("Failed to get git version")]
    );
}

#[test]
fn old_versions_of_git_fail() {
    for version in ["1.9.5", "2.36.9", "2.0.0"] {
        let report = format!("git version {}\n", version);
        let step = GitDaemonDiagnostic.execute(GitStage::Probing, known(&report, false, false));
        assert!(matches!(step.next, GitStage::Finished));
        assert_eq!(
            spelt(&step),
            vec![
                git_log("Collecting metadata"),
                git_failed(&format!(
                    "Git version {} is too old, please upgrade to 2.37 or newer",
                    version
                )),
            ]
        );
    }
}

#[test]
fn git_that_is_set_up_is_enabled() {
    for version in ["2.37.0", "2.40.1.windows.1", "3.0.0", "0.99.1"] {
        let report = format!("git version {}\n", version);
        let step = GitDaemonDiagnostic.execute(GitStage::Probing, known(&report, true, true));
        assert!(matches!(step.next, GitStage::Finished));
        assert_eq!(
            spelt(&step),
            vec![
                git_log("Collecting metadata"),
                git_log(&format!("Using supported Git version - {}", version)),
                git_log("Git FS Monitor settings set"),
                ENABLED.to_string(),
            ]
        );
    }
}

#[test]
fn the_user_is_asked_about_what_is_off() {
    let event = known("git version 2.37.0", true, false);
    let step = GitDaemonDiagnostic.execute(GitStage::Probing, event);
    assert_eq!(
        spelt(&step),
        vec![
            git_log("Collecting metadata"),
            git_log("Using supported Git version - 2.37.0"),
            git_log("Git FS Monitor not configured"),
            git_log(
                "For more information, see https://turbo.dev/repo/docs/reference/command-line-reference/optimize"
            ),
            "Send(Request(\"git.daemon\", \"Configure it for this repo now?\", [\"Yes\", \
             \"No\"]))"
                .to_string(),
        ]
    );
    let step = GitDaemonDiagnostic.execute(step.next, GitEvent::Answered("Yes".to_string()));
    assert!(matches!(step.next, GitStage::Configuring));
    assert_eq!(
        spelt(&step),
        vec![
            git_log("Setting Git FS Monitor settings"),
            "RunGit([[\"config\", \"core.untrackedcache\", \"true\"]])".to_string(),
        ]
    );
    let step = GitDaemonDiagnostic.execute(step.next, GitEvent::Configured(vec![Ok(())]));
    assert!(matches!(step.next, GitStage::Finished));
    assert_eq!(
        spelt(&step),
        vec![git_log("Git FS Monitor settings set"), ENABLED.to_string()]
    );
}

#[test]
fn everything_that_is_off_is_switched_on() {
    let stage = GitStage::Asking { fsmonitor: false, untrackedcache: false };
    let step = GitDaemonDiagnostic.execute(stage, GitEvent::Answered("Yes".to_string()));
    assert_eq!(
        spelt(&step)[1],
        "RunGit([[\"config\", \"core.fsmonitor\", \"true\"], [\"config\", \
         \"core.untrackedcache\", \"true\"]])"
    );
    let stage = GitStage::Asking { fsmonitor: false, untrackedcache: true };
    let step = GitDaemonDiagnostic.execute(stage, GitEvent::Answered("Yes".to_string()));
    assert_eq!(
        spelt(&step)[1],
        "RunGit([[\"config\", \"core.fsmonitor\", \"true\"]])"
    );
}

#[test]
fn the_first_setting_that_fails_counts() {
    let event = GitEvent::Configured(vec![
        Ok(()),
        Err("first".to_string()),
        Err("second".to_string()),
    ]);
    let step = GitDaemonDiagnostic.execute(GitStage::Configuring, event);
    assert!(matches!(step.next, GitStage::Finished));
    assert_eq!(
        spelt(&step),
        vec![git_failed("Failed to set git settings: first")]
    );
}

#[test]
fn the_user_may_refuse_or_go_away() {
    let asking = || GitStage::Asking { fsmonitor: false, untrackedcache: false };
    let step = GitDaemonDiagnostic.execute(asking(), GitEvent::Answered("No".to_string()));
    assert_eq!(spelt(&step), vec![git_failed("Git FS Monitor not configured")]);
    let step = GitDaemonDiagnostic.execute(asking(), GitEvent::TerminalShut);
    assert!(matches!(step.next, GitStage::Finished));
    assert!(step.effects.is_empty());
    let step = GitDaemonDiagnostic.execute(asking(), GitEvent::AnswerLost);
    assert!(matches!(step.next, GitStage::Finished));
    assert_eq!(spelt(&step), vec![ENABLED]);
}

#[test]
fn versions_are_read_from_bytes() {
    let version = read_version(b"  git version 2.39.2 (Apple Git-143)\n");
    let GitVersion::Known(text, major, minor) = version else {
        panic!("not known");
    };
    assert_eq!((text.as_str(), major, minor), ("2.39.2 (Apple Git-143)", 2, 39));
    // bytes that are no text are replaced
    let GitVersion::Known(text, 2, 39) = read_version(b"git version 2.39.\xff") else {
        panic!("not known");
    };
    assert_eq!(text, "2.39.\u{fffd}");
    assert!(matches!(read_version(b""), GitVersion::Unrecognised));
    assert!(matches!(read_version(b"git version"), GitVersion::Unrecognised));
}

#[test]
fn versions_need_two_numbers_and_a_dot_after_each() {
    for report in ["git version 2", "git version 2.39", "git version a.b.c", "git version 2..1"] {
        assert!(matches!(version_in_report(report), GitVersion::Malformed), "{}", report);
    }
    assert!(matches!(version_in_report("git version 2.39."), GitVersion::Known(_, 2, 39)));
}

#[test]
fn settings_are_on_if_they_say_true() {
    assert!(read_setting(b"true\n"));
    assert!(setting_in_text(" true "));
    assert!(!read_setting(b"false\n"));
    assert!(!read_setting(b""));
    assert!(!read_setting(b"true\xff"));
    assert!(!setting_in_text("True"));
}

#[test]
fn a_probe_needs_all_three_runs() {
    let bytes = |text: &str| Ok(text.as_bytes().to_vec());
    let fails = |reason: &str| Err(reason.to_string());
    let found = probe(bytes("git version 2.37.0"), bytes("true\n"), bytes("")).unwrap();
    assert!(matches!(found.version, GitVersion::Known(_, 2, 37)));
    assert!(found.fsmonitor);
    assert!(!found.untrackedcache);
    assert_eq!(probe(fails("a"), fails("b"), fails("c")).unwrap_err(), "a");
    assert_eq!(probe(bytes(""), fails("b"), fails("c")).unwrap_err(), "b");
    assert_eq!(probe(bytes(""), bytes(""), fails("c")).unwrap_err(), "c");
}

#[test]
fn the_daemon_is_asked_how_long_it_runs() {
    let diagnostic = DaemonDiagnostic("/tmp/turbod".to_string());
    let step = diagnostic.execute(DaemonStage::Idle, DaemonEvent::Begin);
    assert_eq!(
        spelt(&step),
        vec![
            "Send(Started(\"turbo.daemon\", \"Turbo Daemon\"))",
            "Send(LogLine(\"turbo.daemon\", \"Connecting to daemon...\"))",
            "Send(LogLine(\"turbo.daemon\", \"Getting status...\"))",
            "Connect { can_start_server: true, can_kill_server: false, pid_file: \"turbod.pid\", \
             sock_file: \"turbod.sock\" }",
        ]
    );
    let step = diagnostic.execute(step.next, DaemonEvent::Connected(Ok(())));
    assert_eq!(spelt(&step), vec!["GetStatus"]);
    let step = diagnostic.execute(step.next, DaemonEvent::Status(Ok(1050)));
    assert!(matches!(step.next, DaemonStage::Finished));
    assert_eq!(
        spelt(&step),
        vec![
            "Send(LogLine(\"turbo.daemon\", \"Daemon up for 1050ms\"))",
            "Send(Done(\"turbo.daemon\", \"Daemon is running\"))",
        ]
    );
}

#[test]
fn the_daemon_may_be_out_of_reach() {
    let diagnostic = DaemonDiagnostic("/tmp/turbod".to_string());
    let event = DaemonEvent::Connected(Err("refused".to_string()));
    let step = diagnostic.execute(DaemonStage::Connecting, event);
    assert!(matches!(step.next, DaemonStage::Finished));
    assert_eq!(
        spelt(&step),
        vec!["Send(Failed(\"turbo.daemon\", \"Failed to connect to daemon: refused\"))"]
    );
    let event = DaemonEvent::Status(Err("gone".to_string()));
    let step = diagnostic.execute(DaemonStage::Asking, event);
    assert!(matches!(step.next, DaemonStage::Finished));
    assert_eq!(
        spelt(&step),
        vec!["Send(Failed(\"turbo.daemon\", \"Failed to get daemon status: gone\"))"]
    );
}

#[test]
fn the_extension_is_looked_for() {
    let diagnostic = LSPDiagnostic("/tmp/turbod".to_string());
    let step = diagnostic.execute(LspStage::Idle, LspEvent::Begin);
    assert_eq!(
        spelt(&step),
        vec![
            "Send(Started(\"turbo.lsp\", \"Turborepo Extension\"))",
            "Send(LogLine(\"turbo.lsp\", \"Checking if it is running...\"))",
            "FindOwner(\"lsp.pid\")",
        ]
    );
    let cases = [
        (Ok(Some(4711)), "Send(Done(\"turbo.lsp\", \"Turborepo Extension is running (4711)\"))"),
        (Ok(Some(-1)), "Send(Done(\"turbo.lsp\", \"Turborepo Extension is running (-1)\"))"),
        (Ok(None), "Send(Failed(\"turbo.lsp\", \"Turborepo Extension is not running\"))"),
        (
            Err("denied".to_string()),
            "Send(Failed(\"turbo.lsp\", \"Failed to get LSP status: denied\"))",
        ),
    ];
    for (owner, expected) in cases {
        let step = diagnostic.execute(LspStage::Looking, LspEvent::Owner(owner));
        assert!(matches!(step.next, LspStage::Finished));
        assert_eq!(spelt(&step), vec![expected]);
    }
}

const STARTED: &str = "Send(Started(\"vercel.auth\", \"Remote Cache\"))";
const CREDENTIALS: &str = "Send(LogLine(\"vercel.auth\", \"Checking credentials\"))";

#[test]
fn the_remote_cache_may_be_enabled_already() {
    let diagnostic = RemoteCacheDiagnostic::new(());
    let step = diagnostic.execute(RemoteCacheStage::Idle, RemoteCacheEvent::Begin(None));
    assert!(matches!(step.next, RemoteCacheStage::Finished));
    assert_eq!(
        spelt(&step),
        vec!["Send(Failed(\"vercel.auth\", \"Malformed config file\"))"]
    );
    for (has_id, has_slug) in [(true, false), (false, true), (true, true)] {
        let event = RemoteCacheEvent::Begin(Some(Team { has_id, has_slug }));
        let step = diagnostic.execute(RemoteCacheStage::Idle, event);
        assert!(matches!(step.next, RemoteCacheStage::Finished));
        assert_eq!(
            spelt(&step),
            vec![
                STARTED,
                CREDENTIALS,
                "Send(Done(\"vercel.auth\", \"Remote Cache Enabled\"))"
            ]
        );
    }
}

#[test]
fn the_repository_is_linked_while_output_is_suspended() {
    let diagnostic = RemoteCacheDiagnostic::new(());
    let event = RemoteCacheEvent::Begin(Some(Team { has_id: false, has_slug: false }));
    let step = diagnostic.execute(RemoteCacheStage::Idle, event);
    assert_eq!(
        spelt(&step),
        vec![
            STARTED,
            CREDENTIALS,
            "Send(LogLine(\"vercel.auth\", \"Linking to remote cache\"))",
            "Send(Suspend(\"vercel.auth\"))",
        ]
    );
    let step = diagnostic.execute(step.next, RemoteCacheEvent::Suspended);
    assert_eq!(
        spelt(&step),
        vec![
            "Send(LogLine(\"vercel.auth\", \"Ready to link\"))",
            "Link { modify_gitignore: false, target: RemoteCache }",
        ]
    );
    let step = diagnostic.execute(step.next, RemoteCacheEvent::Linked(Ok(())));
    assert!(matches!(step.next, RemoteCacheStage::Finished));
    assert_eq!(
        spelt(&step),
        vec![
            "Send(LogLine(\"vercel.auth\", \"Linked\"))",
            "Resume",
            "Send(Done(\"vercel.auth\", \"Remote Cache Enabled\"))",
        ]
    );
    let event = RemoteCacheEvent::Linked(Err("no account".to_string()));
    let step = diagnostic.execute(RemoteCacheStage::Linking, event);
    assert_eq!(
        spelt(&step)[2],
        "Send(Failed(\"vercel.auth\", \"Failed to link: no account\"))"
    );
    let step = diagnostic.execute(RemoteCacheStage::Suspending, RemoteCacheEvent::TerminalShut);
    assert!(matches!(step.next, RemoteCacheStage::Finished));
    assert!(step.effects.is_empty());
}

#[test]
fn a_newer_version_is_offered() {
    let diagnostic = UpdateDiagnostic();
    let step = diagnostic.execute(UpdateStage::Idle, UpdateEvent::Begin("1.0.0".to_string()));
    assert_eq!(
        spelt(&step),
        vec![
            "Send(Started(\"turbo.update\", \"Update Turborepo To Latest Version\"))",
            "Send(LogLine(\"turbo.update\", \"Checking for updates...\"))",
            "CheckForUpdates { package: \"turbo\", current_version: \"1.0.0\", timeout_secs: None, \
             interval_secs: Some(0) }",
        ]
    );
    let event = UpdateEvent::Checked(Ok(Some("1.2.3".to_string())));
    let step = diagnostic.execute(step.next, event);
    assert_eq!(
        spelt(&step),
        vec![
            "Send(LogLine(\"turbo.update\", \"Turborepo 1.2.3 is available\"))",
            "Send(Request(\"turbo.update\", \"Would you like to run the codemod \
             automatically?\", [\"Yes\", \"No\"]))",
        ]
    );
    let step = diagnostic.execute(step.next, UpdateEvent::Answered("Yes".to_string()));
    assert_eq!(
        spelt(&step),
        vec![
            "Send(LogLine(\"turbo.update\", \"Updating Turborepo...\"))",
            "RunCommand(\"npx\", [\"--yes\", \"@turbo/codemod@latest\", \"update\"])",
        ]
    );
    let step = diagnostic.execute(step.next, UpdateEvent::Updated { success: true });
    assert!(matches!(step.next, UpdateStage::Finished));
    assert_eq!(
        spelt(&step),
        vec!["Send(Done(\"turbo.update\", \"Turborepo Updated To Latest Version\"))"]
    );
}

#[test]
fn an_update_may_come_to_nothing() {
    let diagnostic = UpdateDiagnostic();
    let cases = [
        (
            UpdateStage::Checking,
            UpdateEvent::Checked(Ok(None)),
            Some("Send(Done(\"turbo.update\", \"Turborepo Updated To Latest Version\"))"),
        ),
        (
            UpdateStage::Checking,
            UpdateEvent::Checked(Err("offline".to_string())),
            Some("Send(Failed(\"turbo.update\", \"Failed to check for updates: offline\"))"),
        ),
        (
            UpdateStage::Asking,
            UpdateEvent::Answered("No".to_string()),
            Some("Send(Failed(\"turbo.update\", \"Turborepo on old version\"))"),
        ),
        (
            UpdateStage::Updating,
            UpdateEvent::Updated { success: false },
            Some("Send(Failed(\"turbo.update\", \"Unable to update Turborepo\"))"),
        ),
        (UpdateStage::Asking, UpdateEvent::TerminalShut, None),
        (UpdateStage::Asking, UpdateEvent::AnswerLost, None),
    ];
    for (stage, event, expected) in cases {
        let step = diagnostic.execute(stage, event);
        assert!(matches!(step.next, UpdateStage::Finished));
        assert_eq!(spelt(&step), expected.into_iter().collect::<Vec<_>>());
    }
}

#[test]
fn messages_carry_the_name_of_the_diagnostic() {
    assert_eq!(GitDaemonDiagnostic::name(), "git.daemon");
    assert_eq!(DaemonDiagnostic::name(), "turbo.daemon");
    assert_eq!(LSPDiagnostic::name(), "turbo.lsp");
    assert_eq!(RemoteCacheDiagnostic::<()>::name(), "vercel.auth");
    assert_eq!(UpdateDiagnostic::name(), "turbo.update");
    let text = || "text".to_string();
    let sent: Vec<String> = [
        UpdateDiagnostic::started(text()),
        UpdateDiagnostic::log_line(text()),
        UpdateDiagnostic::request(text(), vec!["a".to_string()]),
        UpdateDiagnostic::suspend(),
        UpdateDiagnostic::done(text()),
        UpdateDiagnostic::failed(text()),
        UpdateDiagnostic::not_applicable(text()),
    ]
    .iter()
    .map(|message| format!("{:?}", message))
    .collect();
    assert_eq!(
        sent,
        vec![
            "Started(\"turbo.update\", \"text\")",
            "LogLine(\"turbo.update\", \"text\")",
            "Request(\"turbo.update\", \"text\", [\"a\"])",
            "Suspend(\"turbo.update\")",
            "Done(\"turbo.update\", \"text\")",
            "Failed(\"turbo.update\", \"text\")",
            "NotApplicable(\"turbo.update\", \"text\")",
        ]
    );
}

fn closes(effect: &Effect) -> bool {
    matches!(
        effect,
        Effect::Send(
            DiagnosticMessage::Done(..)
                | DiagnosticMessage::Failed(..)
                | DiagnosticMessage::NotApplicable(..)
        )
    )
}

#[test]
fn a_run_opens_with_its_start_and_closes_once() {
    let stage = GitStage::Idle;
    let mut step = GitDaemonDiagnostic.execute(stage, GitEvent::Begin { unix: false });
    assert!(matches!(step.effects[0], Effect::Send(DiagnosticMessage::Started(..))));
    let mut all = Vec::new();
    for event in [
        known("git version 2.40.0", false, true),
        GitEvent::Answered("Yes".to_string()),
        GitEvent::Configured(vec![Ok(())]),
    ] {
        all.append(&mut step.effects);
        step = GitDaemonDiagnostic.execute(step.next, event);
    }
    all.append(&mut step.effects);
    assert!(matches!(step.next, GitStage::Finished));
    assert_eq!(all.iter().filter(|effect| closes(effect)).count(), 1);
    assert!(closes(all.last().unwrap()));
}
