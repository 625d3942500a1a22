//! Checks that Git watches the file system for this repository.
use crate::diagnostics::{
    asks, fails, logs, puts_question, starts, succeeds, tells_failure, tells_success, yes_and_no,
    yes_or_no, Diagnostic, Effect, EffectView, MessageView, Step, StepView,
};
use crate::text::{
    after_prefix, around_first, lemma_length_before, lemma_length_before_is, lemma_trimmed,
    lemma_trimmed_is, length_before, lossy_text, number, parse_number, same_text, split_once,
    strip_prefix, trim, trimmed, utf8_lossy, white_space,
};
use vstd::prelude::*;
use vstd::string::StringExecFns;
use vstd::utf8::{decode_utf8, valid_utf8};

verus! {

/// A version that Git reports.
#[derive(Debug)]
pub enum GitVersion {
    /// The report does not name a version.
    Unrecognised,
    /// The report names a version, but its first two numbers cannot be read.
    Malformed,
    /// The version as it was reported, and its first two numbers.
    Known(String, u32, u32),
}

/// What a version is.
pub enum GitVersionView {
    Unrecognised,
    Malformed,
    Known(Seq<char>, u32, u32),
}

impl View for GitVersion {
    type V = GitVersionView;

    open spec fn view(&self) -> GitVersionView {
        match self {
            GitVersion::Unrecognised => GitVersionView::Unrecognised,
            GitVersion::Malformed => GitVersionView::Malformed,
            GitVersion::Known(text, major, minor) => GitVersionView::Known(text@, *major, *minor),
        }
    }
}

/// The first two numbers of a version, which a second dot has to follow.
pub open spec fn version_numbers(version: Seq<char>) -> Option<(u32, u32)> {
    match around_first(version, '.') {
        None => None,
        Some((major, rest)) => match around_first(rest, '.') {
            None => None,
            Some((minor, _)) => match (number(major), number(minor)) {
                (Some(major), Some(minor)) => Some((major, minor)),
                _ => None,
            },
        },
    }
}

/// The version that the text of a report names.
pub open spec fn reported_version(report: Seq<char>) -> GitVersionView {
    match after_prefix(trimmed(report), "git version "@) {
        None => GitVersionView::Unrecognised,
        Some(version) => match version_numbers(version) {
            None => GitVersionView::Malformed,
            Some((major, minor)) => GitVersionView::Known(version, major, minor),
        },
    }
}

/// Whether the text of a setting switches it on.
pub open spec fn switched_on(setting: Seq<char>) -> bool {
    trimmed(setting) == "true"@
}

/// Whether a version is older than the file system monitor.
pub open spec fn too_old(major: u32, minor: u32) -> bool {
    major == 1 || (major == 2 && minor < 37)
}

/// What Git says of itself and of its settings.
#[derive(Debug)]
pub struct Probe {
    pub version: GitVersion,
    pub fsmonitor: bool,
    pub untrackedcache: bool,
}

/// Where the diagnostic stands.
#[derive(Debug)]
pub enum GitStage {
    Idle,
    /// Git has been asked for its version and its settings.
    Probing,
    /// The user has been asked whether to switch the settings on that are off.
    Asking { fsmonitor: bool, untrackedcache: bool },
    /// Git has been told to switch settings on.
    Configuring,
    Finished,
}

/// What the diagnostic is told.
#[derive(Debug)]
pub enum GitEvent {
    /// The diagnostic is to begin, on Unix or elsewhere.
    Begin { unix: bool },
    /// What Git said, or why it could not be asked.
    Probed(Result<Probe, String>),
    /// The terminal went before it was asked.
    TerminalShut,
    /// The user's answer.
    Answered(String),
    /// The terminal went before it answered.
    AnswerLost,
    /// What came of each setting that was switched on.
    Configured(Vec<Result<(), String>>),
}

pub struct GitDaemonDiagnostic;

/// Where more can be read about the settings.
pub open spec fn more_information() -> Seq<char> {
    "For more information, see https://turbo.dev/repo/docs/reference/command-line-reference/optimize"@
}

/// The arguments that have Git report its version and its settings.
pub open spec fn probe_arguments() -> Seq<Seq<Seq<char>>> {
    seq![
        seq!["--version"@],
        seq!["config"@, "--get"@, "core.fsmonitor"@],
        seq!["config"@, "--get"@, "core.untrackedcache"@],
    ]
}

/// The arguments that have Git switch on a setting.
pub open spec fn switch_on_arguments(key: Seq<char>) -> Seq<Seq<char>> {
    seq!["config"@, key, "true"@]
}

/// The runs of Git that switch on what is off.
pub open spec fn switch_on_runs(fsmonitor: bool, untrackedcache: bool) -> Seq<Seq<Seq<char>>> {
    let first = if fsmonitor {
        seq![]
    } else {
        seq![switch_on_arguments("core.fsmonitor"@)]
    };
    let second = if untrackedcache {
        seq![]
    } else {
        seq![switch_on_arguments("core.untrackedcache"@)]
    };
    first + second
}

/// The first failure among the results, if there is one.
pub open spec fn first_failure(results: Seq<Result<(), String>>) -> Option<Seq<char>>
    decreases results.len(),
{
    if results.len() == 0 {
        None
    } else {
        match results[0] {
            Err(reason) => Some(reason@),
            Ok(_) => first_failure(results.drop_first()),
        }
    }
}

/// The name of the diagnostic.
pub open spec fn git_name() -> Seq<char> {
    "git.daemon"@
}

/// The answer to what Git said.
pub open spec fn answer_to_probe(probe: Result<Probe, String>) -> StepView<GitStage> {
    let collecting = logs(git_name(), "Collecting metadata"@);
    match probe {
        Err(reason) => StepView {
            effects: seq![collecting, fails(git_name(), "Failed to get git version: "@ + reason@)],
            next: GitStage::Finished,
        },
        Ok(probe) => match probe.version@ {
            GitVersionView::Known(version, major, minor) => {
                let supported = logs(git_name(), "Using supported Git version - "@ + version);
                if too_old(major, minor) {
                    StepView {
                        effects: seq![
                            collecting,
                            fails(
                                git_name(),
                                "Git version "@ + version
                                    + " is too old, please upgrade to 2.37 or newer"@,
                            ),
                        ],
                        next: GitStage::Finished,
                    }
                } else if probe.fsmonitor && probe.untrackedcache {
                    StepView {
                        effects: seq![
                            collecting,
                            supported,
                            logs(git_name(), "Git FS Monitor settings set"@),
                            succeeds(git_name(), "Git FS Monitor Enabled"@),
                        ],
                        next: GitStage::Finished,
                    }
                } else {
                    StepView {
                        effects: seq![
                            collecting,
                            supported,
                            logs(git_name(), "Git FS Monitor not configured"@),
                            logs(git_name(), more_information()),
                            asks(git_name(), "Configure it for this repo now?"@, yes_or_no()),
                        ],
                        next: GitStage::Asking {
                            fsmonitor: probe.fsmonitor,
                            untrackedcache: probe.untrackedcache,
                        },
                    }
                }
            },
            _ => StepView {
                effects: seq![collecting, fails(git_name(), "Failed to get git version"@)],
                next: GitStage::Finished,
            },
        },
    }
}

/// The version that the output of `git --version` names.
pub fn read_version(output: &[u8]) -> (version: GitVersion)
    ensures
        version@ == reported_version(lossy_text(output@)),
        valid_utf8(output@) ==> version@ == reported_version(decode_utf8(output@)),
{
    let report = utf8_lossy(output);
    version_in_report(report.as_str())
}

/// The version that the text of a report names.
pub fn version_in_report(report: &str) -> (version: GitVersion)
    ensures
        version@ == reported_version(report@),
{
    match strip_prefix(trim(report), "git version ") {
        None => GitVersion::Unrecognised,
        Some(version) => match split_once(version, '.') {
            None => GitVersion::Malformed,
            Some((major, rest)) => match split_once(rest, '.') {
                None => GitVersion::Malformed,
                Some((minor, _)) => match (parse_number(major), parse_number(minor)) {
                    (Some(major), Some(minor)) => GitVersion::Known(
                        version.to_owned(),
                        major,
                        minor,
                    ),
                    _ => GitVersion::Malformed,
                },
            },
        },
    }
}

/// Whether the output of `git config --get` switches the setting on.
pub fn read_setting(output: &[u8]) -> (on: bool)
    ensures
        on == switched_on(lossy_text(output@)),
        valid_utf8(output@) ==> on == switched_on(decode_utf8(output@)),
{
    let setting = utf8_lossy(output);
    setting_in_text(setting.as_str())
}

/// Whether the text of a setting switches it on.
pub fn setting_in_text(setting: &str) -> (on: bool)
    ensures
        on == switched_on(setting@),
{
    same_text(trim(setting), "true")
}

/// What Git said, from the outputs of the three runs. If a run failed, the
/// first failure.
pub fn probe(
    version: Result<Vec<u8>, String>,
    fsmonitor: Result<Vec<u8>, String>,
    untrackedcache: Result<Vec<u8>, String>,
) -> (probe: Result<Probe, String>)
    ensures
        match (version, fsmonitor, untrackedcache) {
            (Err(reason), _, _) => probe == Err::<Probe, String>(reason),
            (_, Err(reason), _) => probe == Err::<Probe, String>(reason),
            (_, _, Err(reason)) => probe == Err::<Probe, String>(reason),
            (Ok(version), Ok(fsmonitor), Ok(untrackedcache)) => {
                &&& probe is Ok
                &&& probe->Ok_0.version@ == reported_version(lossy_text(version@))
                &&& probe->Ok_0.fsmonitor == switched_on(lossy_text(fsmonitor@))
                &&& probe->Ok_0.untrackedcache == switched_on(lossy_text(untrackedcache@))
                &&& valid_utf8(version@) ==> probe->Ok_0.version@ == reported_version(
                    decode_utf8(version@),
                )
                &&& valid_utf8(fsmonitor@) ==> probe->Ok_0.fsmonitor == switched_on(
                    decode_utf8(fsmonitor@),
                )
                &&& valid_utf8(untrackedcache@) ==> probe->Ok_0.untrackedcache == switched_on(
                    decode_utf8(untrackedcache@),
                )
            },
        },
{
    match (version, fsmonitor, untrackedcache) {
        (Err(reason), _, _) => Err(reason),
        (_, Err(reason), _) => Err(reason),
        (_, _, Err(reason)) => Err(reason),
        (Ok(version), Ok(fsmonitor), Ok(untrackedcache)) => Ok(
            Probe {
                version: read_version(version.as_slice()),
                fsmonitor: read_setting(fsmonitor.as_slice()),
                untrackedcache: read_setting(untrackedcache.as_slice()),
            },
        ),
    }
}

/// The first failure among the results, if there is one.
fn find_failure(results: Vec<Result<(), String>>) -> (failure: Option<String>)
    ensures
        match failure {
            Some(reason) => first_failure(results@) == Some(reason@),
            None => first_failure(results@) is None,
        },
{
    let mut i: usize = 0;
    assert(results@.skip(0) == results@);
    while i < results.len()
        invariant
            i <= results@.len(),
            first_failure(results@) == first_failure(results@.skip(i as int)),
        decreases results@.len() - i,
    {
        assert(results@.skip(i as int).drop_first() == results@.skip(i + 1));
        match &results[i] {
            Err(reason) => {
                return Some(reason.clone());
            },
            Ok(_) => {},
        }
        i += 1;
    }
    None
}

impl GitDaemonDiagnostic {
    /// The answer to what Git said.
    fn after_probe(probe: Result<Probe, String>) -> (step: Step<GitStage>)
        ensures
            step@ == answer_to_probe(probe),
    {
        let collecting = Self::log_line("Collecting metadata".to_owned());
        match probe {
            Err(reason) => Step::to(GitStage::Finished).send(collecting).send(
                Self::failed("Failed to get git version: ".to_owned().concat(reason.as_str())),
            ),
            Ok(probe) => match probe.version {
                GitVersion::Known(version, major, minor) => if major == 2 && minor < 37 || major
                    == 1 {
                    Step::to(GitStage::Finished).send(collecting).send(
                        Self::failed(
                            "Git version ".to_owned().concat(version.as_str()).concat(
                                " is too old, please upgrade to 2.37 or newer",
                            ),
                        ),
                    )
                } else {
                    let supported = Self::log_line(
                        "Using supported Git version - ".to_owned().concat(version.as_str()),
                    );
                    if probe.fsmonitor && probe.untrackedcache {
                        Step::to(GitStage::Finished).send(collecting).send(supported).send(
                            Self::log_line("Git FS Monitor settings set".to_owned()),
                        ).send(Self::done("Git FS Monitor Enabled".to_owned()))
                    } else {
                        Step::to(
                            GitStage::Asking {
                                fsmonitor: probe.fsmonitor,
                                untrackedcache: probe.untrackedcache,
                            },
                        ).send(collecting).send(supported).send(
                            Self::log_line("Git FS Monitor not configured".to_owned()),
                        ).send(
                            Self::log_line(
                                "For more information, see https://turbo.dev/repo/docs/reference/command-line-reference/optimize".to_owned(),
                            ),
                        ).send(
                            Self::request(
                                "Configure it for this repo now?".to_owned(),
                                yes_and_no(),
                            ),
                        )
                    }
                },
                _ => Step::to(GitStage::Finished).send(collecting).send(
                    Self::failed("Failed to get git version".to_owned()),
                ),
            },
        }
    }

    /// The runs of Git that switch on what is off.
    fn switch_on(fsmonitor: bool, untrackedcache: bool) -> (runs: Vec<Vec<String>>)
        ensures
            runs.deep_view() == switch_on_runs(fsmonitor, untrackedcache),
    {
        let mut runs: Vec<Vec<String>> = Vec::new();
        if !fsmonitor {
            let run = vec!["config".to_owned(), "core.fsmonitor".to_owned(), "true".to_owned()];
            assert(run.deep_view() == switch_on_arguments("core.fsmonitor"@));
            runs.push(run);
        }
        if !untrackedcache {
            let run = vec![
                "config".to_owned(),
                "core.untrackedcache".to_owned(),
                "true".to_owned(),
            ];
            assert(run.deep_view() == switch_on_arguments("core.untrackedcache"@));
            runs.push(run);
        }
        assert(runs.deep_view() == switch_on_runs(fsmonitor, untrackedcache));
        runs
    }

    /// The runs of Git that report its version and its settings.
    fn probe_runs() -> (runs: Vec<Vec<String>>)
        ensures
            runs.deep_view() == probe_arguments(),
    {
        let version = vec!["--version".to_owned()];
        let fsmonitor = vec!["config".to_owned(), "--get".to_owned(), "core.fsmonitor".to_owned()];
        let untrackedcache = vec![
            "config".to_owned(),
            "--get".to_owned(),
            "core.untrackedcache".to_owned(),
        ];
        assert(version.deep_view() == probe_arguments()[0]);
        assert(fsmonitor.deep_view() == probe_arguments()[1]);
        assert(untrackedcache.deep_view() == probe_arguments()[2]);
        let runs = vec![version, fsmonitor, untrackedcache];
        assert(runs.deep_view() == probe_arguments());
        runs
    }
}

impl Diagnostic for GitDaemonDiagnostic {
    type Stage = GitStage;

    type Event = GitEvent;

    open spec fn spec_name() -> Seq<char> {
        git_name()
    }

    open spec fn idle() -> GitStage {
        GitStage::Idle
    }

    open spec fn finished(stage: GitStage) -> bool {
        stage is Finished
    }

    /// A version whose numbers cannot be read, and an answer that was not
    /// offered, cannot come.
    open spec fn accepts(stage: GitStage, event: GitEvent) -> bool {
        match event {
            GitEvent::Begin { .. } => stage is Idle,
            GitEvent::Probed(probe) => stage is Probing && (probe matches Ok(probe)
                ==> probe.version !is Malformed),
            GitEvent::TerminalShut => stage is Asking,
            GitEvent::Answered(answer) => stage is Asking && yes_or_no().contains(answer@),
            GitEvent::AnswerLost => stage is Asking,
            GitEvent::Configured(_) => stage is Configuring,
        }
    }

    open spec fn terminal_gone(event: GitEvent) -> bool {
        event is TerminalShut
    }

    open spec fn answer(stage: GitStage, event: GitEvent) -> StepView<GitStage> {
        match event {
            GitEvent::Begin { unix } => if unix {
                StepView {
                    effects: seq![
                        EffectView::Send(
                            MessageView::NotApplicable(
                                git_name(),
                                "Git FS Monitor (not available on unix)"@,
                            ),
                        ),
                    ],
                    next: GitStage::Finished,
                }
            } else {
                StepView {
                    effects: seq![
                        starts(git_name(), "Git FS Monitor"@),
                        EffectView::RunGit(probe_arguments()),
                    ],
                    next: GitStage::Probing,
                }
            },
            GitEvent::Probed(probe) => answer_to_probe(probe),
            GitEvent::TerminalShut => StepView { effects: seq![], next: GitStage::Finished },
            GitEvent::Answered(answer) => if answer@ == "Yes"@ {
                StepView {
                    effects: seq![
                        logs(git_name(), "Setting Git FS Monitor settings"@),
                        EffectView::RunGit(
                            switch_on_runs(
                                stage->Asking_fsmonitor,
                                stage->Asking_untrackedcache,
                            ),
                        ),
                    ],
                    next: GitStage::Configuring,
                }
            } else {
                StepView {
                    effects: seq![fails(git_name(), "Git FS Monitor not configured"@)],
                    next: GitStage::Finished,
                }
            },
            GitEvent::AnswerLost => StepView {
                effects: seq![succeeds(git_name(), "Git FS Monitor Enabled"@)],
                next: GitStage::Finished,
            },
            GitEvent::Configured(results) => match first_failure(results@) {
                None => StepView {
                    effects: seq![
                        logs(git_name(), "Git FS Monitor settings set"@),
                        succeeds(git_name(), "Git FS Monitor Enabled"@),
                    ],
                    next: GitStage::Finished,
                },
                Some(reason) => StepView {
                    effects: seq![fails(git_name(), "Failed to set git settings: "@ + reason)],
                    next: GitStage::Finished,
                },
            },
        }
    }

    proof fn keeps_the_rules(stage: GitStage, event: GitEvent) {
    }

    fn name() -> (name: &'static str) {
        "git.daemon"
    }

    fn execute(&self, stage: GitStage, event: GitEvent) -> (step: Step<GitStage>) {
        match event {
            GitEvent::Begin { unix } => if unix {
                Step::to(GitStage::Finished).send(
                    Self::not_applicable("Git FS Monitor (not available on unix)".to_owned()),
                )
            } else {
                Step::to(GitStage::Probing).send(
                    Self::started("Git FS Monitor".to_owned()),
                ).perform(Effect::RunGit(Self::probe_runs()))
            },
            GitEvent::Probed(probe) => Self::after_probe(probe),
            GitEvent::TerminalShut => Step::to(GitStage::Finished),
            GitEvent::Answered(answer) => if same_text(answer.as_str(), "Yes") {
                match stage {
                    GitStage::Asking { fsmonitor, untrackedcache } => Step::to(
                        GitStage::Configuring,
                    ).send(
                        Self::log_line("Setting Git FS Monitor settings".to_owned()),
                    ).perform(Effect::RunGit(Self::switch_on(fsmonitor, untrackedcache))),
                    _ => vstd::pervasive::unreached(),
                }
            } else {
                Step::to(GitStage::Finished).send(
                    Self::failed("Git FS Monitor not configured".to_owned()),
                )
            },
            GitEvent::AnswerLost => Step::to(GitStage::Finished).send(
                Self::done("Git FS Monitor Enabled".to_owned()),
            ),
            GitEvent::Configured(results) => match find_failure(results) {
                None => Step::to(GitStage::Finished).send(
                    Self::log_line("Git FS Monitor settings set".to_owned()),
                ).send(Self::done("Git FS Monitor Enabled".to_owned())),
                Some(reason) => Step::to(GitStage::Finished).send(
                    Self::failed("Failed to set git settings: ".to_owned().concat(reason.as_str())),
                ),
            },
        }
    }
}

/// Git is told to switch on exactly those of the two settings that are off, each
/// once.
pub proof fn what_is_off_is_switched_on(fsmonitor: bool, untrackedcache: bool)
    ensures
        ({
            let runs = switch_on_runs(fsmonitor, untrackedcache);
            &&& runs.no_duplicates()
            &&& runs.contains(switch_on_arguments("core.fsmonitor"@)) <==> !fsmonitor
            &&& runs.contains(switch_on_arguments("core.untrackedcache"@)) <==> !untrackedcache
            &&& forall|i: int|
                0 <= i < runs.len() ==> #[trigger] runs[i] == switch_on_arguments(
                    "core.fsmonitor"@,
                ) || runs[i] == switch_on_arguments("core.untrackedcache"@)
        }),
{
    reveal_strlit("core.fsmonitor");
    reveal_strlit("core.untrackedcache");
    assert("core.fsmonitor"@.len() != "core.untrackedcache"@.len());
    let runs = switch_on_runs(fsmonitor, untrackedcache);
    assert(switch_on_arguments("core.fsmonitor"@)[1] == "core.fsmonitor"@);
    assert(switch_on_arguments("core.untrackedcache"@)[1] == "core.untrackedcache"@);
    if !fsmonitor {
        assert(runs[0] == switch_on_arguments("core.fsmonitor"@));
    }
    if !untrackedcache {
        assert(runs[runs.len() - 1] == switch_on_arguments("core.untrackedcache"@));
    }
}

/// On Unix the diagnostic does not apply, and says nothing else. Elsewhere Git is asked
/// for its version and for both settings.
pub proof fn git_is_asked_unless_on_unix(
    diagnostic: &GitDaemonDiagnostic,
    stage: GitStage,
    unix: bool,
    step: Step<GitStage>,
)
    requires
        call_ensures(
            <GitDaemonDiagnostic as Diagnostic>::execute,
            (diagnostic, stage, GitEvent::Begin { unix }),
            step,
        ),
    ensures
        unix ==> step.next is Finished && step@.effects.len() == 1 && step@.effects[0] is Send
            && step@.effects[0]->Send_0 is NotApplicable,
        !unix ==> {
            &&& step.next is Probing
            &&& step@.effects.len() == 2
            &&& step@.effects[0] is Send
            &&& step@.effects[0]->Send_0 is Started
            &&& step@.effects[1] matches EffectView::RunGit(runs) && {
                &&& runs.len() == 3
                &&& runs[0] == seq!["--version"@]
                &&& runs[1] == seq!["config"@, "--get"@, "core.fsmonitor"@]
                &&& runs[2] == seq!["config"@, "--get"@, "core.untrackedcache"@]
            }
        },
{
    assert(step@ == GitDaemonDiagnostic::answer(stage, GitEvent::Begin { unix }));
}

/// No version from 2.37 on is refused, and each version of the second major number
/// before it is, as is each of the first: a version is refused exactly if it is one of
/// those, whatever the settings are, and the refusal names it.
pub proof fn no_version_from_the_monitor_on_is_refused(
    diagnostic: &GitDaemonDiagnostic,
    stage: GitStage,
    probe: Probe,
    version: String,
    major: u32,
    minor: u32,
    step: Step<GitStage>,
)
    requires
        call_ensures(
            <GitDaemonDiagnostic as Diagnostic>::execute,
            (diagnostic, stage, GitEvent::Probed(Ok(probe))),
            step,
        ),
        probe.version == GitVersion::Known(version, major, minor),
    ensures
        major > 2 || (major == 2 && minor >= 37) ==> !tells_failure(step@.effects),
        major == 2 && minor < 37 ==> tells_failure(step@.effects),
        major == 1 ==> tells_failure(step@.effects),
        major == 0 ==> !tells_failure(step@.effects),
        step@.effects[0] == EffectView::Send(
            MessageView::LogLine(git_name(), "Collecting metadata"@),
        ),
        tells_failure(step@.effects) ==> {
            &&& step.next is Finished
            &&& step@.effects.len() == 2
            &&& step@.effects[1] == EffectView::Send(
                MessageView::Failed(
                    git_name(),
                    "Git version "@ + version@ + " is too old, please upgrade to 2.37 or newer"@,
                ),
            )
        },
        !tells_failure(step@.effects) ==> step@.effects.len() > 2 && step@.effects[1]
            == EffectView::Send(
            MessageView::LogLine(git_name(), "Using supported Git version - "@ + version@),
        ),
{
    assert(step@ == GitDaemonDiagnostic::answer(stage, GitEvent::Probed(Ok(probe))));
    assert(probe.version@ == GitVersionView::Known(version@, major, minor));
    if major == 1 || (major == 2 && minor < 37) {
        assert(step@.effects[1] is Send && step@.effects[1]->Send_0 is Failed);
    }
}

/// If a version is supported, so is every later one of the same major number, and every
/// one of a higher major number.
pub proof fn later_versions_stay_supported(
    diagnostic: &GitDaemonDiagnostic,
    stage: GitStage,
    probe: Probe,
    version: String,
    major: u32,
    minor: u32,
    step: Step<GitStage>,
    later_probe: Probe,
    later_version: String,
    later_major: u32,
    later_minor: u32,
    later_step: Step<GitStage>,
)
    requires
        call_ensures(
            <GitDaemonDiagnostic as Diagnostic>::execute,
            (diagnostic, stage, GitEvent::Probed(Ok(probe))),
            step,
        ),
        call_ensures(
            <GitDaemonDiagnostic as Diagnostic>::execute,
            (diagnostic, stage, GitEvent::Probed(Ok(later_probe))),
            later_step,
        ),
        probe.version == GitVersion::Known(version, major, minor),
        later_probe.version == GitVersion::Known(later_version, later_major, later_minor),
        major > 0,
        later_major > major || (later_major == major && later_minor >= minor),
        !tells_failure(step@.effects),
    ensures
        !tells_failure(later_step@.effects),
{
    no_version_from_the_monitor_on_is_refused(
        diagnostic,
        stage,
        probe,
        version,
        major,
        minor,
        step,
    );
    no_version_from_the_monitor_on_is_refused(
        diagnostic,
        stage,
        later_probe,
        later_version,
        later_major,
        later_minor,
        later_step,
    );
}

/// With a version that is supported, all is well exactly if both settings are on. If one
/// is off, the user is asked, to agree or not, and it is kept in mind which are on.
pub proof fn the_user_is_asked_if_a_setting_is_off(
    diagnostic: &GitDaemonDiagnostic,
    stage: GitStage,
    probe: Probe,
    step: Step<GitStage>,
)
    requires
        call_ensures(
            <GitDaemonDiagnostic as Diagnostic>::execute,
            (diagnostic, stage, GitEvent::Probed(Ok(probe))),
            step,
        ),
        probe.version is Known,
        !tells_failure(step@.effects),
    ensures
        probe.fsmonitor && probe.untrackedcache ==> {
            &&& step.next is Finished
            &&& step@.effects.len() == 4
            &&& step@.effects[2] == EffectView::Send(
                MessageView::LogLine(git_name(), "Git FS Monitor settings set"@),
            )
            &&& step@.effects[3] == EffectView::Send(
                MessageView::Done(git_name(), "Git FS Monitor Enabled"@),
            )
            &&& !puts_question(step@.effects)
        },
        !(probe.fsmonitor && probe.untrackedcache) ==> {
            &&& step.next matches GitStage::Asking { fsmonitor, untrackedcache } && fsmonitor
                == probe.fsmonitor && untrackedcache == probe.untrackedcache
            &&& step@.effects.len() == 5
            &&& step@.effects[2] == EffectView::Send(
                MessageView::LogLine(git_name(), "Git FS Monitor not configured"@),
            )
            &&& step@.effects[3] == EffectView::Send(
                MessageView::LogLine(git_name(), more_information()),
            )
            &&& step@.effects[4] matches EffectView::Send(
                MessageView::Request(name, question, answers),
            ) && name == git_name() && question == "Configure it for this repo now?"@
                && answers.len() == 2 && answers[0] == "Yes"@ && answers[1] == "No"@
            &&& !tells_success(step@.effects)
        },
{
    assert(step@ == GitDaemonDiagnostic::answer(stage, GitEvent::Probed(Ok(probe))));
    if let GitVersion::Known(version, major, minor) = probe.version {
        assert(probe.version@ == GitVersionView::Known(version@, major, minor));
        if major == 1 || (major == 2 && minor < 37) {
            assert(step@.effects[1] is Send && step@.effects[1]->Send_0 is Failed);
        }
    }
}

/// Git that could not be asked is a failure, which tells the reason whole, and so is Git
/// that names no version.
pub proof fn git_that_cannot_be_asked_is_a_failure(
    diagnostic: &GitDaemonDiagnostic,
    stage: GitStage,
    probe: Result<Probe, String>,
    step: Step<GitStage>,
)
    requires
        call_ensures(
            <GitDaemonDiagnostic as Diagnostic>::execute,
            (diagnostic, stage, GitEvent::Probed(probe)),
            step,
        ),
        probe matches Ok(probe) ==> probe.version !is Known,
    ensures
        step.next is Finished,
        step@.effects.len() == 2,
        step@.effects[0] == EffectView::Send(
            MessageView::LogLine(git_name(), "Collecting metadata"@),
        ),
        step@.effects[1] == EffectView::Send(
            MessageView::Failed(
                git_name(),
                match probe {
                    Err(reason) => "Failed to get git version: "@ + reason@,
                    Ok(_) => "Failed to get git version"@,
                },
            ),
        ),
{
    assert(step@ == GitDaemonDiagnostic::answer(stage, GitEvent::Probed(probe)));
    if let Ok(probe) = probe {
        assert(probe.version@ is Unrecognised || probe.version@ is Malformed);
    }
}

/// If the user agreed, Git is told to switch on exactly the settings that are off, each
/// once. Any other answer is a failure.
pub proof fn only_consent_switches_on(
    diagnostic: &GitDaemonDiagnostic,
    fsmonitor: bool,
    untrackedcache: bool,
    answer: String,
    step: Step<GitStage>,
)
    requires
        call_ensures(
            <GitDaemonDiagnostic as Diagnostic>::execute,
            (
                diagnostic,
                GitStage::Asking { fsmonitor, untrackedcache },
                GitEvent::Answered(answer),
            ),
            step,
        ),
    ensures
        answer@ != "Yes"@ ==> step.next is Finished && step@.effects.len() == 1 && step@.effects[0]
            == EffectView::Send(
            MessageView::Failed(git_name(), "Git FS Monitor not configured"@),
        ),
        answer@ == "Yes"@ ==> {
            &&& step.next is Configuring
            &&& step@.effects.len() == 2
            &&& step@.effects[0] == EffectView::Send(
                MessageView::LogLine(git_name(), "Setting Git FS Monitor settings"@),
            )
            &&& step@.effects[1] matches EffectView::RunGit(runs) && {
                &&& runs.len() == (if fsmonitor {
                    0int
                } else {
                    1int
                }) + (if untrackedcache {
                    0int
                } else {
                    1int
                })
                &&& !fsmonitor ==> runs.contains(seq!["config"@, "core.fsmonitor"@, "true"@])
                &&& !untrackedcache ==> runs.contains(
                    seq!["config"@, "core.untrackedcache"@, "true"@],
                )
            }
        },
{
    let stage = GitStage::Asking { fsmonitor, untrackedcache };
    assert(step@ == GitDaemonDiagnostic::answer(stage, GitEvent::Answered(answer)));
    if answer@ == "Yes"@ {
        let runs = switch_on_runs(fsmonitor, untrackedcache);
        if !fsmonitor {
            assert(runs[0] == seq!["config"@, "core.fsmonitor"@, "true"@]);
        }
        if !untrackedcache {
            assert(runs[runs.len() - 1] == seq!["config"@, "core.untrackedcache"@, "true"@]);
        }
    }
}

/// A first failure is found, wherever it stands.
proof fn lemma_first_failure(results: Seq<Result<(), String>>, k: int)
    requires
        0 <= k < results.len(),
        results[k] is Err,
        forall|i: int| 0 <= i < k ==> (#[trigger] results[i]) is Ok,
    ensures
        first_failure(results) == Some(results[k]->Err_0@),
    decreases k,
{
    if k > 0 {
        assert(results[0] is Ok);
        let rest = results.drop_first();
        assert forall|i: int| 0 <= i < k - 1 implies (#[trigger] rest[i]) is Ok by {
            assert(rest[i] == results[i + 1]);
        }
        lemma_first_failure(rest, k - 1);
    }
}

/// Without a failure none is found.
proof fn lemma_no_failure(results: Seq<Result<(), String>>)
    requires
        forall|i: int| 0 <= i < results.len() ==> (#[trigger] results[i]) is Ok,
    ensures
        first_failure(results) is None,
    decreases results.len(),
{
    if results.len() > 0 {
        assert(results[0] is Ok);
        let rest = results.drop_first();
        assert forall|i: int| 0 <= i < rest.len() implies (#[trigger] rest[i]) is Ok by {
            assert(rest[i] == results[i + 1]);
        }
        lemma_no_failure(rest);
    }
}

/// All is well if every setting could be switched on, however many there were.
pub proof fn settings_that_are_set_are_well(
    diagnostic: &GitDaemonDiagnostic,
    stage: GitStage,
    results: Vec<Result<(), String>>,
    step: Step<GitStage>,
)
    requires
        call_ensures(
            <GitDaemonDiagnostic as Diagnostic>::execute,
            (diagnostic, stage, GitEvent::Configured(results)),
            step,
        ),
        forall|i: int| 0 <= i < results@.len() ==> (#[trigger] results@[i]) is Ok,
    ensures
        step.next is Finished,
        step@.effects.len() == 2,
        step@.effects[0] == EffectView::Send(
            MessageView::LogLine(git_name(), "Git FS Monitor settings set"@),
        ),
        step@.effects[1] == EffectView::Send(
            MessageView::Done(git_name(), "Git FS Monitor Enabled"@),
        ),
{
    lemma_no_failure(results@);
    assert(step@ == GitDaemonDiagnostic::answer(stage, GitEvent::Configured(results)));
}

/// One setting that could not be switched on is a failure, wherever it stands, and the
/// reason of the first is told whole.
pub proof fn one_setting_that_fails_is_a_failure(
    diagnostic: &GitDaemonDiagnostic,
    stage: GitStage,
    results: Vec<Result<(), String>>,
    step: Step<GitStage>,
    k: int,
)
    requires
        call_ensures(
            <GitDaemonDiagnostic as Diagnostic>::execute,
            (diagnostic, stage, GitEvent::Configured(results)),
            step,
        ),
        0 <= k < results@.len(),
        results@[k] is Err,
        forall|i: int| 0 <= i < k ==> (#[trigger] results@[i]) is Ok,
    ensures
        step.next is Finished,
        step@.effects.len() == 1,
        step@.effects[0] == EffectView::Send(
            MessageView::Failed(
                git_name(),
                "Failed to set git settings: "@ + results@[k]->Err_0@,
            ),
        ),
{
    lemma_first_failure(results@, k);
    assert(step@ == GitDaemonDiagnostic::answer(stage, GitEvent::Configured(results)));
}

/// If the terminal went before it was asked, nothing is done. If it went before it
/// answered, the diagnostic closes as if all were well.
pub proof fn a_terminal_that_has_gone_ends_it(
    diagnostic: &GitDaemonDiagnostic,
    stage: GitStage,
    event: GitEvent,
    step: Step<GitStage>,
)
    requires
        call_ensures(
            <GitDaemonDiagnostic as Diagnostic>::execute,
            (diagnostic, stage, event),
            step,
        ),
        event is TerminalShut || event is AnswerLost,
    ensures
        step.next is Finished,
        event is TerminalShut ==> step@.effects.len() == 0,
        event is AnswerLost ==> step@.effects.len() == 1 && step@.effects[0] == EffectView::Send(
            MessageView::Done(git_name(), "Git FS Monitor Enabled"@),
        ),
{
    assert(step@ == GitDaemonDiagnostic::answer(stage, event));
}

/// A version is read as its first two numbers are, whatever they are, whatever follows
/// the second dot, and however much white space is around the report. It is malformed if
/// one of the two is no number.
pub proof fn a_version_is_read_as_its_numbers_are(
    before: Seq<char>,
    first: &str,
    second: &str,
    rest: Seq<char>,
    after: Seq<char>,
    report: &str,
    version: GitVersion,
    major: Option<u32>,
    minor: Option<u32>,
)
    requires
        call_ensures(version_in_report, (report,), version),
        call_ensures(parse_number, (first,), major),
        call_ensures(parse_number, (second,), minor),
        !first@.contains('.'),
        !second@.contains('.'),
        forall|i: int| 0 <= i < before.len() ==> white_space(#[trigger] before[i]),
        forall|i: int| 0 <= i < after.len() ==> white_space(#[trigger] after[i]),
        rest.len() > 0 ==> !white_space(rest.last()),
        report@ == before + ("git version "@ + (first@ + seq!['.'] + (second@ + seq!['.'] + rest)))
            + after,
    ensures
        match (major, minor) {
            (Some(major), Some(minor)) => {
                version matches GitVersion::Known(text, read_major, read_minor) && text@ == first@
                    + seq!['.'] + (second@ + seq!['.'] + rest) && read_major == major && read_minor
                    == minor
            },
            _ => version is Malformed,
        },
{
    reveal_strlit("git version ");
    let prefix = "git version "@;
    let tail = second@ + seq!['.'] + rest;
    let named = first@ + seq!['.'] + tail;
    let text = prefix + named;
    assert(text[0] == 'g');
    if rest.len() > 0 {
        assert(text.last() == rest.last());
    } else {
        assert(text.last() == '.');
    }
    lemma_trimmed_is(before, text, after);
    assert(prefix.is_prefix_of(text)) by {
        assert(text.subrange(0, prefix.len() as int) =~= prefix);
    }
    assert(text.skip(prefix.len() as int) =~= named);
    lemma_around_first(first@, '.', tail);
    lemma_around_first(second@, '.', rest);
}

/// The parts around the first `c` are those that it was put between, if the first of
/// them has none.
proof fn lemma_around_first(before: Seq<char>, c: char, after: Seq<char>)
    requires
        forall|i: int| 0 <= i < before.len() ==> #[trigger] before[i] != c,
    ensures
        around_first(before + seq![c] + after, c) == Some((before, after)),
{
    let s = before + seq![c] + after;
    let n = before.len() as int;
    assert(s[n] == c);
    assert forall|i: int| 0 <= i < n implies #[trigger] s[i] != c by {
        assert(s[i] == before[i]);
    }
    lemma_length_before_is(s, c, n);
    assert(s.take(n) =~= before);
    assert(s.skip(n + 1) =~= after);
}

/// Nothing else is a version: what is read of a report stands in it after the words that
/// Git begins it with, white space aside, and its two numbers are spelt in it, with a dot
/// after each.
pub proof fn a_version_that_is_read_was_reported(
    report: &str,
    version: GitVersion,
    text: String,
    major: u32,
    minor: u32,
)
    requires
        call_ensures(version_in_report, (report,), version),
        version == GitVersion::Known(text, major, minor),
    ensures
        exists|before: Seq<char>, after: Seq<char>| #[trigger]
            (before + ("git version "@ + text@) + after) == report@ && (forall|i: int|
                0 <= i < before.len() ==> white_space(#[trigger] before[i])) && (forall|i: int|
                0 <= i < after.len() ==> white_space(#[trigger] after[i])),
        exists|first: Seq<char>, second: Seq<char>, rest: Seq<char>| #[trigger]
            (first + seq!['.'] + (second + seq!['.'] + rest)) == text@ && number(first) == Some(
                major,
            ) && number(second) == Some(minor) && !first.contains('.') && !second.contains('.'),
{
    let prefix = "git version "@;
    let (from, to) = lemma_trimmed(report@);
    let inner = trimmed(report@);
    let before = report@.take(from);
    let after = report@.skip(to);
    assert(version@ == GitVersionView::Known(text@, major, minor));
    assert(text@ == inner.skip(prefix.len() as int));
    assert(inner =~= prefix + text@);
    assert(before + (prefix + text@) + after =~= report@);
    assert forall|i: int| 0 <= i < before.len() implies white_space(#[trigger] before[i]) by {
        assert(before[i] == report@[i]);
    }
    assert forall|i: int| 0 <= i < after.len() implies white_space(#[trigger] after[i]) by {
        assert(after[i] == report@[to + i]);
    }
    assert(version_numbers(text@) == Some((major, minor)));
    lemma_around(text@, '.');
    let (first, tail) = around_first(text@, '.')->Some_0;
    lemma_around(tail, '.');
    let (second, rest) = around_first(tail, '.')->Some_0;
    assert(first + seq!['.'] + (second + seq!['.'] + rest) == text@);
    assert(number(first) == Some(major));
    assert(number(second) == Some(minor));
}

/// The parts around the first `c` make up the text with it, and the first of them has
/// none.
proof fn lemma_around(s: Seq<char>, c: char)
    requires
        around_first(s, c) is Some,
    ensures
        ({
            let (before, after) = around_first(s, c)->Some_0;
            before + seq![c] + after == s && !before.contains(c)
        }),
{
    lemma_length_before(s, c);
    let n = length_before(s, c) as int;
    assert(s.take(n) + seq![c] + s.skip(n + 1) =~= s);
    assert(!s.take(n).contains(c)) by {
        assert forall|i: int| 0 <= i < n implies #[trigger] s.take(n)[i] != c by {
            assert(s.take(n)[i] == s[i]);
        }
    }
}

/// A report that does not begin with the words that Git begins it with, white space
/// aside, names no version.
pub proof fn what_git_does_not_say_is_not_recognised(
    report: &str,
    inner: &str,
    version: GitVersion,
)
    requires
        call_ensures(version_in_report, (report,), version),
        call_ensures(trim, (report,), inner),
    ensures
        version is Unrecognised <==> (forall|rest: Seq<char>|
            inner@ != #[trigger] ("git version "@ + rest)),
{
    let prefix = "git version "@;
    if version is Unrecognised {
        assert forall|rest: Seq<char>| inner@ != #[trigger] (prefix + rest) by {
            if inner@ == prefix + rest {
                assert(prefix =~= inner@.subrange(0, prefix.len() as int));
                assert(prefix.is_prefix_of(inner@));
            }
        }
    } else {
        assert(inner@ =~= prefix + inner@.skip(prefix.len() as int));
    }
}

/// A setting is on exactly if its text is that of a true value, white space around it
/// aside.
pub proof fn only_true_switches_on(setting: &str, inner: &str, on: bool)
    requires
        call_ensures(setting_in_text, (setting,), on),
        call_ensures(trim, (setting,), inner),
    ensures
        on <==> inner@ == seq!['t', 'r', 'u', 'e'],
{
    reveal_strlit("true");
    assert("true"@ =~= seq!['t', 'r', 'u', 'e']);
}

/// The bytes that Git wrote are read as the text that they spell is.
pub proof fn bytes_are_read_as_their_text(
    output: &[u8],
    version: GitVersion,
    on: bool,
    text: &str,
    version_in_text: GitVersion,
    on_in_text: bool,
)
    requires
        call_ensures(read_version, (output,), version),
        call_ensures(read_setting, (output,), on),
        call_ensures(version_in_report, (text,), version_in_text),
        call_ensures(setting_in_text, (text,), on_in_text),
        valid_utf8(output@) && text@ == decode_utf8(output@) || text@ == lossy_text(output@),
    ensures
        version@ == version_in_text@,
        on == on_in_text,
{
}

/// A probe needs all three runs: if one failed, the reason of the first is handed on,
/// and else it holds what the outputs of the three are read as, each in its place.
pub proof fn a_probe_is_what_the_three_runs_say(
    version: Result<Vec<u8>, String>,
    fsmonitor: Result<Vec<u8>, String>,
    untrackedcache: Result<Vec<u8>, String>,
    probed: Result<Probe, String>,
    outputs: (&[u8], &[u8], &[u8]),
    read: (GitVersion, bool, bool),
)
    requires
        call_ensures(probe, (version, fsmonitor, untrackedcache), probed),
        call_ensures(read_version, (outputs.0,), read.0),
        call_ensures(read_setting, (outputs.1,), read.1),
        call_ensures(read_setting, (outputs.2,), read.2),
        version matches Ok(output) ==> output@ == outputs.0@,
        fsmonitor matches Ok(output) ==> output@ == outputs.1@,
        untrackedcache matches Ok(output) ==> output@ == outputs.2@,
    ensures
        version is Ok && fsmonitor is Ok && untrackedcache is Ok ==> (probed matches Ok(probed)
            && probed.version@ == read.0@ && probed.fsmonitor == read.1 && probed.untrackedcache
            == read.2),
        version matches Err(reason) ==> (probed matches Err(told) && told == reason),
        version is Ok ==> (fsmonitor matches Err(reason) ==> (probed matches Err(told) && told
            == reason)),
        version is Ok && fsmonitor is Ok ==> (untrackedcache matches Err(reason) ==> (
        probed matches Err(told) && told == reason)),
{
}

/// A version is seen with its text and both its numbers.
pub proof fn versions_are_seen_whole(version: GitVersion)
    ensures
        match version {
            GitVersion::Unrecognised => version@ is Unrecognised,
            GitVersion::Malformed => version@ is Malformed,
            GitVersion::Known(text, major, minor) => {
                version@ matches GitVersionView::Known(seen, first, second) && seen == text@
                    && first == major && second == minor
            },
        },
{
}

} // verus!
