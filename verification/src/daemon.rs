//! Driving the daemon: what to run, and what to make of how it ended.
//!
//! Nothing here launches a process. The caller runs the command line it is
//! handed and reports back how the invocation ended; this module decides
//! what that means and what comes next.

use crate::config::{CommandLine, DmypylsConfig};
use crate::diagnostic::{parse_diagnostics, report_result, Diagnostic};
use crate::error::{Error, ErrorKind};
use crate::payload::{json_text, parse_json, parsed_json, render_json};
use crate::relpathbuf::{file_extension, joined, reconcile_uri, separator, RelPath, RelPathBuf};
use crate::text::starts_with;
use crate::uri::file_path_of;
use tower_lsp::lsp_types::Url;
use vstd::prelude::*;
use vstd::string::StringSliceAdditionalSpecFns;

verus! {

/// What the daemon's answer to a status request starts with when it is up.
pub const LIVENESS_BANNER: &'static str = "Daemon is up and running";

/// The directory that the daemon is started for: the one the server runs in.
pub const DEFAULT_ROOT: &'static str = ".";

/// The extension of the documents that are checked.
pub const PYTHON_EXTENSION: &'static str = "py";

/// How one invocation of the daemon command ended.
#[derive(Debug)]
pub enum Invocation {
    /// The process could not be launched.
    SpawnFailed,
    /// The process ran and exited.
    Exited {
        /// Whether it exited with status zero.
        success: bool,
        /// What it wrote to its standard output.
        stdout: Vec<u8>,
    },
}

/// Whether the answer to a status request says that the daemon is up: it
/// starts with the liveness banner.
pub open spec fn reports_running(stdout: Seq<u8>) -> bool {
    LIVENESS_BANNER.spec_bytes().is_prefix_of(stdout)
}

/// Whether a status request that ended in `outcome` found the daemon up.
pub open spec fn found_running(outcome: Invocation) -> bool {
    match outcome {
        Invocation::SpawnFailed => false,
        Invocation::Exited { success, stdout } => reports_running(stdout@),
    }
}

/// Whether a status request that ended in `outcome` found the daemon up.
///
/// A request that could not even be launched found it down.
pub fn dmypy_is_running(outcome: &Invocation) -> (running: bool)
    ensures
        running == found_running(*outcome),
{
    match outcome {
        Invocation::SpawnFailed => false,
        Invocation::Exited { success, stdout } => starts_with(
            stdout.as_slice(),
            LIVENESS_BANNER.as_bytes(),
        ),
    }
}

/// An answer that is exactly the banner, or goes on behind it, says that the
/// daemon is up; an empty answer, or any shorter than the banner, says that
/// it is not; and a request that could not be launched found it down.
pub proof fn lemma_liveness_banner(stdout: Seq<u8>, rest: Seq<u8>)
    ensures
        reports_running(LIVENESS_BANNER.spec_bytes()),
        reports_running(LIVENESS_BANNER.spec_bytes() + rest),
        stdout.len() == 0 ==> !reports_running(stdout),
        stdout.len() < LIVENESS_BANNER.spec_bytes().len() ==> !reports_running(stdout),
        !found_running(Invocation::SpawnFailed),
{
    let banner = LIVENESS_BANNER.spec_bytes();
    reveal_strlit("Daemon is up and running");
    assert(vstd::utf8::is_ascii_chars(LIVENESS_BANNER@));
    vstd::utf8::is_ascii_chars_encode_utf8(LIVENESS_BANNER@);
    assert(banner.len() == LIVENESS_BANNER@.len() && banner.len() > 0);
    assert(banner =~= banner.subrange(0, banner.len() as int));
    assert(banner =~= (banner + rest).subrange(0, banner.len() as int));
}

/// Whether `result` is the command line made of the configured command and
/// `args`: a failure of kind `NoCommand` where nothing is configured.
pub open spec fn is_command(
    result: Result<CommandLine, Error>,
    config: Seq<Seq<char>>,
    args: Seq<Seq<char>>,
) -> bool {
    if config.len() == 0 {
        result is Err && result->Err_0.kind == ErrorKind::NoCommand
    } else {
        result is Ok && result->Ok_0@ == config + args
    }
}

/// The arguments of a status request.
pub open spec fn status_args() -> Seq<Seq<char>> {
    seq!["status"@]
}

/// The arguments that start the daemon for the directory `root`: the
/// subcommand, the flags that fix the form of its reports, and the directory.
pub open spec fn run_args(root: Seq<char>) -> Seq<Seq<char>> {
    seq![
        "run"@,
        "--"@,
        "--show-absolute-path"@,
        "--show-column-numbers"@,
        "--show-error-end"@,
        "--hide-error-codes"@,
        "--hide-error-context"@,
        "--no-color-output"@,
        "--no-error-summary"@,
        "--no-pretty"@,
        root,
    ]
}

/// The arguments of a request to check the file at `path`.
pub open spec fn check_args(path: Seq<char>) -> Seq<Seq<char>> {
    seq!["check"@, path]
}

/// The arguments of a request to inspect the file at `path`.
pub open spec fn inspect_args(path: Seq<char>) -> Seq<Seq<char>> {
    seq!["inspect"@, path]
}

/// The arguments of a request to stop the daemon.
pub open spec fn stop_args() -> Seq<Seq<char>> {
    seq!["stop"@]
}

/// The command line that asks whether the daemon is up.
pub fn status_command(config: &DmypylsConfig) -> (result: Result<CommandLine, Error>)
    ensures
        is_command(result, config@, status_args()),
{
    match config.command() {
        Ok(line) => {
            let line = line.arg("status");
            assert(line@ =~= config@ + status_args());
            Ok(line)
        },
        Err(error) => Err(error),
    }
}

/// The command line that starts the daemon for the directory `root`.
pub fn run_command(config: &DmypylsConfig, root: &str) -> (result: Result<CommandLine, Error>)
    ensures
        is_command(result, config@, run_args(root@)),
{
    match config.command() {
        Ok(line) => {
            let line = line.arg("run").arg("--").arg("--show-absolute-path").arg(
                "--show-column-numbers",
            ).arg("--show-error-end").arg("--hide-error-codes").arg("--hide-error-context").arg(
                "--no-color-output",
            ).arg("--no-error-summary").arg("--no-pretty").arg(root);
            assert(line@ =~= config@ + run_args(root@));
            Ok(line)
        },
        Err(error) => Err(error),
    }
}

/// The command line that has the daemon check the file at `path`.
pub fn check_command(config: &DmypylsConfig, path: &str) -> (result: Result<CommandLine, Error>)
    ensures
        is_command(result, config@, check_args(path@)),
{
    match config.command() {
        Ok(line) => {
            let line = line.arg("check").arg(path);
            assert(line@ =~= config@ + check_args(path@));
            Ok(line)
        },
        Err(error) => Err(error),
    }
}

/// The command line that has the daemon inspect the file at `path`.
pub fn inspect_command(config: &DmypylsConfig, path: &str) -> (result: Result<CommandLine, Error>)
    ensures
        is_command(result, config@, inspect_args(path@)),
{
    match config.command() {
        Ok(line) => {
            let line = line.arg("inspect").arg(path);
            assert(line@ =~= config@ + inspect_args(path@));
            Ok(line)
        },
        Err(error) => Err(error),
    }
}

/// The command line that stops the daemon.
pub fn stop_command(config: &DmypylsConfig) -> (result: Result<CommandLine, Error>)
    ensures
        is_command(result, config@, stop_args()),
{
    match config.command() {
        Ok(line) => {
            let line = line.arg("stop");
            assert(line@ =~= config@ + stop_args());
            Ok(line)
        },
        Err(error) => Err(error),
    }
}

/// What is known about the daemon.
#[derive(Clone, Copy, Debug, PartialEq, Eq, Structural)]
pub enum DaemonState {
    /// Nobody has asked yet.
    Unknown,
    /// The daemon answered a status request, or was started.
    Running,
    /// The daemon did not answer a status request, or was stopped.
    Stopped,
}

/// What happened to the daemon.
#[derive(Debug)]
pub enum Event {
    /// A status request ended.
    Probed(Invocation),
    /// The command that starts the daemon was run.
    Started,
    /// The command that stops the daemon was run.
    Stopped,
}

/// What to do next to have the daemon running.
#[derive(Debug)]
pub enum Action {
    /// Run this status request and report how it ended.
    Probe(CommandLine),
    /// Run this command, which starts the daemon.
    Start(CommandLine),
    /// Nothing: the daemon is taken to be running.
    Proceed,
}

/// What is known about the daemon after `event`.
pub open spec fn state_after(event: Event) -> DaemonState {
    match event {
        Event::Probed(outcome) => if found_running(outcome) {
            DaemonState::Running
        } else {
            DaemonState::Stopped
        },
        Event::Started => DaemonState::Running,
        Event::Stopped => DaemonState::Stopped,
    }
}

/// Bringing the daemon up comes to an end: a status request always settles
/// whether the daemon is up, and once the start command was run the daemon
/// is taken to be up.
pub proof fn lemma_bring_up_ends(outcome: Invocation)
    ensures
        state_after(Event::Probed(outcome)) != DaemonState::Unknown,
        state_after(Event::Probed(outcome)) == DaemonState::Running <==> found_running(outcome),
        state_after(Event::Started) == DaemonState::Running,
        state_after(Event::Stopped) == DaemonState::Stopped,
{
}

/// Whether `result` is the step that brings the daemon up from `state`: a
/// status request while nothing is known, the start command when the daemon
/// is known to be down, nothing when it is up; a failure of kind `NoCommand`
/// where a command is due and none is configured.
pub open spec fn is_next_action(
    result: Result<Action, Error>,
    state: DaemonState,
    config: Seq<Seq<char>>,
    root: Seq<char>,
) -> bool {
    match state {
        DaemonState::Running => result is Ok && result->Ok_0 is Proceed,
        DaemonState::Unknown => if config.len() == 0 {
            result is Err && result->Err_0.kind == ErrorKind::NoCommand
        } else {
            result is Ok && result->Ok_0 is Probe && result->Ok_0->Probe_0@ == config
                + status_args()
        },
        DaemonState::Stopped => if config.len() == 0 {
            result is Err && result->Err_0.kind == ErrorKind::NoCommand
        } else {
            result is Ok && result->Ok_0 is Start && result->Ok_0->Start_0@ == config + run_args(
                root,
            )
        },
    }
}

impl DaemonState {
    /// What is known about the daemon once `event` has happened. Every event
    /// settles the state by itself, whatever was known before.
    pub fn after(self, event: &Event) -> (next: DaemonState)
        ensures
            next == state_after(*event),
    {
        match event {
            Event::Probed(outcome) => if dmypy_is_running(outcome) {
                DaemonState::Running
            } else {
                DaemonState::Stopped
            },
            Event::Started => DaemonState::Running,
            Event::Stopped => DaemonState::Stopped,
        }
    }

    /// The next step towards a running daemon for the directory `root`.
    pub fn next_action(self, config: &DmypylsConfig, root: &str) -> (result: Result<Action, Error>)
        ensures
            is_next_action(result, self, config@, root@),
    {
        match self {
            DaemonState::Running => Ok(Action::Proceed),
            DaemonState::Unknown => match status_command(config) {
                Ok(line) => Ok(Action::Probe(line)),
                Err(error) => Err(error),
            },
            DaemonState::Stopped => match run_command(config, root) {
                Ok(line) => Ok(Action::Start(line)),
                Err(error) => Err(error),
            },
        }
    }
}

/// A check that is due: the document it is about and the command to run.
#[derive(Debug)]
pub struct CheckPlan {
    pub target: RelPathBuf,
    pub command: CommandLine,
}

/// Whether `result` is the plan for checking the document named by `uri`.
///
/// The document must have an identity under `root`; a document that is no
/// Python source is passed over, which is no failure; for a Python source
/// the command checks the document's path below the root.
pub open spec fn is_check_plan(
    result: Result<Option<CheckPlan>, Error>,
    config: Seq<Seq<char>>,
    root: Seq<char>,
    uri: Url,
) -> bool {
    match reconcile_uri(root, uri) {
        None => result is Err && result->Err_0.kind == (if file_path_of(uri) is None {
            ErrorKind::NotAFilePath
        } else {
            ErrorKind::NotUnderRoot
        }),
        Some(path) => if file_extension(path.parts) != Some(PYTHON_EXTENSION@) {
            result is Ok && result->Ok_0 is None
        } else if config.len() == 0 {
            result is Err && result->Err_0.kind == ErrorKind::NoCommand
        } else {
            &&& result is Ok
            &&& result->Ok_0 is Some
            &&& result->Ok_0->Some_0.target@ == path
            &&& result->Ok_0->Some_0.command@ == config + check_args(
                joined(path.parts, separator()),
            )
        },
    }
}

/// Plans the check of the document that the editor names by `uri`.
pub fn plan_check(config: &DmypylsConfig, root_dir: &str, uri: &Url) -> (result: Result<
    Option<CheckPlan>,
    Error,
>)
    ensures
        is_check_plan(result, config@, root_dir@, *uri),
{
    let target = match RelPathBuf::from_uri(root_dir, uri) {
        Ok(target) => target,
        Err(error) => {
            return Err(error);
        },
    };
    if !target.has_extension(PYTHON_EXTENSION) {
        return Ok(None);
    }
    let path = target.relative();
    match check_command(config, path.as_str()) {
        Ok(command) => Ok(Some(CheckPlan { target, command })),
        Err(error) => Err(error),
    }
}

/// Whether `result` is what a check that ended in `outcome` found about
/// `target`: the findings in what the daemon wrote, whatever its exit
/// status, and a failure of kind `Spawn` where it could not be launched.
pub open spec fn is_check_result(
    result: Result<Vec<Diagnostic>, Error>,
    root: Seq<char>,
    target: RelPath,
    outcome: Invocation,
) -> bool {
    match outcome {
        Invocation::SpawnFailed => result is Err && result->Err_0.kind == ErrorKind::Spawn,
        Invocation::Exited { success, stdout } => report_result(result, root, target, stdout@),
    }
}

/// The findings of a check of `target` that ended in `outcome`.
pub fn check_outcome(root_dir: &str, target: &RelPathBuf, outcome: &Invocation) -> (result: Result<
    Vec<Diagnostic>,
    Error,
>)
    ensures
        is_check_result(result, root_dir@, target@, *outcome),
{
    match outcome {
        Invocation::SpawnFailed => Err(
            Error::with_kind(ErrorKind::Spawn, "Failed to execute dmypy check"),
        ),
        Invocation::Exited { success, stdout } => parse_diagnostics(
            root_dir,
            target,
            stdout.as_slice(),
        ),
    }
}

/// Whether `result` is the hover content that an inspect request which
/// ended in `outcome` gives.
///
/// A request that could not be launched fails with `Spawn`. One that exited
/// with a status other than zero gives no content. One that exited with
/// status zero gives the JSON document it wrote, as compact text, and fails
/// with `Payload` where it wrote none.
pub open spec fn is_hover_content(
    result: Result<Option<String>, Error>,
    outcome: Invocation,
) -> bool {
    match outcome {
        Invocation::SpawnFailed => result is Err && result->Err_0.kind == ErrorKind::Spawn,
        Invocation::Exited { success, stdout } => if !success {
            result is Ok && result->Ok_0 is None
        } else {
            match parsed_json(stdout@) {
                Some(document) => {
                    &&& result is Ok
                    &&& result->Ok_0 is Some
                    &&& result->Ok_0->Some_0@ == json_text(document)
                },
                None => result is Err && result->Err_0.kind == ErrorKind::Payload,
            }
        },
    }
}

/// The hover content that an inspect request which ended in `outcome` gives.
pub fn hover_content(outcome: &Invocation) -> (result: Result<Option<String>, Error>)
    ensures
        is_hover_content(result, *outcome),
{
    match outcome {
        Invocation::SpawnFailed => Err(
            Error::with_kind(ErrorKind::Spawn, "Failed to execute dmypy inspect"),
        ),
        Invocation::Exited { success, stdout } => {
            if !*success {
                return Ok(None);
            }
            match parse_json(stdout.as_slice()) {
                Some(document) => Ok(Some(render_json(&document))),
                None => Err(
                    Error::with_kind(ErrorKind::Payload, "dmypy inspect wrote no JSON document"),
                ),
            }
        },
    }
}

} // verus!
