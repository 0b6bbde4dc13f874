use dmypyls::config::{CommandLine, DmypylsConfig};
use dmypyls::daemon::{
    check_command, check_outcome, dmypy_is_running, hover_content, inspect_command, plan_check,
    run_command, status_command, stop_command, Action, DaemonState, Event, Invocation,
    LIVENESS_BANNER,
};
use dmypyls::diagnostic::Severity;
use dmypyls::error::{Context, Error, ErrorKind};
use dmypyls::relpathbuf::RelPathBuf;
use dmypyls::versions::{VersionTable, UNKNOWN_VERSION};
use tower_lsp::lsp_types::Url;

fn config(tokens: &[&str]) -> DmypylsConfig {
    DmypylsConfig { dmypy_command: tokens.iter().map(|token| token.to_string()).collect() }
}

fn argv(line: &CommandLine) -> Vec<String> {
    let mut all = vec![line.program.clone()];
    all.extend(line.args.iter().cloned());
    all
}

fn exited(success: bool, stdout: &[u8]) -> Invocation {
    Invocation::Exited { success, stdout: stdout.to_vec() }
}

#[test]
fn configured_command_becomes_program_and_arguments() {
    let line = config(&["pipenv", "run", "dmypy"]).command().unwrap();
    assert_eq!(line.program, "pipenv");
    assert_eq!(line.args, ["run", "dmypy"]);
    let line = config(&["dmypy"]).command().unwrap();
    assert_eq!(line.program, "dmypy");
    assert!(line.args.is_empty());
}

#[test]
fn empty_command_fails_at_every_invocation_site() {
    let empty = config(&[]);
    assert_eq!(empty.command().unwrap_err().kind(), ErrorKind::NoCommand);
    assert_eq!(status_command(&empty).unwrap_err().kind(), ErrorKind::NoCommand);
    assert_eq!(run_command(&empty, ".").unwrap_err().kind(), ErrorKind::NoCommand);
    assert_eq!(check_command(&empty, "a.py").unwrap_err().kind(), ErrorKind::NoCommand);
    assert_eq!(inspect_command(&empty, "/root/a.py").unwrap_err().kind(), ErrorKind::NoCommand);
    assert_eq!(stop_command(&empty).unwrap_err().kind(), ErrorKind::NoCommand);
    assert_eq!(DaemonState::Unknown.next_action(&empty, ".").unwrap_err().kind(), ErrorKind::NoCommand);
    assert_eq!(DaemonState::Stopped.next_action(&empty, ".").unwrap_err().kind(), ErrorKind::NoCommand);
    assert!(matches!(DaemonState::Running.next_action(&empty, "."), Ok(Action::Proceed)));
}

#[test]
fn command_lines_of_the_five_requests() {
    let configured = config(&["poetry", "run", "dmypy"]);
    assert_eq!(argv(&status_command(&configured).unwrap()), ["poetry", "run", "dmypy", "status"]);
    assert_eq!(argv(&stop_command(&configured).unwrap()), ["poetry", "run", "dmypy", "stop"]);
    assert_eq!(
        argv(&check_command(&configured, "pkg/mod.py").unwrap()),
        ["poetry", "run", "dmypy", "check", "pkg/mod.py"]
    );
    assert_eq!(
        argv(&inspect_command(&configured, "/root/pkg/mod.py").unwrap()),
        ["poetry", "run", "dmypy", "inspect", "/root/pkg/mod.py"]
    );
    assert_eq!(
        argv(&run_command(&configured, ".").unwrap()),
        [
            "poetry",
            "run",
            "dmypy",
            "run",
            "--",
            "--show-absolute-path",
            "--show-column-numbers",
            "--show-error-end",
            "--hide-error-codes",
            "--hide-error-context",
            "--no-color-output",
            "--no-error-summary",
            "--no-pretty",
            ".",
        ]
    );
}

#[test]
fn liveness_is_told_by_the_banner() {
    assert_eq!(LIVENESS_BANNER, "Daemon is up and running");
    assert!(dmypy_is_running(&exited(true, b"Daemon is up and running")));
    assert!(dmypy_is_running(&exited(true, b"Daemon is up and running\n")));
    assert!(dmypy_is_running(&exited(false, b"Daemon is up and running")));
    assert!(!dmypy_is_running(&exited(true, b"")));
    assert!(!dmypy_is_running(&exited(true, b"Daemon is up")));
    assert!(!dmypy_is_running(&exited(true, b"No status file found")));
    assert!(!dmypy_is_running(&exited(true, b" Daemon is up and running")));
    assert!(!dmypy_is_running(&exited(true, b"daemon is up and running")));
    assert!(!dmypy_is_running(&exited(true, &[0xff, 0xfe])));
    assert!(!dmypy_is_running(&Invocation::SpawnFailed));
}

#[test]
fn state_follows_the_events() {
    let state = DaemonState::Unknown;
    let state = state.after(&Event::Probed(exited(true, b"Daemon is up and running")));
    assert_eq!(state, DaemonState::Running);
    let state = state.after(&Event::Stopped);
    assert_eq!(state, DaemonState::Stopped);
    let state = state.after(&Event::Started);
    assert_eq!(state, DaemonState::Running);
    let state = state.after(&Event::Probed(exited(true, b"")));
    assert_eq!(state, DaemonState::Stopped);
    let state = DaemonState::Unknown.after(&Event::Probed(Invocation::SpawnFailed));
    assert_eq!(state, DaemonState::Stopped);
}

#[test]
fn daemon_is_probed_then_started_only_if_down() {
    let configured = config(&["dmypy"]);
    let Ok(Action::Probe(line)) = DaemonState::Unknown.next_action(&configured, ".") else {
        panic!("a status request is due");
    };
    assert_eq!(argv(&line), ["dmypy", "status"]);
    let Ok(Action::Start(line)) = DaemonState::Stopped.next_action(&configured, "/work") else {
        panic!("the start command is due");
    };
    assert_eq!(argv(&line).first().unwrap(), "dmypy");
    assert_eq!(argv(&line)[1], "run");
    assert_eq!(argv(&line).last().unwrap(), "/work");
    assert_eq!(argv(&line).len(), 12);
    assert!(matches!(DaemonState::Running.next_action(&configured, "."), Ok(Action::Proceed)));
}

#[test]
fn check_is_planned_for_python_sources_only() {
    let configured = config(&["dmypy"]);
    let uri = Url::parse("file:///root/pkg/mod.py").unwrap();
    let plan = plan_check(&configured, "/root", &uri).unwrap().unwrap();
    assert_eq!(argv(&plan.command), ["dmypy", "check", "pkg/mod.py"]);
    assert!(plan.target == RelPathBuf::from_filename("/root", "pkg/mod.py").unwrap());
    let uri = Url::parse("file:///root/README.md").unwrap();
    assert!(plan_check(&configured, "/root", &uri).unwrap().is_none());
    assert!(plan_check(&config(&[]), "/root", &uri).unwrap().is_none());
    let uri = Url::parse("file:///root/Makefile").unwrap();
    assert!(plan_check(&configured, "/root", &uri).unwrap().is_none());
}

#[test]
fn check_plan_fails_as_its_steps_fail() {
    let configured = config(&["dmypy"]);
    let uri = Url::parse("file:///elsewhere/mod.py").unwrap();
    assert_eq!(plan_check(&configured, "/root", &uri).unwrap_err().kind(), ErrorKind::NotUnderRoot);
    let uri = Url::parse("untitled:Untitled-1").unwrap();
    assert_eq!(plan_check(&configured, "/root", &uri).unwrap_err().kind(), ErrorKind::NotAFilePath);
    let uri = Url::parse("file:///root/pkg/mod.py").unwrap();
    assert_eq!(plan_check(&config(&[]), "/root", &uri).unwrap_err().kind(), ErrorKind::NoCommand);
    let uri = Url::parse("file:///elsewhere/mod.py").unwrap();
    assert_eq!(plan_check(&config(&[]), "/root", &uri).unwrap_err().kind(), ErrorKind::NotUnderRoot);
}

#[test]
fn check_output_is_read_whatever_the_exit_status() {
    let target = RelPathBuf::from_filename("/root", "a.py").unwrap();
    let stdout = b"/root/a.py:3:1:3:10: error: Incompatible type\n";
    for success in [true, false] {
        let found = check_outcome("/root", &target, &exited(success, stdout)).unwrap();
        assert_eq!(found.len(), 1);
        assert_eq!(found[0].severity, Some(Severity::Error));
        assert_eq!(found[0].message, "Incompatible type");
    }
    assert!(check_outcome("/root", &target, &exited(true, b"")).unwrap().is_empty());
    let error = check_outcome("/root", &target, &Invocation::SpawnFailed).unwrap_err();
    assert_eq!(error.kind(), ErrorKind::Spawn);
    let error = check_outcome("/root", &target, &exited(true, &[0x80])).unwrap_err();
    assert_eq!(error.kind(), ErrorKind::Encoding);
}

#[test]
fn hover_content_is_the_document_written_out_again() {
    let content = hover_content(&exited(true, b" { \"type\" : \"builtins.int\",\n \"n\": [1, 2.5, null, true] } ")).unwrap();
    assert_eq!(content, Some("{\"n\":[1,2.5,null,true],\"type\":\"builtins.int\"}".to_string()));
    let content = hover_content(&exited(true, b"\"builtins.str\"")).unwrap();
    assert_eq!(content, Some("\"builtins.str\"".to_string()));
    let content = hover_content(&exited(true, b"[ ]")).unwrap();
    assert_eq!(content, Some("[]".to_string()));
}

#[test]
fn hover_content_is_absent_or_fails() {
    assert_eq!(hover_content(&exited(false, b"{\"a\": 1}")).unwrap(), None);
    assert_eq!(hover_content(&exited(false, b"not json")).unwrap(), None);
    assert_eq!(hover_content(&Invocation::SpawnFailed).unwrap_err().kind(), ErrorKind::Spawn);
    assert_eq!(hover_content(&exited(true, b"not json")).unwrap_err().kind(), ErrorKind::Payload);
    assert_eq!(hover_content(&exited(true, b"")).unwrap_err().kind(), ErrorKind::Payload);
    assert_eq!(hover_content(&exited(true, b"{\"a\": 1} trailing")).unwrap_err().kind(), ErrorKind::Payload);
}

#[test]
fn recorded_version_is_read_back() {
    let mut table = VersionTable::new();
    assert_eq!(table.latest("file:///root/a.py"), 0);
    table.record("file:///root/a.py", 5);
    assert_eq!(table.latest("file:///root/a.py"), 5);
    assert_eq!(table.latest("file:///root/b.py"), 0);
    assert_eq!(UNKNOWN_VERSION, 0);
}

#[test]
fn later_version_replaces_the_earlier_one() {
    let mut table = VersionTable::new();
    table.record("a", 5);
    table.record("b", 7);
    table.record("a", 3);
    assert_eq!(table.latest("a"), 3);
    assert_eq!(table.latest("b"), 7);
    table.record("a", -1);
    assert_eq!(table.latest("a"), -1);
    assert_eq!(table.latest(""), 0);
}

#[test]
fn project_configuration_is_preferred() {
    let chosen = DmypylsConfig::select(Some(config(&["project"])), Some(config(&["user"]))).unwrap();
    assert_eq!(chosen.dmypy_command, ["project"]);
    let chosen = DmypylsConfig::select(Some(config(&["project"])), None).unwrap();
    assert_eq!(chosen.dmypy_command, ["project"]);
    let chosen = DmypylsConfig::select(None, Some(config(&["user"]))).unwrap();
    assert_eq!(chosen.dmypy_command, ["user"]);
    let error = DmypylsConfig::select(None, None).unwrap_err();
    assert_eq!(error.kind(), ErrorKind::Other);
    assert_eq!(error.message(), "error: No configuration found");
}

#[test]
fn errors_carry_kind_and_message() {
    let error = Error::new("plain".to_string());
    assert_eq!(error.kind(), ErrorKind::Other);
    assert_eq!(error.message(), "plain");
    let error = Error::no_command();
    assert_eq!(error.kind(), ErrorKind::NoCommand);
    assert_eq!(error.message(), "No dmypy command found");
    let error = Error::with_kind(ErrorKind::Spawn, "no such program");
    assert_eq!(error.kind(), ErrorKind::Spawn);
    assert_eq!(error.message(), "no such program");
    let error = Error::from("text");
    assert_eq!(error.kind(), ErrorKind::Other);
    assert_eq!(error.message(), "error: text");
    let error = Error::from("text".to_string());
    assert_eq!(error.message(), "error: text");
    let error = Error::with_kind(ErrorKind::Encoding, "bad bytes").in_context("reading");
    assert_eq!(error.kind(), ErrorKind::Encoding);
    assert_eq!(error.message(), "reading: bad bytes");
}

#[test]
fn context_is_put_before_the_message_of_a_failure() {
    let failed: Result<u8, Error> = Err(Error::with_kind(ErrorKind::Spawn, "no such program"));
    let error = failed.context("Failed to execute dmypy check").unwrap_err();
    assert_eq!(error.kind(), ErrorKind::Spawn);
    assert_eq!(error.message(), "Failed to execute dmypy check: no such program");
    let fine: Result<u8, Error> = Ok(7);
    assert_eq!(fine.context("anything").unwrap(), 7);
    let failed: Result<u8, Error> = Err(Error::no_command());
    assert_eq!(failed.ok_or_log("anything"), None);
    let fine: Result<u8, Error> = Ok(7);
    assert_eq!(fine.ok_or_log("anything"), Some(7));
}

#[test]
fn findings_are_tagged_with_the_latest_version() {
    let target = RelPathBuf::from_filename("/root", "a.py").unwrap();
    let stdout = b"/root/a.py:3:1:3:10: error: Incompatible type\n";
    let mut table = VersionTable::new();
    table.record("file:///root/a.py", 5);
    let found = check_outcome("/root", &target, &exited(false, stdout)).unwrap();
    table.record("file:///root/a.py", 6);
    let publication = table.tag("file:///root/a.py", found);
    assert_eq!(publication.version, 6);
    assert_eq!(publication.diagnostics.len(), 1);
    assert_eq!(publication.diagnostics[0].message, "Incompatible type");
    let publication = table.tag("file:///root/never-opened.py", Vec::new());
    assert_eq!(publication.version, 0);
    assert!(publication.diagnostics.is_empty());
}
