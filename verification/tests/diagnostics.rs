use dmypyls::diagnostic::{
    convert_capture_to_diagnostic, parse_diagnostics, to_zero_based, Diagnostic, Position, Range,
    Severity, DIAGNOSTIC_SOURCE, GROUP_COUNT, MYPY_ERROR_REGEX,
};
use dmypyls::error::ErrorKind;
use dmypyls::relpathbuf::RelPathBuf;
use tower_lsp::lsp_types::DiagnosticSeverity;

fn target(root: &str, name: &str) -> RelPathBuf {
    RelPathBuf::from_filename(root, name).unwrap()
}

fn report(root: &str, name: &str, output: &str) -> Vec<Diagnostic> {
    parse_diagnostics(root, &target(root, name), output.as_bytes()).unwrap()
}

fn range(a: u32, b: u32, c: u32, d: u32) -> Range {
    Range { start: Position { line: a, character: b }, end: Position { line: c, character: d } }
}

fn groups(fields: &[&str]) -> Vec<Option<String>> {
    fields.iter().map(|field| Some(field.to_string())).collect()
}

#[test]
fn end_to_end_line_becomes_one_diagnostic() {
    let found = report(
        "/root",
        "pkg/mod.py",
        "/root/pkg/mod.py:10:3:10:15: error: Argument 1 has incompatible type",
    );
    assert_eq!(found.len(), 1);
    assert_eq!(found[0].range, range(9, 2, 9, 14));
    assert_eq!(found[0].severity, Some(Severity::Error));
    assert_eq!(found[0].message, "Argument 1 has incompatible type");
}

#[test]
fn line_with_too_few_fields_yields_nothing() {
    assert!(report("/root", "a.py", "a.py:3:1:3: error: Incompatible type").is_empty());
    assert!(report("/root", "a.py", "a.py:3: error: Incompatible type").is_empty());
    assert!(report("/root", "a.py", "a.py: error: Incompatible type").is_empty());
}

#[test]
fn line_with_non_numeric_position_yields_nothing() {
    assert!(report("/root", "a.py", "a.py:x:1:3:10: error: Incompatible type").is_empty());
    assert!(report("/root", "a.py", "a.py:3:1:3:1o: error: Incompatible type").is_empty());
    assert!(report("/root", "a.py", "a.py:-3:1:3:10: error: Incompatible type").is_empty());
}

#[test]
fn line_with_missing_colon_yields_nothing() {
    assert!(report("/root", "a.py", "a.py:3:1:3:10 error: Incompatible type").is_empty());
    assert!(report("/root", "a.py", "a.py:3:1:3:10: error Incompatible type").is_empty());
    assert!(report("/root", "a.py", "a.py 3:1:3:10: error: Incompatible type").is_empty());
}

#[test]
fn banner_and_summary_lines_are_passed_over() {
    let output = "Daemon started\na.py:3:1:3:10: error: Incompatible type\nFound 1 error in 1 file (checked 1 source file)\n";
    let found = report("/root", "a.py", output);
    assert_eq!(found.len(), 1);
    assert_eq!(found[0].message, "Incompatible type");
}

#[test]
fn empty_report_yields_nothing() {
    assert!(report("/root", "a.py", "").is_empty());
    assert!(report("/root", "a.py", "\n\n").is_empty());
}

#[test]
fn position_too_large_for_32_bits_yields_nothing() {
    assert!(report("/root", "a.py", "a.py:4294967296:1:3:10: error: m").is_empty());
    let found = report("/root", "a.py", "a.py:4294967295:1:3:10: error: m");
    assert_eq!(found.len(), 1);
    assert_eq!(found[0].range.start.line, 4294967294);
}

#[test]
fn position_in_other_digits_yields_nothing() {
    assert!(report("/root", "a.py", "a.py:\u{663}:1:3:10: error: m").is_empty());
}

#[test]
fn reported_zero_and_one_both_become_zero() {
    let found = report("/root", "a.py", "a.py:0:0:0:0: error: zero\na.py:1:1:1:1: error: one\n");
    assert_eq!(found.len(), 2);
    assert_eq!(found[0].range, range(0, 0, 0, 0));
    assert_eq!(found[1].range, range(0, 0, 0, 0));
    assert_eq!(to_zero_based(0), 0);
    assert_eq!(to_zero_based(1), 0);
    assert_eq!(to_zero_based(2), 1);
    assert_eq!(to_zero_based(u32::MAX), u32::MAX - 1);
}

#[test]
fn repeated_line_is_reported_once() {
    let line = "file.py:3:1:3:10: error: Incompatible type\n";
    let found = report("/root", "file.py", &format!("{line}{line}"));
    assert_eq!(found.len(), 1);
    assert_eq!(found[0].range, range(2, 0, 2, 9));
    assert_eq!(found[0].severity, Some(Severity::Error));
    assert_eq!(found[0].message, "Incompatible type");
}

#[test]
fn relative_and_absolute_name_of_one_file_collapse_too() {
    let output = "file.py:3:1:3:10: error: Incompatible type\n/root/file.py:3:1:3:10: error: Incompatible type\n/root//./file.py:3:1:3:10: error: Incompatible type\n";
    assert_eq!(report("/root", "file.py", output).len(), 1);
}

#[test]
fn name_behind_a_leading_dot_is_another_file() {
    let output = "./file.py:3:1:3:10: error: Incompatible type\n";
    assert!(report("/root", "file.py", output).is_empty());
    assert_eq!(report("/root", "./file.py", output).len(), 1);
}

#[test]
fn findings_that_differ_are_all_kept_in_order_of_first_report() {
    let output = "a.py:1:1:1:2: error: one\na.py:2:1:2:2: error: two\na.py:1:1:1:2: error: one\na.py:1:1:1:2: warning: one\na.py:1:1:1:3: error: one\n";
    let found = report("/root", "a.py", output);
    assert_eq!(found.len(), 4);
    assert_eq!(found[0].message, "one");
    assert_eq!(found[0].severity, Some(Severity::Error));
    assert_eq!(found[1].message, "two");
    assert_eq!(found[2].severity, Some(Severity::Warning));
    assert_eq!(found[3].range, range(0, 0, 0, 2));
}

#[test]
fn lines_about_other_files_are_dropped() {
    let output = "a.py:3:1:3:10: error: in a\nb.py:4:1:4:10: error: in b\n";
    let found = report("/root", "a.py", output);
    assert_eq!(found.len(), 1);
    assert_eq!(found[0].message, "in a");
    let found = report("/root", "b.py", output);
    assert_eq!(found.len(), 1);
    assert_eq!(found[0].message, "in b");
    assert!(report("/root", "c.py", output).is_empty());
}

#[test]
fn absolute_name_outside_the_root_is_dropped() {
    assert!(report("/root", "a.py", "/elsewhere/a.py:3:1:3:10: error: m").is_empty());
    assert!(report("/root", "a.py", "/rootless/a.py:3:1:3:10: error: m").is_empty());
}

#[test]
fn carriage_returns_at_line_ends_are_not_part_of_the_message() {
    let found = report("/root", "a.py", "a.py:3:1:3:10: error: first\r\na.py:4:1:4:10: error: second\r\n");
    assert_eq!(found.len(), 2);
    assert_eq!(found[0].message, "first");
    assert_eq!(found[1].message, "second");
}

#[test]
fn message_may_hold_colons_and_other_scripts() {
    let found = report("/root", "a.py", "a.py:3:1:3:10: error: Name \"é\" is: not defined");
    assert_eq!(found.len(), 1);
    assert_eq!(found[0].message, "Name \"é\" is: not defined");
}

#[test]
fn file_name_is_taken_as_long_as_possible() {
    let found = report("/root", "a.py:1:1:1:1: x: b.py", "a.py:1:1:1:1: x: b.py:3:1:3:10: error: m");
    assert_eq!(found.len(), 1);
    assert_eq!(found[0].range, range(2, 0, 2, 9));
}

#[test]
fn report_that_is_not_utf8_is_an_encoding_error() {
    let error = parse_diagnostics("/root", &target("/root", "a.py"), &[0x61, 0xff, 0x62]).unwrap_err();
    assert_eq!(error.kind(), ErrorKind::Encoding);
    let error = parse_diagnostics("/root", &target("/root", "a.py"), &[0xc3]).unwrap_err();
    assert_eq!(error.kind(), ErrorKind::Encoding);
}

#[test]
fn severity_keywords() {
    assert_eq!(Severity::from_keyword("error"), Some(Severity::Error));
    assert_eq!(Severity::from_keyword("Error"), Some(Severity::Error));
    assert_eq!(Severity::from_keyword("warning"), Some(Severity::Warning));
    assert_eq!(Severity::from_keyword("Warning"), Some(Severity::Warning));
    assert_eq!(Severity::from_keyword("information"), Some(Severity::Information));
    assert_eq!(Severity::from_keyword("Information"), Some(Severity::Information));
    assert_eq!(Severity::from_keyword("hint"), Some(Severity::Hint));
    assert_eq!(Severity::from_keyword("Hint"), Some(Severity::Hint));
    assert_eq!(Severity::from_keyword("note"), None);
    assert_eq!(Severity::from_keyword("ERROR"), None);
    assert_eq!(Severity::from_keyword(""), None);
    assert_eq!(Severity::from_keyword("errors"), None);
}

#[test]
fn protocol_names_agree_with_the_protocol_crate() {
    let pairs = [
        ("Error", Severity::Error, DiagnosticSeverity::ERROR),
        ("Warning", Severity::Warning, DiagnosticSeverity::WARNING),
        ("Information", Severity::Information, DiagnosticSeverity::INFORMATION),
        ("Hint", Severity::Hint, DiagnosticSeverity::HINT),
    ];
    for (keyword, ours, theirs) in pairs {
        assert_eq!(Severity::from_keyword(keyword), Some(ours));
        assert_eq!(DiagnosticSeverity::try_from(keyword), Ok(theirs));
    }
    for keyword in ["note", "ERROR", "", "Errors", "fatal"] {
        assert_eq!(Severity::from_keyword(keyword), None);
        assert!(DiagnosticSeverity::try_from(keyword).is_err());
    }
}

#[test]
fn unknown_severity_keeps_the_record() {
    let found = report("/root", "a.py", "a.py:3:1:3:10: note: See the docs");
    assert_eq!(found.len(), 1);
    assert_eq!(found[0].severity, None);
    assert_eq!(found[0].message, "See the docs");
}

#[test]
fn groups_become_a_diagnostic() {
    let caps = groups(&["whole", "pkg/mod.py", "10", "3", "10", "15", "error", "Argument 1"]);
    let found = convert_capture_to_diagnostic("/root", &target("/root", "pkg/mod.py"), &caps).unwrap();
    assert_eq!(found.range, range(9, 2, 9, 14));
    assert_eq!(found.severity, Some(Severity::Error));
    assert_eq!(found.message, "Argument 1");
}

#[test]
fn groups_with_a_plus_sign_are_numbers() {
    let caps = groups(&["whole", "pkg/mod.py", "+10", "3", "10", "15", "error", "m"]);
    let found = convert_capture_to_diagnostic("/root", &target("/root", "pkg/mod.py"), &caps).unwrap();
    assert_eq!(found.range.start.line, 9);
}

#[test]
fn too_few_or_missing_groups_yield_nothing() {
    let root = "/root";
    let caps = groups(&["whole", "a.py", "1", "1", "1", "1", "error"]);
    assert!(caps.len() < GROUP_COUNT);
    assert!(convert_capture_to_diagnostic(root, &target(root, "a.py"), &caps).is_none());
    assert!(convert_capture_to_diagnostic(root, &target(root, "a.py"), &Vec::new()).is_none());
    for missing in 1..GROUP_COUNT {
        let mut caps = groups(&["whole", "a.py", "1", "1", "1", "1", "error", "m"]);
        assert!(convert_capture_to_diagnostic(root, &target(root, "a.py"), &caps).is_some());
        caps[missing] = None;
        assert!(convert_capture_to_diagnostic(root, &target(root, "a.py"), &caps).is_none());
    }
    let mut caps = groups(&["whole", "a.py", "1", "1", "1", "1", "error", "m"]);
    caps[0] = None;
    assert!(convert_capture_to_diagnostic(root, &target(root, "a.py"), &caps).is_some());
}

#[test]
fn groups_about_another_file_yield_nothing() {
    let caps = groups(&["whole", "b.py", "1", "1", "1", "1", "error", "m"]);
    assert!(convert_capture_to_diagnostic("/root", &target("/root", "a.py"), &caps).is_none());
    let caps = groups(&["whole", "/other/a.py", "1", "1", "1", "1", "error", "m"]);
    assert!(convert_capture_to_diagnostic("/root", &target("/root", "a.py"), &caps).is_none());
}

#[test]
fn line_pattern_and_source_label() {
    assert_eq!(MYPY_ERROR_REGEX, r"(.*):(\d+):(\d+):(\d+):(\d+): (\w+): (.*)");
    assert_eq!(DIAGNOSTIC_SOURCE, "dmypy");
    assert_eq!(GROUP_COUNT, regex::Regex::new(MYPY_ERROR_REGEX).unwrap().captures_len());
}

#[test]
fn line_needs_a_piece_for_each_field() {
    let target = target("/root", "a.py");
    let regex = regex::Regex::new(MYPY_ERROR_REGEX).unwrap();
    for line in ["", "a.py", "a.py:1:2:3:4 error m", "a.py:1:2:3:4: error m", ":::::"] {
        assert!(dmypyls::diagnostic::parse_line(&regex, "/root", &target, line).is_none(), "{line:?}");
        assert!(regex.captures(line).is_none(), "{line:?}");
    }
    let line = "a.py:1:2:3:4: error: m";
    assert!(dmypyls::diagnostic::parse_line(&regex, "/root", &target, line).is_some());
}

#[test]
fn pattern_that_is_not_accepted_is_a_pattern_error() {
    let error = dmypyls::diagnostic::compile_pattern("(unclosed").unwrap_err();
    assert_eq!(error.kind(), ErrorKind::Pattern);
    let error = dmypyls::diagnostic::compile_pattern(r"\w{1000}").unwrap_err();
    assert_eq!(error.kind(), ErrorKind::Pattern);
    assert!(dmypyls::diagnostic::compile_pattern(MYPY_ERROR_REGEX).is_ok());
}

#[test]
fn report_is_read_with_the_pattern_given() {
    let target = target("/root", "a.py");
    let output = b"a.py:3:1:3:10: error: one\na.py:4:1:4:10: error: two\n";
    let regex = dmypyls::diagnostic::compile_pattern(MYPY_ERROR_REGEX).unwrap();
    let found = dmypyls::diagnostic::parse_report(&regex, "/root", &target, output).unwrap();
    assert_eq!(found.len(), 2);
    let regex = dmypyls::diagnostic::compile_pattern(r"(.*):(3):(\d+):(\d+):(\d+): (\w+): (.*)").unwrap();
    let found = dmypyls::diagnostic::parse_report(&regex, "/root", &target, output).unwrap();
    assert_eq!(found.len(), 1);
    assert_eq!(found[0].message, "one");
    let regex = dmypyls::diagnostic::compile_pattern(r"(.*):(\d+):.*").unwrap();
    assert!(dmypyls::diagnostic::parse_report(&regex, "/root", &target, output).unwrap().is_empty());
    let error = dmypyls::diagnostic::parse_report(&regex, "/root", &target, &[0xff]).unwrap_err();
    assert_eq!(error.kind(), ErrorKind::Encoding);
}

#[test]
fn findings_compare_by_what_they_say() {
    let output = "a.py:3:1:3:10: error: one\n";
    let first = report("/root", "a.py", output).pop().unwrap();
    let again = report("/root", "a.py", "/root/a.py:3:1:3:10: error: one").pop().unwrap();
    assert!(first == again);
    let other = report("/root", "a.py", "a.py:3:1:3:10: warning: one").pop().unwrap();
    assert!(first != other);
    let other = report("/root", "a.py", "a.py:3:1:3:10: error: two").pop().unwrap();
    assert!(first != other);
    let other = report("/root", "a.py", "a.py:3:1:3:11: error: one").pop().unwrap();
    assert!(first != other);
    let unknown = report("/root", "a.py", "a.py:3:1:3:10: note: one").pop().unwrap();
    assert!(first != unknown);
    assert!(unknown == report("/root", "a.py", "a.py:3:1:3:10: remark: one").pop().unwrap());
}
