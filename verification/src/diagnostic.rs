//! Diagnostics read from the daemon's report.
//!
//! The daemon reports one finding per line, in the form
//! `<file>:<line>:<column>:<end line>:<end column>: <severity>: <message>`.
//! A line of any other form (a banner, a summary) is passed over. The
//! findings about one document are collected, each distinct finding once.

use crate::error::{Error, ErrorKind};
use crate::relpathbuf::{reconcile_filename, RelPath, RelPathBuf};
use crate::pattern::{captures, captures_of, compile, compiled, fields_of};
use crate::text::{
    count_separators, decimal_u32, decode_utf8_text, lines_of, parse_decimal, same_text,
    split_lines, split_on,
};
use regex::Regex;
use vstd::prelude::*;
use vstd::string::StringSliceAdditionalSpecFns;
use vstd::utf8::*;

verus! {

/// The pattern of a line that reports a finding. Its seven groups are, in
/// order: file name, line, column, end line, end column, severity, message.
pub const MYPY_ERROR_REGEX: &'static str = r"(.*):(\d+):(\d+):(\d+):(\d+): (\w+): (.*)";

/// The number of groups that a match of the line pattern has, the whole
/// match included.
pub const GROUP_COUNT: usize = 8;

/// The byte `:`, which stands between the fields of a line.
pub const COLON: u8 = 58;

/// The least number of pieces between colons that a line reporting a finding
/// has: one for each of its seven fields.
pub const FIELD_COUNT: usize = 7;

/// The name under which the findings are published.
pub const DIAGNOSTIC_SOURCE: &'static str = "dmypy";

/// A place in a document: line and character, both counted from zero.
#[derive(Clone, Copy, Debug, PartialEq, Eq, Structural)]
pub struct Position {
    pub line: u32,
    pub character: u32,
}

/// A stretch of a document between two places.
#[derive(Clone, Copy, Debug, PartialEq, Eq, Structural)]
pub struct Range {
    pub start: Position,
    pub end: Position,
}

/// How grave a finding is.
#[derive(Clone, Copy, Debug, PartialEq, Eq, Structural)]
pub enum Severity {
    Error,
    Warning,
    Information,
    Hint,
}

/// One finding about a document.
///
/// Two findings are the same finding exactly when they agree in range,
/// severity and message, whatever lines of the report they were read from.
#[derive(Debug)]
pub struct Diagnostic {
    pub range: Range,
    pub severity: Option<Severity>,
    pub message: String,
}

/// What a finding says.
pub struct DiagnosticView {
    pub range: Range,
    pub severity: Option<Severity>,
    pub message: Seq<char>,
}

impl View for Diagnostic {
    type V = DiagnosticView;

    open spec fn view(&self) -> DiagnosticView {
        DiagnosticView { range: self.range, severity: self.severity, message: self.message@ }
    }
}

/// What each finding of a sequence says, in order.
pub open spec fn views(diagnostics: Seq<Diagnostic>) -> Seq<DiagnosticView> {
    diagnostics.map_values(|d: Diagnostic| d@)
}

/// The severity that a keyword of the report stands for: one of the four
/// severities, written with a capital or a small first letter and otherwise
/// in small letters. Any other keyword stands for none.
pub open spec fn severity_of(keyword: Seq<char>) -> Option<Severity> {
    if keyword == "Error"@ || keyword == "error"@ {
        Some(Severity::Error)
    } else if keyword == "Warning"@ || keyword == "warning"@ {
        Some(Severity::Warning)
    } else if keyword == "Information"@ || keyword == "information"@ {
        Some(Severity::Information)
    } else if keyword == "Hint"@ || keyword == "hint"@ {
        Some(Severity::Hint)
    } else {
        None
    }
}

impl Severity {
    /// The severity that `keyword` stands for, if any.
    pub fn from_keyword(keyword: &str) -> (severity: Option<Severity>)
        ensures
            severity == severity_of(keyword@),
    {
        if same_text(keyword, "Error") || same_text(keyword, "error") {
            Some(Severity::Error)
        } else if same_text(keyword, "Warning") || same_text(keyword, "warning") {
            Some(Severity::Warning)
        } else if same_text(keyword, "Information") || same_text(keyword, "information") {
            Some(Severity::Information)
        } else if same_text(keyword, "Hint") || same_text(keyword, "hint") {
            Some(Severity::Hint)
        } else {
            None
        }
    }
}

/// The number counted from zero that stands for `reported`, which the daemon
/// counts from one. A reported zero stays zero.
pub open spec fn zero_based(reported: u32) -> u32 {
    if reported == 0 {
        0
    } else {
        (reported - 1) as u32
    }
}

/// The number counted from zero that stands for `reported`.
pub fn to_zero_based(reported: u32) -> (index: u32)
    ensures
        index == zero_based(reported),
{
    if reported == 0 {
        0
    } else {
        reported - 1
    }
}

/// The number that a field writes, if the field is there and writes one.
pub open spec fn number_of(field: Option<Seq<char>>) -> Option<u32> {
    match field {
        Some(text) => decimal_u32(encode_utf8(text)),
        None => None,
    }
}

/// Whether the file-name field names the target document.
pub open spec fn names_target(root: Seq<char>, target: RelPath, field: Option<Seq<char>>) -> bool {
    field is Some && reconcile_filename(root, field.unwrap()) == Some(target)
}

/// The finding that the fields of one matched line report about `target`.
///
/// There is none unless all seven fields are there, the file name stands for
/// `target` under `root`, and each of the four positions is a number.
pub open spec fn diagnostic_of(
    root: Seq<char>,
    target: RelPath,
    fields: Seq<Option<Seq<char>>>,
) -> Option<DiagnosticView> {
    if fields.len() >= GROUP_COUNT && names_target(root, target, fields[1]) && number_of(
        fields[2],
    ) is Some && number_of(fields[3]) is Some && number_of(fields[4]) is Some && number_of(
        fields[5],
    ) is Some && fields[6] is Some && fields[7] is Some {
        Some(
            DiagnosticView {
                range: Range {
                    start: Position {
                        line: zero_based(number_of(fields[2]).unwrap()),
                        character: zero_based(number_of(fields[3]).unwrap()),
                    },
                    end: Position {
                        line: zero_based(number_of(fields[4]).unwrap()),
                        character: zero_based(number_of(fields[5]).unwrap()),
                    },
                },
                severity: severity_of(fields[6].unwrap()),
                message: fields[7].unwrap(),
            },
        )
    } else {
        None
    }
}

/// What an optional finding says.
pub open spec fn view_of(diagnostic: Option<Diagnostic>) -> Option<DiagnosticView> {
    match diagnostic {
        Some(d) => Some(d@),
        None => None,
    }
}

/// Reads the number in the group at `index`.
fn group_number(groups: &Vec<Option<String>>, index: usize) -> (number: Option<u32>)
    requires
        index < groups.len(),
    ensures
        number == number_of(fields_of(groups@)[index as int]),
{
    match &groups[index] {
        Some(text) => parse_decimal(text.as_str().as_bytes()),
        None => None,
    }
}

/// The finding that the groups of one matched line report about
/// `target_filename`, if they report one.
pub fn convert_capture_to_diagnostic(
    root_dir: &str,
    target_filename: &RelPathBuf,
    caps: &Vec<Option<String>>,
) -> (diagnostic: Option<Diagnostic>)
    ensures
        view_of(diagnostic) == diagnostic_of(root_dir@, target_filename@, fields_of(caps@)),
{
    if caps.len() < GROUP_COUNT {
        return None;
    }
    let filename = match &caps[1] {
        Some(text) => match RelPathBuf::from_filename(root_dir, text.as_str()) {
            Ok(filename) => filename,
            Err(_) => {
                return None;
            },
        },
        None => {
            return None;
        },
    };
    if *target_filename != filename {
        return None;
    }
    let start_line = match group_number(caps, 2) {
        Some(number) => number,
        None => {
            return None;
        },
    };
    let start_column = match group_number(caps, 3) {
        Some(number) => number,
        None => {
            return None;
        },
    };
    let end_line = match group_number(caps, 4) {
        Some(number) => number,
        None => {
            return None;
        },
    };
    let end_column = match group_number(caps, 5) {
        Some(number) => number,
        None => {
            return None;
        },
    };
    let severity = match &caps[6] {
        Some(keyword) => Severity::from_keyword(keyword.as_str()),
        None => {
            return None;
        },
    };
    let message = match &caps[7] {
        Some(text) => text.clone(),
        None => {
            return None;
        },
    };
    Some(
        Diagnostic {
            range: Range {
                start: Position {
                    line: to_zero_based(start_line),
                    character: to_zero_based(start_column),
                },
                end: Position {
                    line: to_zero_based(end_line),
                    character: to_zero_based(end_column),
                },
            },
            severity,
            message,
        },
    )
}

/// Whether a line has a piece between colons for each of the seven fields.
pub open spec fn has_all_fields(line: Seq<char>) -> bool {
    split_on(encode_utf8(line), COLON).len() >= FIELD_COUNT
}

/// The finding that a line of the report holds about `target`: the one that
/// the groups of the pattern's match report, if the line has a piece for
/// each field and the pattern matches it.
pub open spec fn line_diagnostic(
    regex: Regex,
    root: Seq<char>,
    target: RelPath,
    line: Seq<char>,
) -> Option<DiagnosticView> {
    if has_all_fields(line) {
        match captures_of(regex, line) {
            Some(fields) => diagnostic_of(root, target, fields),
            None => None,
        }
    } else {
        None
    }
}

/// The finding that `line` holds about `target_filename`, if it holds one.
pub fn parse_line(
    regex: &Regex,
    root_dir: &str,
    target_filename: &RelPathBuf,
    line: &str,
) -> (diagnostic: Option<Diagnostic>)
    ensures
        view_of(diagnostic) == line_diagnostic(*regex, root_dir@, target_filename@, line@),
{
    if count_separators(line.as_bytes(), COLON) < FIELD_COUNT - 1 {
        return None;
    }
    match captures(regex, line) {
        Some(groups) => convert_capture_to_diagnostic(root_dir, target_filename, &groups),
        None => None,
    }
}

/// The elements of a sequence in the order in which each occurs first.
pub open spec fn unique<A>(s: Seq<A>) -> Seq<A>
    decreases s.len(),
{
    if s.len() == 0 {
        s
    } else {
        let before = unique(s.drop_last());
        if before.contains(s.last()) {
            before
        } else {
            before.push(s.last())
        }
    }
}

/// The findings that a report holds about `target`, line by line, findings
/// that were already made included.
pub open spec fn reported(regex: Regex, root: Seq<char>, target: RelPath, output: Seq<u8>) -> Seq<
    DiagnosticView,
> {
    lines_of(output).filter_map(
        |line: Seq<u8>| line_diagnostic(regex, root, target, decode_utf8(line)),
    )
}

/// Whether two findings are the same finding.
pub fn same_diagnostic(a: &Diagnostic, b: &Diagnostic) -> (same: bool)
    ensures
        same == (a@ == b@),
{
    let same_severity = match (a.severity, b.severity) {
        (Some(x), Some(y)) => x == y,
        (None, None) => true,
        _ => false,
    };
    a.range == b.range && same_severity && a.message == b.message
}

impl PartialEq for Diagnostic {
    fn eq(&self, other: &Diagnostic) -> (same: bool) {
        same_diagnostic(self, other)
    }
}

impl vstd::std_specs::cmp::PartialEqSpecImpl for Diagnostic {
    open spec fn obeys_eq_spec() -> bool {
        true
    }

    open spec fn eq_spec(&self, other: &Diagnostic) -> bool {
        self@ == other@
    }
}

/// Whether `wanted` is among `diagnostics`.
pub fn contains_diagnostic(diagnostics: &Vec<Diagnostic>, wanted: &Diagnostic) -> (found: bool)
    ensures
        found == views(diagnostics@).contains(wanted@),
{
    let mut i: usize = 0;
    while i < diagnostics.len()
        invariant
            i <= diagnostics.len(),
            forall|j: int| 0 <= j < i ==> views(diagnostics@)[j] != wanted@,
        decreases diagnostics.len() - i,
    {
        if same_diagnostic(&diagnostics[i], wanted) {
            assert(views(diagnostics@)[i as int] == wanted@);
            return true;
        }
        i += 1;
    }
    false
}

/// Whether `result` is the compiled form of `pattern`: a failure of kind
/// `Pattern` where the pattern engine does not accept the pattern.
pub open spec fn is_compiled(result: Result<Regex, Error>, pattern: Seq<char>) -> bool {
    match compiled(pattern) {
        Some(regex) => result == Ok::<Regex, Error>(regex),
        None => result is Err && result->Err_0.kind == ErrorKind::Pattern,
    }
}

/// Compiles a line pattern.
pub fn compile_pattern(pattern: &str) -> (result: Result<Regex, Error>)
    ensures
        is_compiled(result, pattern@),
{
    match compile(pattern) {
        Some(regex) => Ok(regex),
        None => Err(Error::with_kind(ErrorKind::Pattern, "the line pattern was not accepted")),
    }
}

/// Whether `result` is what the report `output` holds about `target` by the
/// line pattern `regex`: each distinct finding once, in the order in which
/// each is reported first; a failure of kind `Encoding` exactly when
/// `output` is not valid UTF-8.
pub open spec fn is_report(
    result: Result<Vec<Diagnostic>, Error>,
    regex: Regex,
    root: Seq<char>,
    target: RelPath,
    output: Seq<u8>,
) -> bool {
    if valid_utf8(output) {
        result is Ok && views(result->Ok_0@) == unique(reported(regex, root, target, output))
    } else {
        result is Err && result->Err_0.kind == ErrorKind::Encoding
    }
}

/// The findings about `target_filename` in the daemon's report `output`,
/// read line by line with the line pattern `regex`.
pub fn parse_report(
    regex: &Regex,
    root_dir: &str,
    target_filename: &RelPathBuf,
    output: &[u8],
) -> (result: Result<Vec<Diagnostic>, Error>)
    ensures
        is_report(result, *regex, root_dir@, target_filename@, output@),
{
    let text = match decode_utf8_text(output) {
        Some(text) => text,
        None => {
            return Err(
                Error::with_kind(ErrorKind::Encoding, "from_utf8 failed for dmypy output"),
            );
        },
    };
    let lines = split_lines(text);
    let ghost found = |line: Seq<u8>|
        line_diagnostic(*regex, root_dir@, target_filename@, decode_utf8(line));
    let ghost all = lines_of(output@);
    let mut diagnostics: Vec<Diagnostic> = Vec::new();
    let mut i: usize = 0;
    proof {
        assert(crate::text::bytes_of(lines@).len() == lines.len());
        assert(all.take(0) =~= Seq::<Seq<u8>>::empty());
    }
    while i < lines.len()
        invariant
            i <= lines.len(),
            lines.len() == all.len(),
            crate::text::bytes_of(lines@) == all,
            found == (|line: Seq<u8>|
                line_diagnostic(*regex, root_dir@, target_filename@, decode_utf8(line))),
            views(diagnostics@) == unique(all.take(i as int).filter_map(found)),
        decreases lines.len() - i,
    {
        let line = lines[i];
        proof {
            assert(line.spec_bytes() == all[i as int]);
            encode_utf8_decode_utf8(line@);
            assert(all.take(i + 1).drop_last() =~= all.take(i as int));
            assert(all.take(i + 1).last() == all[i as int]);
        }
        match parse_line(regex, root_dir, target_filename, line) {
            Some(diagnostic) => {
                proof {
                    let before = all.take(i as int).filter_map(found);
                    assert(all.take(i + 1).filter_map(found) == before + seq![diagnostic@]);
                    assert((before + seq![diagnostic@]).drop_last() =~= before);
                    assert(views(diagnostics@.push(diagnostic)) =~= views(diagnostics@).push(
                        diagnostic@,
                    ));
                }
                if !contains_diagnostic(&diagnostics, &diagnostic) {
                    diagnostics.push(diagnostic);
                }
            },
            None => {},
        }
        i += 1;
    }
    proof {
        assert(all.take(i as int) =~= all);
    }
    Ok(diagnostics)
}

/// Whether `result` is what the report `output` holds about `target` by the
/// daemon's line pattern: a failure of kind `Pattern` if the pattern engine
/// does not accept that pattern, and else what `is_report` says.
pub open spec fn report_result(
    result: Result<Vec<Diagnostic>, Error>,
    root: Seq<char>,
    target: RelPath,
    output: Seq<u8>,
) -> bool {
    match compiled(MYPY_ERROR_REGEX@) {
        Some(regex) => is_report(result, regex, root, target, output),
        None => result is Err && result->Err_0.kind == ErrorKind::Pattern,
    }
}

/// The findings about `target_filename` in the daemon's report `output`.
pub fn parse_diagnostics(
    root_dir: &str,
    target_filename: &RelPathBuf,
    output: &[u8],
) -> (result: Result<Vec<Diagnostic>, Error>)
    ensures
        report_result(result, root_dir@, target_filename@, output@),
{
    match compile_pattern(MYPY_ERROR_REGEX) {
        Ok(regex) => parse_report(&regex, root_dir, target_filename, output),
        Err(error) => Err(error),
    }
}

/// A line with fewer than seven pieces between colons reports no finding,
/// whatever the pattern engine makes of it.
pub proof fn lemma_line_with_too_few_fields_reports_nothing(
    regex: Regex,
    root: Seq<char>,
    target: RelPath,
    line: Seq<char>,
)
    requires
        split_on(encode_utf8(line), COLON).len() < FIELD_COUNT,
    ensures
        line_diagnostic(regex, root, target, line) is None,
{
}

/// A line reports no finding where the pattern does not match it, where the
/// match lacks one of the seven fields, or where one of its four positions
/// is not a number.
pub proof fn lemma_malformed_line_reports_nothing(
    regex: Regex,
    root: Seq<char>,
    target: RelPath,
    line: Seq<char>,
)
    requires
        match captures_of(regex, line) {
            Some(fields) => fields.len() < GROUP_COUNT || number_of(fields[2]) is None
                || number_of(fields[3]) is None || number_of(fields[4]) is None || number_of(
                fields[5],
            ) is None || exists|i: int| 1 <= i < GROUP_COUNT && (#[trigger] fields[i]) is None,
            None => true,
        },
    ensures
        line_diagnostic(regex, root, target, line) is None,
{
}

/// A position counted from zero is never above the reported one, and a
/// reported 0 or 1 both stand for 0.
pub proof fn lemma_zero_based_saturates(reported: u32)
    ensures
        0 <= zero_based(reported) <= reported,
        reported <= 1 ==> zero_based(reported) == 0,
        reported >= 1 ==> zero_based(reported) == reported - 1,
{
}

/// Each position of a finding is the reported one counted from zero.
pub proof fn lemma_finding_positions(
    root: Seq<char>,
    target: RelPath,
    fields: Seq<Option<Seq<char>>>,
)
    requires
        diagnostic_of(root, target, fields) is Some,
    ensures
        ({
            let range = diagnostic_of(root, target, fields).unwrap().range;
            &&& range.start.line == zero_based(number_of(fields[2]).unwrap())
            &&& range.start.character == zero_based(number_of(fields[3]).unwrap())
            &&& range.end.line == zero_based(number_of(fields[4]).unwrap())
            &&& range.end.character == zero_based(number_of(fields[5]).unwrap())
            &&& (number_of(fields[2]).unwrap() <= 1 ==> range.start.line == 0)
        }),
{
}

/// A finding is reported only by a line whose file name stands for the
/// target document.
pub proof fn lemma_finding_names_target(
    root: Seq<char>,
    target: RelPath,
    fields: Seq<Option<Seq<char>>>,
)
    ensures
        diagnostic_of(root, target, fields) is Some ==> names_target(root, target, fields[1]),
        !names_target(root, target, fields[1]) ==> diagnostic_of(root, target, fields) is None,
{
}

/// Nothing occurs twice among the elements in order of first occurrence, and
/// they are the elements of the sequence they were taken from.
pub proof fn lemma_unique<A>(s: Seq<A>)
    ensures
        unique(s).no_duplicates(),
        forall|x: A| unique(s).contains(x) <==> s.contains(x),
    decreases s.len(),
{
    if s.len() > 0 {
        let before = s.drop_last();
        let kept = unique(before);
        lemma_unique(before);
        assert forall|x: A| unique(s).contains(x) <==> s.contains(x) by {
            if s.contains(x) {
                let i = choose|i: int| 0 <= i < s.len() && s[i] == x;
                if i < before.len() {
                    assert(before[i] == x);
                    assert(before.contains(x));
                    assert(kept.contains(x));
                    let j = choose|j: int| 0 <= j < kept.len() && kept[j] == x;
                    assert(unique(s)[j] == x);
                } else if !kept.contains(x) {
                    assert(unique(s)[kept.len() as int] == x);
                }
            }
            if unique(s).contains(x) {
                let j = choose|j: int| 0 <= j < unique(s).len() && unique(s)[j] == x;
                if j < kept.len() {
                    assert(kept[j] == x);
                    assert(kept.contains(x));
                    assert(before.contains(x));
                    let i = choose|i: int| 0 <= i < before.len() && before[i] == x;
                    assert(s[i] == x);
                } else {
                    assert(s[s.len() - 1] == x);
                }
            }
        }
    }
}

/// A report's result holds each finding about the target once, however
/// often the report repeats it, and holds nothing else: every finding in it
/// is reported by a line whose file name stands for the target.
pub proof fn lemma_report_holds_each_finding_once(
    result: Result<Vec<Diagnostic>, Error>,
    regex: Regex,
    root: Seq<char>,
    target: RelPath,
    output: Seq<u8>,
)
    requires
        is_report(result, regex, root, target, output),
        result is Ok,
    ensures
        views(result->Ok_0@).no_duplicates(),
        forall|finding: DiagnosticView| #[trigger]
            views(result->Ok_0@).contains(finding) <==> reported(
                regex,
                root,
                target,
                output,
            ).contains(finding),
        forall|finding: DiagnosticView| #[trigger]
            views(result->Ok_0@).contains(finding) ==> exists|line: Seq<u8>| #[trigger]
                lines_of(output).contains(line) && line_diagnostic(
                    regex,
                    root,
                    target,
                    decode_utf8(line),
                ) == Some(finding),
{
    let all = reported(regex, root, target, output);
    lemma_unique(all);
    let found = |line: Seq<u8>| line_diagnostic(regex, root, target, decode_utf8(line));
    assert forall|finding: DiagnosticView| #[trigger]
        views(result->Ok_0@).contains(finding) implies exists|line: Seq<u8>| #[trigger]
        lines_of(output).contains(line) && line_diagnostic(
            regex,
            root,
            target,
            decode_utf8(line),
        ) == Some(finding) by {
        assert(all.contains(finding));
        lines_of(output).lemma_filter_map_contains(found, finding);
        let line = choose|line: Seq<u8>| #[trigger]
            lines_of(output).contains(line) && found(line) == Some(finding);
        assert(lines_of(output).contains(line) && line_diagnostic(
            regex,
            root,
            target,
            decode_utf8(line),
        ) == Some(finding));
    }
}

} // verus!
