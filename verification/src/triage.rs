//! Crash triage: reading what a sanitizer printed, and naming the report.

use crate::text::{ends_with, shortened, text_of, without_suffix};
use regex::Regex;
use vstd::prelude::*;
use vstd::string::*;

verus! {

/// What the first capture group of `pattern` holds in the leftmost match
/// that the `regex` crate finds in `haystack`. It is `None` where the pattern
/// does not compile, where nothing matches, and where the group takes no
/// part in the match.
pub uninterp spec fn first_group(pattern: Seq<char>, haystack: Seq<char>) -> Option<Seq<char>>;

/// Calls `Regex::new` on the pattern, `Regex::captures` on the haystack,
/// `Captures::get` for group 1 and `Match::as_str` on what it finds. All
/// that is claimed is that the outcome depends on the two texts alone.
#[verifier::external_body]
fn capture_first_group(pattern: &str, haystack: &str) -> (found: Option<String>)
    ensures
        match found {
            Some(text) => first_group(pattern@, haystack@) == Some(text@),
            None => first_group(pattern@, haystack@) is None,
        },
{
    let compiled = Regex::new(pattern).ok()?;
    let group = compiled.captures(haystack)?.get(1)?;
    Some(group.as_str().to_string())
}

/// The patterns by which a sanitizer's output is read. Each has one
/// capture group, which holds the field.
#[derive(Clone, Copy, Debug)]
pub struct Patterns {
    /// Finds the kind of violation.
    pub condition: &'static str,
    /// Finds the address at which it happened.
    pub address: &'static str,
    /// Finds whether memory was read or written.
    pub access: &'static str,
}

impl Patterns {
    /// These are the patterns for the output of AddressSanitizer.
    pub open spec fn for_address_sanitizer(self) -> bool {
        &&& self.condition@ == "AddressSanitizer: (\\S+) on"@
        &&& self.address@ == "on address (\\S+)"@
        &&& self.access@ == "(READ|WRITE)"@
    }

    /// The patterns for the output of AddressSanitizer.
    pub fn address_sanitizer() -> (patterns: Patterns)
        ensures
            patterns.for_address_sanitizer(),
    {
        Patterns {
            condition: "AddressSanitizer: (\\S+) on",
            address: "on address (\\S+)",
            access: "(READ|WRITE)",
        }
    }
}

/// The address that a report names where the output names none.
pub const NO_ADDRESS: &'static str = "0x000000000000";

/// What a sanitizer said of a crash.
#[derive(Debug, PartialEq, Eq)]
pub struct TriageReport {
    pub crash_condition: String,
    pub faulting_address: String,
    pub access_type: String,
}

/// A report as plain texts.
pub struct ReportText {
    pub crash_condition: Seq<char>,
    pub faulting_address: Seq<char>,
    pub access_type: Seq<char>,
}

impl View for TriageReport {
    type V = ReportText;

    open spec fn view(&self) -> ReportText {
        ReportText {
            crash_condition: self.crash_condition@,
            faulting_address: self.faulting_address@,
            access_type: self.access_type@,
        }
    }
}

/// An optional report as plain texts.
pub open spec fn report_of(made: Option<TriageReport>) -> Option<ReportText> {
    match made {
        Some(report) => Some(report@),
        None => None,
    }
}

/// The report that the three fields make. There is none without a
/// condition or without an access type; a missing address becomes
/// `NO_ADDRESS`.
pub open spec fn composed(
    condition: Option<Seq<char>>,
    address: Option<Seq<char>>,
    access: Option<Seq<char>>,
) -> Option<ReportText> {
    if condition is Some && access is Some {
        Some(
            ReportText {
                crash_condition: condition->Some_0,
                faulting_address: if address is Some {
                    address->Some_0
                } else {
                    NO_ADDRESS@
                },
                access_type: access->Some_0,
            },
        )
    } else {
        None
    }
}

/// Puts the three fields together, each as it was found or not.
pub fn compose_report(condition: Option<String>, address: Option<String>, access: Option<String>) -> (made:
    Option<TriageReport>)
    ensures
        report_of(made) == composed(text_of(condition), text_of(address), text_of(access)),
{
    match (condition, access) {
        (Some(crash_condition), Some(access_type)) => {
            let faulting_address: String = match address {
                Some(found) => found,
                None => NO_ADDRESS.to_owned(),
            };
            Some(TriageReport { crash_condition, faulting_address, access_type })
        },
        _ => None,
    }
}

/// What the patterns find in `output`.
pub open spec fn parsed_with(patterns: Patterns, output: Seq<char>) -> Option<ReportText> {
    composed(
        first_group(patterns.condition@, output),
        first_group(patterns.address@, output),
        first_group(patterns.access@, output),
    )
}

/// Reads a sanitizer's output by the given patterns.
pub fn parse_output_with(patterns: &Patterns, output: &str) -> (made: Option<TriageReport>)
    ensures
        report_of(made) == parsed_with(*patterns, output@),
{
    let condition = capture_first_group(patterns.condition, output);
    let address = capture_first_group(patterns.address, output);
    let access = capture_first_group(patterns.access, output);
    compose_report(condition, address, access)
}

/// What AddressSanitizer's patterns find in `output`.
pub open spec fn parsed(output: Seq<char>) -> Option<ReportText> {
    composed(
        first_group("AddressSanitizer: (\\S+) on"@, output),
        first_group("on address (\\S+)"@, output),
        first_group("(READ|WRITE)"@, output),
    )
}

/// Reads the output of AddressSanitizer: the kind of violation, the
/// address, and whether memory was read or written.
pub fn parse_output(output: &str) -> (made: Option<TriageReport>)
    ensures
        report_of(made) == parsed(output@),
{
    let patterns = Patterns::address_sanitizer();
    parse_output_with(&patterns, output)
}

/// The ending of the file names of crash inputs.
pub const INPUT_SUFFIX: &'static str = ".jpg";

/// The name under which a report is written. A crash whose output could be
/// read is named by the crash input and the three fields, so that crashes
/// of the same kind at the same place differ only in the input's name; one
/// whose output could not be read keeps the input's name behind a marker.
pub open spec fn report_path_text(stem: Seq<char>, report: Option<ReportText>) -> Seq<char> {
    match report {
        Some(fields) => "reports/"@ + stem + "."@ + fields.crash_condition + "."@
            + fields.faulting_address + "."@ + fields.access_type,
        None => "reports/UNPARSABLE-ERROR."@ + stem + INPUT_SUFFIX@,
    }
}

/// Computes the name of a report from the crash input's name without its
/// ending, and from what was read.
pub fn report_path(stem: &str, report: &Option<TriageReport>) -> (path: String)
    ensures
        path@ == report_path_text(stem@, report_of(*report)),
{
    match report {
        Some(fields) => {
            let mut path: String = "reports/".to_owned();
            path.append(stem);
            path.append(".");
            path.append(fields.crash_condition.as_str());
            path.append(".");
            path.append(fields.faulting_address.as_str());
            path.append(".");
            path.append(fields.access_type.as_str());
            path
        },
        None => {
            let mut path: String = "reports/UNPARSABLE-ERROR.".to_owned();
            path.append(stem);
            path.append(INPUT_SUFFIX);
            path
        },
    }
}

/// The two output streams of a run as one text.
pub open spec fn combined(stdout: Seq<char>, stderr: Seq<char>) -> Seq<char> {
    "STDOUT:\n"@ + stdout + "\n\nSTDERR:\n"@ + stderr
}

/// Joins what a run wrote to its two output streams.
pub fn combine_output(stdout: &str, stderr: &str) -> (both: String)
    ensures
        both@ == combined(stdout@, stderr@),
{
    let mut both: String = "STDOUT:\n".to_owned();
    both.append(stdout);
    both.append("\n\nSTDERR:\n");
    both.append(stderr);
    both
}

/// A report that is ready to be written: where, and what.
#[derive(Debug, PartialEq, Eq)]
pub struct ReportFile {
    pub path: String,
    pub contents: String,
}

/// The report on one crash input, from the input's file name and from what
/// the instrumented target wrote when it ran on it.
///
/// The report holds all that the target wrote, whether or not it could be
/// read; only its name depends on that. There is no report for a file whose
/// name lacks the ending of crash inputs.
pub fn create_report(file_name: &str, stdout: &str, stderr: &str) -> (report: Option<ReportFile>)
    ensures
        report is Some <==> ends_with(file_name@, INPUT_SUFFIX@),
        report matches Some(file) ==> {
            &&& file.contents@ == combined(stdout@, stderr@)
            &&& file.path@ == report_path_text(
                shortened(file_name@, INPUT_SUFFIX@.len()),
                parsed(combined(stdout@, stderr@)),
            )
        },
{
    match without_suffix(file_name, INPUT_SUFFIX) {
        Some(file_details) => {
            let contents: String = combine_output(stdout, stderr);
            let fields = parse_output(contents.as_str());
            let path: String = report_path(file_details.as_str(), &fields);
            Some(ReportFile { path, contents })
        },
        None => None,
    }
}

} // verus!
