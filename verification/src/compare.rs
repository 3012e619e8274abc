//! Comparing what two commands gave: their standard output, their standard
//! error and their exit codes, with a unified diff of each text that
//! differs.

use crate::text::append_signed_decimal;
use crate::text::signed_decimal;
use vstd::prelude::*;

verus! {

/// What a command left behind when it ended.
#[derive(Debug)]
pub struct CommandOutput {
    pub stdout: String,
    pub stderr: String,
    pub exit_code: i32,
}

/// The model of a command's output.
pub struct CommandOutputView {
    pub stdout: Seq<char>,
    pub stderr: Seq<char>,
    pub exit_code: i32,
}

impl View for CommandOutput {
    type V = CommandOutputView;

    open spec fn view(&self) -> CommandOutputView {
        CommandOutputView {
            stdout: self.stdout@,
            stderr: self.stderr@,
            exit_code: self.exit_code,
        }
    }
}

/// The unified diff of two texts, line by line, as the `similar` crate
/// writes it with its default algorithm, three lines of context and no
/// file header.
pub uninterp spec fn unified_diff_text(old: Seq<char>, new: Seq<char>) -> Seq<char>;

/// Two texts that are equal, or short enough to be diffed: the diff numbers
/// the distinct lines of both texts with 32 bits.
pub open spec fn diffable(old: Seq<char>, new: Seq<char>) -> bool {
    old == new || old.len() + new.len() <= u32::MAX
}

/// The report on one of the two texts: nothing where they are equal, else
/// the heading, the diff and a line end.
pub open spec fn text_report(heading: Seq<char>, expected: Seq<char>, actual: Seq<char>) -> Seq<
    char,
> {
    if expected == actual {
        Seq::empty()
    } else {
        diff_section(heading, unified_diff_text(expected, actual))
    }
}

/// A heading, the text of a diff under it, and a line end.
pub open spec fn diff_section(heading: Seq<char>, diff: Seq<char>) -> Seq<char> {
    heading + "\n"@ + diff + "\n"@
}

/// The report on the exit codes: nothing where they are equal, else both.
pub open spec fn exit_code_report(expected: i32, actual: i32) -> Seq<char> {
    if expected == actual {
        Seq::empty()
    } else {
        "Exit code differences:\n"@ + "Expected: "@ + signed_decimal(expected as int) + "\n"@
            + "Got: "@ + signed_decimal(actual as int) + "\n"@
    }
}

/// The whole report: standard output, then standard error, then the exit
/// codes. It is empty exactly where nothing differs.
pub open spec fn comparison_report(expected: CommandOutputView, actual: CommandOutputView) -> Seq<
    char,
> {
    text_report("Stdout differences:"@, expected.stdout, actual.stdout) + text_report(
        "Stderr differences:"@,
        expected.stderr,
        actual.stderr,
    ) + exit_code_report(expected.exit_code, actual.exit_code)
}

/// Calls `similar::TextDiff::from_lines(old, new)` and writes its
/// `unified_diff()` out as text. With the default configuration the diff has
/// no deadline, so the text depends on the two arguments alone; the contract
/// gives it a name and says nothing of what it holds. The bound keeps the
/// crate's 32-bit line numbering from overflowing.
#[verifier::external_body]
fn unified_diff(old: &str, new: &str) -> (diff: String)
    requires
        old@.len() + new@.len() <= u32::MAX,
    ensures
        diff@ == unified_diff_text(old@, new@),
{
    similar::TextDiff::from_lines(old, new).unified_diff().to_string()
}

/// The exit code to compare: the code that the command ended with, or `-1`
/// where it ended without one.
pub fn exit_code_or_default(code: Option<i32>) -> (exit_code: i32)
    ensures
        exit_code == (match code {
            Some(c) => c,
            None => -1i32,
        }),
{
    match code {
        Some(c) => c,
        None => -1,
    }
}

/// Puts a diff under its heading: the heading, a line end, the diff, a line
/// end.
pub fn write_diff_section(heading: &str, diff: &str) -> (text: String)
    ensures
        text@ == diff_section(heading@, diff@),
{
    let mut text = String::from_str(heading);
    text.append("\n");
    text.append(diff);
    text.append("\n");
    text
}

/// Whether `compare_outputs` can be asked about these two outputs: each pair
/// of texts is equal or short enough to be diffed.
pub fn can_compare(expected: &CommandOutput, actual: &CommandOutput) -> (ok: bool)
    ensures
        ok == (diffable(expected.stdout@, actual.stdout@) && diffable(
            expected.stderr@,
            actual.stderr@,
        )),
{
    can_diff(&expected.stdout, &actual.stdout) && can_diff(&expected.stderr, &actual.stderr)
}

/// Whether two texts are equal or short enough to be diffed.
fn can_diff(old: &String, new: &String) -> (ok: bool)
    ensures
        ok == diffable(old@, new@),
{
    if *old == *new {
        return true;
    }
    let old_len = old.as_str().unicode_len();
    let new_len = new.as_str().unicode_len();
    old_len <= 0xffff_ffff && new_len <= 0xffff_ffff - old_len
}

/// Compares two outputs. Returns whether they are the same in all three
/// parts, and the report of what differs: for each text that differs its
/// heading and unified diff, for exit codes that differ both of them.
pub fn compare_outputs(expected: &CommandOutput, actual: &CommandOutput) -> (outcome: (
    bool,
    String,
))
    requires
        diffable(expected.stdout@, actual.stdout@),
        diffable(expected.stderr@, actual.stderr@),
    ensures
        outcome.0 == (expected@ == actual@),
        outcome.1@ == comparison_report(expected@, actual@),
        outcome.0 <==> outcome.1@.len() == 0,
{
    let mut same = true;
    let mut report = String::new();
    if !(expected.stdout == actual.stdout) {
        let diff = unified_diff(expected.stdout.as_str(), actual.stdout.as_str());
        report.append(write_diff_section("Stdout differences:", diff.as_str()).as_str());
        same = false;
    }
    let ghost after_stdout = report@;
    assert(after_stdout =~= text_report("Stdout differences:"@, expected.stdout@, actual.stdout@));
    if !(expected.stderr == actual.stderr) {
        let diff = unified_diff(expected.stderr.as_str(), actual.stderr.as_str());
        report.append(write_diff_section("Stderr differences:", diff.as_str()).as_str());
        same = false;
    }
    let ghost after_stderr = report@;
    assert(after_stderr =~= after_stdout + text_report(
        "Stderr differences:"@,
        expected.stderr@,
        actual.stderr@,
    ));
    if expected.exit_code != actual.exit_code {
        report.append("Exit code differences:\n");
        report.append("Expected: ");
        append_signed_decimal(&mut report, expected.exit_code as i64);
        report.append("\n");
        report.append("Got: ");
        append_signed_decimal(&mut report, actual.exit_code as i64);
        report.append("\n");
        same = false;
    }
    proof {
        assert(report@ =~= after_stderr + exit_code_report(expected.exit_code, actual.exit_code));
        reveal_strlit("\n");
    }
    (same, report)
}

} // verus!
