use game_of_life::command::command_words;
use game_of_life::command::is_whitespace;
use game_of_life::compare::can_compare;
use game_of_life::compare::compare_outputs;
use game_of_life::compare::exit_code_or_default;
use game_of_life::compare::write_diff_section;
use game_of_life::compare::CommandOutput;

fn output(stdout: &str, stderr: &str, exit_code: i32) -> CommandOutput {
    CommandOutput { stdout: stdout.to_string(), stderr: stderr.to_string(), exit_code }
}

#[test]
fn equal_outputs_match() {
    let a = output("one\ntwo\n", "warn\n", 0);
    let b = output("one\ntwo\n", "warn\n", 0);
    assert!(can_compare(&a, &b));
    let (same, report) = compare_outputs(&a, &b);
    assert!(same);
    assert_eq!(report, "");
}

#[test]
fn stdout_difference_is_diffed() {
    let a = output("a\nb\n", "", 0);
    let b = output("a\nc\n", "", 0);
    assert!(can_compare(&a, &b));
    let (same, report) = compare_outputs(&a, &b);
    assert!(!same);
    assert_eq!(report, "Stdout differences:\n@@ -1,2 +1,2 @@\n a\n-b\n+c\n\n");
}

#[test]
fn stderr_difference_is_diffed() {
    let a = output("", "x\n", 0);
    let b = output("", "y\n", 0);
    let (same, report) = compare_outputs(&a, &b);
    assert!(!same);
    assert_eq!(report, "Stderr differences:\n@@ -1 +1 @@\n-x\n+y\n\n");
}

#[test]
fn exit_code_difference_is_reported() {
    let a = output("same\n", "", 0);
    let b = output("same\n", "", -1);
    let (same, report) = compare_outputs(&a, &b);
    assert!(!same);
    assert_eq!(report, "Exit code differences:\nExpected: 0\nGot: -1\n");
}

#[test]
fn extreme_exit_codes() {
    let a = output("", "", i32::MIN);
    let b = output("", "", i32::MAX);
    let (same, report) = compare_outputs(&a, &b);
    assert!(!same);
    assert_eq!(report, "Exit code differences:\nExpected: -2147483648\nGot: 2147483647\n");
}

#[test]
fn all_three_parts_are_reported_in_order() {
    let a = output("a\n", "e\n", 1);
    let b = output("b\n", "f\n", 2);
    let (same, report) = compare_outputs(&a, &b);
    assert!(!same);
    assert_eq!(
        report,
        "Stdout differences:\n@@ -1 +1 @@\n-a\n+b\n\n\
         Stderr differences:\n@@ -1 +1 @@\n-e\n+f\n\n\
         Exit code differences:\nExpected: 1\nGot: 2\n"
    );
}

#[test]
fn diff_marks_a_missing_final_newline() {
    let a = output("a\n", "", 0);
    let b = output("a", "", 0);
    let (same, report) = compare_outputs(&a, &b);
    assert!(!same);
    assert!(report.starts_with("Stdout differences:\n@@ -1 +1 @@\n-a\n+a\n"));
    assert!(report.contains("No newline at end of file"));
}

#[test]
fn missing_exit_code_counts_as_minus_one() {
    assert_eq!(exit_code_or_default(None), -1);
    assert_eq!(exit_code_or_default(Some(0)), 0);
    assert_eq!(exit_code_or_default(Some(3)), 3);
    assert_eq!(exit_code_or_default(Some(-1)), -1);
    assert_eq!(exit_code_or_default(Some(i32::MIN)), i32::MIN);
}

#[test]
fn diff_section_layout() {
    assert_eq!(write_diff_section("Heading:", "body"), "Heading:\nbody\n");
    assert_eq!(write_diff_section("", ""), "\n\n");
}

#[test]
fn whitespace_agrees_with_std() {
    for code in 0..=0x10ffffu32 {
        if let Some(c) = char::from_u32(code) {
            assert_eq!(is_whitespace(c), c.is_whitespace(), "{:x}", code);
        }
    }
}

#[test]
fn command_words_splits_at_white_space() {
    assert_eq!(command_words("ls -l /tmp"), vec!["ls", "-l", "/tmp"]);
    assert_eq!(command_words("  cargo   run\t--release \n"), vec!["cargo", "run", "--release"]);
    assert_eq!(command_words("single"), vec!["single"]);
    assert_eq!(command_words(""), Vec::<String>::new());
    assert_eq!(command_words(" \t\n"), Vec::<String>::new());
    assert_eq!(command_words("a\u{a0}b\u{3000}c"), vec!["a", "b", "c"]);
    assert_eq!(command_words("héllo wörld"), vec!["héllo", "wörld"]);
}

#[test]
fn command_words_agrees_with_std() {
    let samples = [
        "", " ", "a", " a", "a ", " a ", "a b", "a  b", "\ta\nb\r\nc ", "./life final 5 1 p.txt",
        "x\u{2003}y", "\u{feff}a b", "a\u{200b}b c", "日本 語",
    ];
    for text in samples {
        let expected: Vec<String> = text.split_whitespace().map(|w| w.to_string()).collect();
        assert_eq!(command_words(text), expected, "{:?}", text);
    }
}
