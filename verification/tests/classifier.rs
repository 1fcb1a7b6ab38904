use excel_agent::classify::{classify, classify_lowered, has_error_keyword, has_failure_marker};
use excel_agent::classify::{Diagnostic, FailureKind, ScriptOutput};

fn run(stdout: &str, stderr: &str, hard_error: Option<&str>) -> Result<String, Diagnostic> {
    classify(ScriptOutput {
        stdout: stdout.to_string(),
        stderr: stderr.to_string(),
        hard_error: hard_error.map(|e| e.to_string()),
    })
}

#[test]
fn output_without_keyword_is_success() {
    assert_eq!(run("wrote 12 rows to Sheet1\n", "", None), Ok("wrote 12 rows to Sheet1\n".to_string()));
}

#[test]
fn empty_output_is_success() {
    assert_eq!(run("", "", None), Ok(String::new()));
}

#[test]
fn traceback_in_output_is_failure_without_hard_error() {
    let out = "starting\nTraceback (most recent call last):\n  File \"<string>\", line 1\n";
    assert_eq!(
        run(out, "", None),
        Err(Diagnostic { kind: FailureKind::Soft, text: out.to_string() })
    );
}

#[test]
fn traceback_at_the_very_end_is_failure() {
    let out = "all good so far Traceback (most";
    assert_eq!(
        run(out, "", None),
        Err(Diagnostic { kind: FailureKind::Soft, text: out.to_string() })
    );
}

#[test]
fn upper_case_keyword_is_found() {
    let out = "OPERATION FAILED";
    assert_eq!(
        run(out, "", None),
        Err(Diagnostic { kind: FailureKind::Soft, text: out.to_string() })
    );
}

#[test]
fn key_error_printed_by_the_script_is_failure() {
    let out = "KeyError: 'X'";
    assert_eq!(
        run(out, "", None),
        Err(Diagnostic { kind: FailureKind::Soft, text: out.to_string() })
    );
}

#[test]
fn domain_markers_are_failures() {
    assert!(run("Sheet 'Q3' Not Found", "", None).is_err());
    assert!(run("\u{274c} could not write", "", None).is_err());
}

#[test]
fn hard_error_is_hard_failure_with_trace() {
    assert_eq!(
        run("partial", "trace text", Some("NameError: name 'df' is not defined")),
        Err(Diagnostic {
            kind: FailureKind::Hard,
            text: "\u{1f40d} Runtime Exception:\nNameError: name 'df' is not defined\n\n\u{1f4dd} Stderr Trace:\ntrace text".to_string(),
        })
    );
}

#[test]
fn hard_error_wins_over_clean_output() {
    let outcome = run("fine", "", Some("boom"));
    assert_eq!(outcome.unwrap_err().kind, FailureKind::Hard);
}

#[test]
fn stderr_with_keyword_is_soft_failure_with_that_buffer() {
    assert_eq!(
        run("fine", "ValueError: bad cell", None),
        Err(Diagnostic { kind: FailureKind::Soft, text: "ValueError: bad cell".to_string() })
    );
}

#[test]
fn stderr_is_checked_before_stdout() {
    assert_eq!(
        run("error: in stdout", "Exception in stderr", None),
        Err(Diagnostic { kind: FailureKind::Soft, text: "Exception in stderr".to_string() })
    );
}

#[test]
fn stderr_without_keyword_does_not_fail_the_run() {
    assert_eq!(run("done", "UserWarning: slow path", None), Ok("done".to_string()));
}

#[test]
fn marker_in_stderr_alone_is_not_a_failure() {
    assert_eq!(run("done", "sheet not found", None), Ok("done".to_string()));
}

#[test]
fn classify_lowered_goes_by_the_lowered_text() {
    let output = ScriptOutput {
        stdout: "ERROR".to_string(),
        stderr: String::new(),
        hard_error: None,
    };
    assert_eq!(classify_lowered(output, "nothing here", ""), Ok("ERROR".to_string()));
    let output = ScriptOutput {
        stdout: "quiet".to_string(),
        stderr: String::new(),
        hard_error: None,
    };
    assert_eq!(
        classify_lowered(output, "an exception", ""),
        Err(Diagnostic { kind: FailureKind::Soft, text: "quiet".to_string() })
    );
}

#[test]
fn classify_lowered_ignores_keywords_of_an_empty_stderr() {
    let output = ScriptOutput {
        stdout: "quiet".to_string(),
        stderr: String::new(),
        hard_error: None,
    };
    assert_eq!(classify_lowered(output, "quiet", "error"), Ok("quiet".to_string()));
}

#[test]
fn keyword_predicates() {
    assert!(has_error_keyword("an error"));
    assert!(has_error_keyword("exception"));
    assert!(has_error_keyword("xtracebackx"));
    assert!(has_error_keyword("it failed"));
    assert!(!has_error_keyword("not found"));
    assert!(!has_error_keyword("erro r"));
    assert!(has_failure_marker("file not found"));
    assert!(has_failure_marker("\u{274c}"));
    assert!(!has_failure_marker("error"));
    assert!(!has_failure_marker(""));
}
