//! The execution classifier: turns what the resource bridge captured from a
//! script run into success with output or failure with a diagnostic.
//!
//! Generated scripts often catch their own exceptions and print a
//! human-readable error instead of raising, so a run that ended without a
//! hard error is still a failure when its output carries an error marker.

use vstd::prelude::*;
use vstd::string::*;
use crate::text::{
    contains,
    lemma_mentions_infix,
    lemma_mentions_part,
    lowercase_of,
    mentions,
    mentions_any,
    to_lowercase,
};

verus! {

/// What the resource bridge returns from one script run.
#[derive(Debug, PartialEq)]
pub struct ScriptOutput {
    /// Everything the script wrote to its normal output.
    pub stdout: String,
    /// Everything the script wrote to its diagnostic output.
    pub stderr: String,
    /// The bridge's own error when the script did not run to completion.
    pub hard_error: Option<String>,
}

/// How a script run failed.
#[derive(Clone, Copy, Debug, PartialEq, Eq, Structural)]
pub enum FailureKind {
    /// The bridge could not run the script to completion.
    Hard,
    /// The script ran to completion but its output indicates failure.
    Soft,
}

/// A failed run: its kind and the text handed to the repair step.
#[derive(Debug, PartialEq)]
pub struct Diagnostic {
    pub kind: FailureKind,
    pub text: String,
}

/// Mathematical value of a [`Diagnostic`].
pub struct DiagnosticView {
    pub kind: FailureKind,
    pub text: Seq<char>,
}

impl View for Diagnostic {
    type V = DiagnosticView;

    open spec fn view(&self) -> DiagnosticView {
        DiagnosticView { kind: self.kind, text: self.text@ }
    }
}

/// Mathematical value of a classifier result.
pub open spec fn outcome_view(outcome: Result<String, Diagnostic>) -> Result<
    Seq<char>,
    DiagnosticView,
> {
    match outcome {
        Ok(output) => Ok(output@),
        Err(diagnostic) => Err(diagnostic@),
    }
}

/// The keywords that mark a failure in either output stream, in lower case.
pub open spec fn error_keywords() -> Seq<Seq<char>> {
    seq!["error"@, "exception"@, "traceback"@, "failed"@]
}

/// Further markers of failure that scripts print to their normal output.
pub open spec fn failure_markers() -> Seq<Seq<char>> {
    seq!["not found"@, "❌"@]
}

/// The diagnostic of a hard failure: the bridge's error, then the captured
/// diagnostic stream.
pub open spec fn hard_diagnostic(error: Seq<char>, trace: Seq<char>) -> Seq<char> {
    "🐍 Runtime Exception:\n"@ + error + "\n\n📝 Stderr Trace:\n"@ + trace
}

/// The classification of a run, given the lower-case forms of both streams.
///
/// In order: a hard error is a hard failure; a non-empty diagnostic stream
/// that mentions an error keyword is a soft failure whose diagnostic is that
/// stream; a normal output that mentions an error keyword or a failure
/// marker is a soft failure whose diagnostic is that output; anything else
/// is success with the normal output.
pub open spec fn classification(
    stdout: Seq<char>,
    stderr: Seq<char>,
    hard_error: Option<Seq<char>>,
    lower_out: Seq<char>,
    lower_err: Seq<char>,
) -> Result<Seq<char>, DiagnosticView> {
    if hard_error is Some {
        Err(
            DiagnosticView {
                kind: FailureKind::Hard,
                text: hard_diagnostic(hard_error->0, stderr),
            },
        )
    } else if stderr.len() > 0 && mentions_any(lower_err, error_keywords()) {
        Err(DiagnosticView { kind: FailureKind::Soft, text: stderr })
    } else if mentions_any(lower_out, error_keywords() + failure_markers()) {
        Err(DiagnosticView { kind: FailureKind::Soft, text: stdout })
    } else {
        Ok(stdout)
    }
}

/// Whether lower-case text mentions one of the error keywords.
pub fn has_error_keyword(lower: &str) -> (found: bool)
    ensures
        found == mentions_any(lower@, error_keywords()),
{
    let found = contains(lower, "error") || contains(lower, "exception") || contains(
        lower,
        "traceback",
    ) || contains(lower, "failed");
    proof {
        let words = error_keywords();
        if found {
            let k = if mentions(lower@, words[0]) {
                0int
            } else if mentions(lower@, words[1]) {
                1int
            } else if mentions(lower@, words[2]) {
                2int
            } else {
                3int
            };
            assert(mentions(lower@, words[k]));
        }
    }
    found
}

/// Whether lower-case text mentions one of the failure markers.
pub fn has_failure_marker(lower: &str) -> (found: bool)
    ensures
        found == mentions_any(lower@, failure_markers()),
{
    let found = contains(lower, "not found") || contains(lower, "❌");
    proof {
        let words = failure_markers();
        if found {
            let k = if mentions(lower@, words[0]) {
                0int
            } else {
                1int
            };
            assert(mentions(lower@, words[k]));
        }
    }
    found
}

/// A text mentions one of `a + b` exactly when it mentions one of `a` or
/// one of `b`.
pub proof fn lemma_mentions_any_concat(hay: Seq<char>, a: Seq<Seq<char>>, b: Seq<Seq<char>>)
    ensures
        mentions_any(hay, a + b) == (mentions_any(hay, a) || mentions_any(hay, b)),
{
    let both = a + b;
    if mentions_any(hay, a) {
        let k = choose|k: int| 0 <= k < a.len() && mentions(hay, #[trigger] a[k]);
        assert(both[k] == a[k]);
        assert(mentions(hay, both[k]));
    }
    if mentions_any(hay, b) {
        let k = choose|k: int| 0 <= k < b.len() && mentions(hay, #[trigger] b[k]);
        assert(both[a.len() + k] == b[k]);
        assert(mentions(hay, both[a.len() + k]));
    }
    if mentions_any(hay, both) {
        let k = choose|k: int| 0 <= k < both.len() && mentions(hay, #[trigger] both[k]);
        if k < a.len() {
            assert(both[k] == a[k]);
            assert(mentions(hay, a[k]));
        } else {
            assert(both[k] == b[k - a.len()]);
            assert(mentions(hay, b[k - a.len()]));
        }
    }
}

/// A run without a hard error whose lower-cased streams mention no keyword
/// and no marker is a success, and its output is the normal output.
pub proof fn lemma_clean_run_succeeds(
    stdout: Seq<char>,
    stderr: Seq<char>,
    lower_out: Seq<char>,
    lower_err: Seq<char>,
)
    requires
        !mentions_any(lower_err, error_keywords()),
        !mentions_any(lower_out, error_keywords()),
        !mentions_any(lower_out, failure_markers()),
    ensures
        classification(stdout, stderr, None, lower_out, lower_err) == Ok::<
            Seq<char>,
            DiagnosticView,
        >(stdout),
{
    lemma_mentions_any_concat(lower_out, error_keywords(), failure_markers());
}

/// A run whose lower-cased normal output holds the start of a stack trace
/// anywhere, between any two texts, is a failure, also when the bridge
/// reported no hard error and the diagnostic stream is empty.
pub proof fn lemma_traceback_fails(
    stdout: Seq<char>,
    stderr: Seq<char>,
    hard_error: Option<Seq<char>>,
    lower_err: Seq<char>,
    before: Seq<char>,
    after: Seq<char>,
)
    ensures
        classification(
            stdout,
            stderr,
            hard_error,
            before + "traceback (most"@ + after,
            lower_err,
        ) is Err,
{
    reveal_strlit("traceback (most");
    reveal_strlit("traceback");
    reveal_strlit(" (most");
    let lower_out = before + "traceback (most"@ + after;
    let empty = Seq::<char>::empty();
    lemma_mentions_infix(before, "traceback (most"@, after);
    assert("traceback (most"@ =~= empty + "traceback"@ + " (most"@);
    lemma_mentions_part(lower_out, empty, "traceback"@, " (most"@);
    let words = error_keywords() + failure_markers();
    assert(words[2] == "traceback"@);
    assert(mentions(lower_out, words[2]));
}

/// A hard error is a hard failure whatever the streams hold, and its
/// diagnostic is the bridge's error followed by the diagnostic stream.
pub proof fn lemma_hard_error_fails(
    stdout: Seq<char>,
    stderr: Seq<char>,
    error: Seq<char>,
    lower_out: Seq<char>,
    lower_err: Seq<char>,
)
    ensures
        classification(stdout, stderr, Some(error), lower_out, lower_err) == Err::<
            Seq<char>,
            DiagnosticView,
        >(DiagnosticView { kind: FailureKind::Hard, text: hard_diagnostic(error, stderr) }),
{
}

/// Classifies a run whose two streams were already lower-cased.
pub fn classify_lowered(output: ScriptOutput, lower_out: &str, lower_err: &str) -> (outcome:
    Result<String, Diagnostic>)
    ensures
        outcome_view(outcome) == classification(
            output.stdout@,
            output.stderr@,
            output.hard_error.deep_view(),
            lower_out@,
            lower_err@,
        ),
{
    let ScriptOutput { stdout, stderr, hard_error } = output;
    if let Some(error) = hard_error {
        let mut text = "🐍 Runtime Exception:\n".to_owned();
        text.append(error.as_str());
        text.append("\n\n📝 Stderr Trace:\n");
        text.append(stderr.as_str());
        return Err(Diagnostic { kind: FailureKind::Hard, text });
    }
    if !stderr.as_str().is_empty() && has_error_keyword(lower_err) {
        return Err(Diagnostic { kind: FailureKind::Soft, text: stderr });
    }
    proof {
        lemma_mentions_any_concat(lower_out@, error_keywords(), failure_markers());
    }
    if has_error_keyword(lower_out) || has_failure_marker(lower_out) {
        return Err(Diagnostic { kind: FailureKind::Soft, text: stdout });
    }
    Ok(stdout)
}

/// Classifies a run: lower-cases both streams, then decides as
/// [`classification`] says.
pub fn classify(output: ScriptOutput) -> (outcome: Result<String, Diagnostic>)
    ensures
        outcome_view(outcome) == classification(
            output.stdout@,
            output.stderr@,
            output.hard_error.deep_view(),
            lowercase_of(output.stdout@),
            lowercase_of(output.stderr@),
        ),
{
    let lower_out = to_lowercase(output.stdout.as_str());
    let lower_err = to_lowercase(output.stderr.as_str());
    classify_lowered(output, lower_out.as_str(), lower_err.as_str())
}

} // verus!
