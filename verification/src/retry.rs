//! The retry controller: after a failed run it decides whether the script
//! is regenerated once more or the operation is left for the user.
//!
//! The bound counts the automatic repairs of one chain of failures. It is
//! reset when the user confirms an operation and when a run succeeds.

use vstd::prelude::*;
use vstd::string::*;
use crate::text::{decimal, decimal_digits, lemma_mentions_infix, mentions};

verus! {

/// The number of automatic repairs a session allows per chain of failures.
pub const MAX_RETRIES: u32 = 3;

/// What to do after a failed run.
#[derive(Debug, PartialEq)]
pub enum RepairDecision {
    /// Ask for a corrected script with this prompt, then run it.
    Retry(String),
    /// The bound is reached; the operation stays failed.
    GiveUp,
}

/// Mathematical value of a [`RepairDecision`].
pub enum DecisionView {
    Retry(Seq<char>),
    GiveUp,
}

impl View for RepairDecision {
    type V = DecisionView;

    open spec fn view(&self) -> DecisionView {
        match self {
            RepairDecision::Retry(prompt) => DecisionView::Retry(prompt@),
            RepairDecision::GiveUp => DecisionView::GiveUp,
        }
    }
}

/// Counter of the automatic repairs of the current chain of failures.
#[derive(Clone, Copy, Debug, PartialEq, Eq, Structural)]
pub struct RetryState {
    /// Repairs started since the last reset.
    pub attempt: u32,
    /// The most repairs one chain may start.
    pub max_attempts: u32,
}

/// The prompt that asks for a corrected script: the previous script and the
/// diagnostic of its failure, both verbatim.
pub open spec fn repair_prompt(code: Seq<char>, diagnostic: Seq<char>) -> Seq<char> {
    "你生成的代码运行报错了。\n\n刚才的代码:\n"@ + code + "\n\n报错信息:\n"@ + diagnostic
        + "\n\n请分析错误原因，并重新生成修正后的完整代码。"@
}

/// The log note of repair number `attempt` out of `max`.
pub open spec fn repair_note(attempt: nat, max: nat) -> Seq<char> {
    "\n\n🔄 自动修复中 (尝试 "@ + decimal_digits(attempt) + "/"@ + decimal_digits(max) + ")..."@
}

/// The log note that ends a chain of failures after `max` repairs.
pub open spec fn exhausted_note(max: nat) -> Seq<char> {
    "\n\n🛑 已达到最大重试次数 ("@ + decimal_digits(max) + ")，停止自动修复。"@
}

/// Builds the prompt that asks for a corrected script.
pub fn build_repair_prompt(code: &str, diagnostic: &str) -> (prompt: String)
    ensures
        prompt@ == repair_prompt(code@, diagnostic@),
{
    let mut prompt = "你生成的代码运行报错了。\n\n刚才的代码:\n".to_owned();
    prompt.append(code);
    prompt.append("\n\n报错信息:\n");
    prompt.append(diagnostic);
    prompt.append("\n\n请分析错误原因，并重新生成修正后的完整代码。");
    prompt
}

impl RetryState {
    /// Whether the next failure starts a repair.
    pub open spec fn may_retry(self) -> bool {
        self.attempt < self.max_attempts
    }

    /// The counter after one more failure.
    pub open spec fn after_failure(self) -> RetryState {
        if self.may_retry() {
            RetryState { attempt: (self.attempt + 1) as u32, max_attempts: self.max_attempts }
        } else {
            self
        }
    }

    /// The counter after `n` failures in a row.
    pub open spec fn after_failures(self, n: nat) -> RetryState
        decreases n,
    {
        if n == 0 {
            self
        } else {
            self.after_failures((n - 1) as nat).after_failure()
        }
    }

    /// The note that a failure appends to the operation's log.
    pub open spec fn failure_note(self) -> Seq<char> {
        if self.may_retry() {
            repair_note((self.attempt + 1) as nat, self.max_attempts as nat)
        } else {
            exhausted_note(self.max_attempts as nat)
        }
    }

    /// The decision on a failure of the script `code` with `diagnostic`.
    pub open spec fn decision(self, code: Seq<char>, diagnostic: Seq<char>) -> DecisionView {
        if self.may_retry() {
            DecisionView::Retry(repair_prompt(code, diagnostic))
        } else {
            DecisionView::GiveUp
        }
    }

    /// A counter at zero with the given bound.
    pub fn new(max_attempts: u32) -> (state: Self)
        ensures
            state == (RetryState { attempt: 0, max_attempts }),
    {
        RetryState { attempt: 0, max_attempts }
    }

    /// Starts a new chain: the counter returns to zero.
    pub fn reset(&mut self)
        ensures
            *final(self) == (RetryState { attempt: 0, max_attempts: old(self).max_attempts }),
    {
        self.attempt = 0;
    }

    /// Handles one failed run of `code`. Below the bound it counts a repair,
    /// notes "repair n/max" in `log` and returns the repair prompt; at the
    /// bound it notes the end of the chain and gives up.
    pub fn on_failure(&mut self, log: &mut String, code: &str, diagnostic: &str) -> (decision:
        RepairDecision)
        ensures
            *final(self) == old(self).after_failure(),
            final(log)@ == old(log)@ + old(self).failure_note(),
            decision@ == old(self).decision(code@, diagnostic@),
    {
        if self.attempt < self.max_attempts {
            self.attempt = self.attempt + 1;
            log.append("\n\n🔄 自动修复中 (尝试 ");
            log.append(decimal(self.attempt as u128).as_str());
            log.append("/");
            log.append(decimal(self.max_attempts as u128).as_str());
            log.append(")...");
            assert(log@ =~= old(log)@ + old(self).failure_note());
            RepairDecision::Retry(build_repair_prompt(code, diagnostic))
        } else {
            log.append("\n\n🛑 已达到最大重试次数 (");
            log.append(decimal(self.max_attempts as u128).as_str());
            log.append(")，停止自动修复。");
            assert(log@ =~= old(log)@ + old(self).failure_note());
            RepairDecision::GiveUp
        }
    }
}

/// The repair prompt holds the previous script and the diagnostic verbatim.
pub proof fn lemma_prompt_is_verbatim(code: Seq<char>, diagnostic: Seq<char>)
    ensures
        mentions(repair_prompt(code, diagnostic), code),
        mentions(repair_prompt(code, diagnostic), diagnostic),
{
    let head = "你生成的代码运行报错了。\n\n刚才的代码:\n"@;
    let middle = "\n\n报错信息:\n"@;
    let tail = "\n\n请分析错误原因，并重新生成修正后的完整代码。"@;
    let prompt = repair_prompt(code, diagnostic);
    assert(prompt =~= head + code + (middle + diagnostic + tail));
    lemma_mentions_infix(head, code, middle + diagnostic + tail);
    assert(prompt =~= (head + code + middle) + diagnostic + tail);
    lemma_mentions_infix(head + code + middle, diagnostic, tail);
}

/// From a counter at zero, `n` failures in a row leave the counter at `n`
/// or at the bound, whichever is smaller.
pub proof fn lemma_count_after_failures(max: u32, n: nat)
    ensures
        (RetryState { attempt: 0, max_attempts: max }).after_failures(n).max_attempts == max,
        (RetryState { attempt: 0, max_attempts: max }).after_failures(n).attempt == if n
            < max {
            n
        } else {
            max as nat
        },
    decreases n,
{
    if n > 0 {
        lemma_count_after_failures(max, (n - 1) as nat);
    }
}

/// The retry bound: in a chain of failures that starts from a counter at
/// zero, each of the first `max` failures starts a repair, and every
/// failure after them gives up.
pub proof fn lemma_retry_bound(max: u32, earlier: nat)
    ensures
        (RetryState { attempt: 0, max_attempts: max }).after_failures(earlier).may_retry()
            == (earlier < max),
{
    lemma_count_after_failures(max, earlier);
}

} // verus!
