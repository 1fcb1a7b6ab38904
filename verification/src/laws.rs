//! Laws of the session model: every transition keeps the invariant and is a
//! step along the edges of the state machine, a snapshot set is recorded at
//! most once, a rollback is idempotent, and its cascade invalidates exactly
//! the later operations that succeeded or are running.

use vstd::prelude::*;
use crate::classify::DiagnosticView;
use crate::lifecycle::{
    after_begin_undo,
    after_cancel,
    after_confirm,
    after_outcome,
    after_propose,
    after_push,
    after_repair,
    after_restore,
    after_snapshot,
    allowed_edge,
    awaits_outcome,
    begin_undo_result,
    confirm_refusal,
    confirm_result,
    empty_session,
    message_ok,
    message_step,
    outcome_result,
    repair_refusal,
    repair_result,
    restore_result,
    session_step,
    undo_refusal,
    well_formed,
    ActionView,
    EngineError,
    InFlight,
    SessionView,
};
use crate::models::{MessageView, PairsView, StatusView};
use crate::retry::DecisionView;
use crate::restore::{NamesView, RestoreOutcomeView};
use crate::rollback::{cascaded, is_invalidated};

verus! {

/// An empty session is well formed.
pub proof fn lemma_empty_is_well_formed(max_attempts: u32)
    ensures
        well_formed(empty_session(max_attempts)),
{
}

/// Adding a plain message keeps the invariant and is a step.
pub proof fn lemma_push_is_step(s: SessionView, text: Seq<char>, is_user: bool)
    requires
        well_formed(s),
        s.messages.len() < usize::MAX,
    ensures
        well_formed(after_push(s, text, is_user)),
        session_step(s, after_push(s, text, is_user)),
{
    let t = after_push(s, text, is_user);
    assert forall|i: int| 0 <= i < t.messages.len() implies #[trigger] message_ok(t, i) by {
        if i < s.messages.len() {
            assert(message_ok(s, i));
        }
    }
    assert forall|i: int| 0 <= i < s.messages.len() implies message_step(
        #[trigger] s.messages[i],
        t.messages[i],
    ) by {
        assert(s.messages[i].text.is_prefix_of(t.messages[i].text));
    }
}

/// Proposing a script keeps the invariant and is a step.
pub proof fn lemma_propose_is_step(s: SessionView, text: Seq<char>, code: Seq<char>)
    requires
        well_formed(s),
        s.messages.len() < usize::MAX,
    ensures
        well_formed(after_propose(s, text, code)),
        session_step(s, after_propose(s, text, code)),
{
    let t = after_propose(s, text, code);
    assert forall|i: int| 0 <= i < t.messages.len() implies #[trigger] message_ok(t, i) by {
        if i < s.messages.len() {
            assert(message_ok(s, i));
        }
    }
    assert forall|i: int| 0 <= i < s.messages.len() implies message_step(
        #[trigger] s.messages[i],
        t.messages[i],
    ) by {
        assert(s.messages[i].text.is_prefix_of(t.messages[i].text));
    }
}

/// Two sessions with the same number of messages, of which each message
/// either is the same or made a step, are a step apart.
proof fn lemma_step_by_messages(s: SessionView, t: SessionView)
    requires
        s.messages.len() == t.messages.len(),
        forall|i: int|
            0 <= i < s.messages.len() ==> s.messages[i] == t.messages[i] || message_step(
                s.messages[i],
                #[trigger] t.messages[i],
            ),
    ensures
        session_step(s, t),
{
    assert forall|i: int| 0 <= i < s.messages.len() implies message_step(
        #[trigger] s.messages[i],
        t.messages[i],
    ) by {
        assert(s.messages[i] == t.messages[i] || message_step(s.messages[i], t.messages[i]));
        assert(s.messages[i].text.is_prefix_of(s.messages[i].text));
    }
}

/// A confirmation keeps the invariant and is a step.
pub proof fn lemma_confirm_is_step(s: SessionView, id: usize)
    requires
        well_formed(s),
    ensures
        well_formed(after_confirm(s, id)),
        session_step(s, after_confirm(s, id)),
{
    let t = after_confirm(s, id);
    assert forall|i: int| 0 <= i < t.messages.len() implies #[trigger] message_ok(t, i) by {
        assert(message_ok(s, i));
    }
    assert forall|i: int| 0 <= i < s.messages.len() implies s.messages[i] == t.messages[i]
        || message_step(s.messages[i], #[trigger] t.messages[i]) by {
        assert(s.messages[i].text.is_prefix_of(s.messages[i].text));
    }
    lemma_step_by_messages(s, t);
}

/// An automatic repair keeps the invariant and is a step.
pub proof fn lemma_repair_is_step(s: SessionView, id: usize, code: Seq<char>)
    requires
        well_formed(s),
    ensures
        well_formed(after_repair(s, id, code)),
        session_step(s, after_repair(s, id, code)),
{
    let t = after_repair(s, id, code);
    assert forall|i: int| 0 <= i < t.messages.len() implies #[trigger] message_ok(t, i) by {
        assert(message_ok(s, i));
    }
    assert forall|i: int| 0 <= i < s.messages.len() implies s.messages[i] == t.messages[i]
        || message_step(s.messages[i], #[trigger] t.messages[i]) by {
        assert(s.messages[i].text.is_prefix_of(s.messages[i].text));
    }
    lemma_step_by_messages(s, t);
}

/// The report of a snapshot keeps the invariant and is a step.
pub proof fn lemma_snapshot_is_step(
    s: SessionView,
    id: usize,
    pairs: PairsView,
    skipped: NamesView,
)
    requires
        well_formed(s),
    ensures
        well_formed(after_snapshot(s, id, pairs, skipped)),
        session_step(s, after_snapshot(s, id, pairs, skipped)),
{
    let t = after_snapshot(s, id, pairs, skipped);
    assert forall|i: int| 0 <= i < t.messages.len() implies #[trigger] message_ok(t, i) by {
        assert(message_ok(s, i));
    }
    assert forall|i: int| 0 <= i < s.messages.len() implies s.messages[i] == t.messages[i]
        || message_step(s.messages[i], #[trigger] t.messages[i]) by {
        assert(s.messages[i].text.is_prefix_of(t.messages[i].text));
    }
    lemma_step_by_messages(s, t);
}

/// The report of an outcome keeps the invariant and is a step.
pub proof fn lemma_outcome_is_step(
    s: SessionView,
    id: usize,
    outcome: Result<Seq<char>, DiagnosticView>,
)
    requires
        well_formed(s),
    ensures
        well_formed(after_outcome(s, id, outcome)),
        session_step(s, after_outcome(s, id, outcome)),
{
    let t = after_outcome(s, id, outcome);
    assert forall|i: int| 0 <= i < t.messages.len() implies #[trigger] message_ok(t, i) by {
        assert(message_ok(s, i));
    }
    assert forall|i: int| 0 <= i < s.messages.len() implies s.messages[i] == t.messages[i]
        || message_step(s.messages[i], #[trigger] t.messages[i]) by {
        assert(message_ok(s, i));
        assert(s.messages[i].text.is_prefix_of(t.messages[i].text));
    }
    lemma_step_by_messages(s, t);
}

/// A cancellation keeps the invariant and is a step.
pub proof fn lemma_cancel_is_step(s: SessionView, id: usize)
    requires
        well_formed(s),
    ensures
        well_formed(after_cancel(s, id)),
        session_step(s, after_cancel(s, id)),
{
    let t = after_cancel(s, id);
    assert forall|i: int| 0 <= i < t.messages.len() implies #[trigger] message_ok(t, i) by {
        assert(message_ok(s, i));
    }
    assert forall|i: int| 0 <= i < s.messages.len() implies s.messages[i] == t.messages[i]
        || message_step(s.messages[i], #[trigger] t.messages[i]) by {
        assert(s.messages[i].text.is_prefix_of(s.messages[i].text));
    }
    lemma_step_by_messages(s, t);
}

/// The request of a rollback keeps the invariant and is a step.
pub proof fn lemma_begin_undo_is_step(s: SessionView, id: usize)
    requires
        well_formed(s),
    ensures
        well_formed(after_begin_undo(s, id)),
        session_step(s, after_begin_undo(s, id)),
{
    let t = after_begin_undo(s, id);
    assert forall|i: int| 0 <= i < t.messages.len() implies #[trigger] message_ok(t, i) by {
        assert(message_ok(s, i));
    }
    lemma_step_by_messages(s, t);
}

/// The report of a restore keeps the invariant and is a step.
pub proof fn lemma_restore_is_step(s: SessionView, id: usize, outcomes: Seq<RestoreOutcomeView>)
    requires
        well_formed(s),
    ensures
        well_formed(after_restore(s, id, outcomes)),
        session_step(s, after_restore(s, id, outcomes)),
{
    let t = after_restore(s, id, outcomes);
    assert forall|i: int| 0 <= i < t.messages.len() implies #[trigger] message_ok(t, i) by {
        assert(message_ok(s, i));
    }
    assert forall|i: int| 0 <= i < s.messages.len() implies s.messages[i] == t.messages[i]
        || message_step(s.messages[i], #[trigger] t.messages[i]) by {
        assert(message_ok(s, i));
        assert(s.messages[i].text.is_prefix_of(t.messages[i].text));
    }
    lemma_step_by_messages(s, t);
}

/// A change of the files in scope alone keeps the invariant and is a step.
pub proof fn lemma_files_is_step(s: SessionView, t: SessionView)
    requires
        well_formed(s),
        t == (SessionView { files: t.files, ..s }),
    ensures
        well_formed(t),
        session_step(s, t),
{
    assert forall|i: int| 0 <= i < t.messages.len() implies #[trigger] message_ok(t, i) by {
        assert(message_ok(s, i));
    }
    lemma_step_by_messages(s, t);
}

/// In a well-formed session at most one operation is running.
pub proof fn lemma_single_runner(s: SessionView, i: int, j: int)
    requires
        well_formed(s),
        0 <= i < s.messages.len(),
        0 <= j < s.messages.len(),
        s.messages[i].status is Running,
        s.messages[j].status is Running,
    ensures
        i == j,
{
    assert(message_ok(s, i));
    assert(message_ok(s, j));
}

/// A status enters `Running` only from `WaitingConfirmation` or `Error`,
/// and `Error` only from `Running`: the first run of an operation starts
/// from `WaitingConfirmation`.
pub proof fn lemma_first_run_is_confirmed(from: StatusView, to: StatusView)
    requires
        allowed_edge(from, to),
    ensures
        to is Running ==> from is WaitingConfirmation || from is Error,
        to is Error ==> from is Running,
        to is Success ==> from is Running,
        to is Cancelled ==> from is WaitingConfirmation,
        to is Undone ==> from is Success || from is Running,
        !(to is WaitingConfirmation) && !(to is Idle) && !(to is Loading),
{
}

/// `Cancelled` and `Undone` are terminal, and so is a plain message: no
/// edge leaves them.
pub proof fn lemma_terminal_states(from: StatusView, to: StatusView)
    requires
        from is Cancelled || from is Undone || from is Idle,
    ensures
        !allowed_edge(from, to),
{
}

/// A script runs only after its snapshot was captured in full: while the
/// script of an operation is in flight, the operation has its snapshot set.
pub proof fn lemma_snapshot_before_run(s: SessionView, id: usize)
    requires
        well_formed(s),
        s.in_flight == InFlight::Executing(id),
    ensures
        id < s.messages.len(),
        s.messages[id as int].backup_paths is Some,
        s.messages[id as int].status is Running,
{
    assert(message_ok(s, id as int));
}

/// The retry controller is not involved in a cancellation or a rollback:
/// neither changes the retry counter.
pub proof fn lemma_no_retry_on_cancel_or_undo(
    s: SessionView,
    id: usize,
    outcomes: Seq<RestoreOutcomeView>,
)
    ensures
        after_cancel(s, id).retry == s.retry,
        after_begin_undo(s, id).retry == s.retry,
        after_restore(s, id, outcomes).retry == s.retry,
{
}

/// A trace of sessions: each one is a step of the one before.
pub open spec fn is_trace(trace: Seq<SessionView>) -> bool {
    forall|n: int| 0 <= n < trace.len() - 1 ==> session_step(#[trigger] trace[n], trace[n + 1])
}

/// Along a trace no message disappears, and a message keeps its id.
pub proof fn lemma_messages_stay(trace: Seq<SessionView>, from: int, to: int, k: int)
    requires
        is_trace(trace),
        0 <= from <= to < trace.len(),
        0 <= k < trace[from].messages.len(),
    ensures
        k < trace[to].messages.len(),
        trace[to].messages[k].id == trace[from].messages[k].id,
    decreases to - from,
{
    if from < to {
        lemma_messages_stay(trace, from, to - 1, k);
        assert(session_step(trace[to - 1], trace[to]));
        assert(message_step(trace[to - 1].messages[k], trace[to].messages[k]));
    }
}

/// The snapshot set is written at most once: along a trace, whatever the
/// transitions in between, a message that has a snapshot set keeps that
/// very set.
pub proof fn lemma_snapshot_set_once(trace: Seq<SessionView>, from: int, to: int, k: int)
    requires
        is_trace(trace),
        0 <= from <= to < trace.len(),
        0 <= k < trace[from].messages.len(),
        trace[from].messages[k].backup_paths is Some,
    ensures
        k < trace[to].messages.len(),
        trace[to].messages[k].backup_paths == trace[from].messages[k].backup_paths,
    decreases to - from,
{
    if from < to {
        lemma_snapshot_set_once(trace, from, to - 1, k);
        assert(session_step(trace[to - 1], trace[to]));
        assert(message_step(trace[to - 1].messages[k], trace[to].messages[k]));
    }
}

/// The log is append-only: along a trace the log of a message only grows.
pub proof fn lemma_log_only_grows(trace: Seq<SessionView>, from: int, to: int, k: int)
    requires
        is_trace(trace),
        0 <= from <= to < trace.len(),
        0 <= k < trace[from].messages.len(),
    ensures
        k < trace[to].messages.len(),
        trace[from].messages[k].text.is_prefix_of(trace[to].messages[k].text),
    decreases to - from,
{
    if from < to {
        lemma_log_only_grows(trace, from, to - 1, k);
        assert(session_step(trace[to - 1], trace[to]));
        assert(message_step(trace[to - 1].messages[k], trace[to].messages[k]));
        let a = trace[from].messages[k].text;
        let b = trace[to - 1].messages[k].text;
        let c = trace[to].messages[k].text;
        assert(a =~= c.subrange(0, a.len() as int)) by {
            assert(a == b.subrange(0, a.len() as int));
            assert(b == c.subrange(0, b.len() as int));
        }
    } else {
        let a = trace[from].messages[k].text;
        assert(a =~= a.subrange(0, a.len() as int));
    }
}

/// A second start never takes a new snapshot: confirming or repairing an
/// operation that has a snapshot set asks for its script to be run, not for
/// a snapshot, and leaves the set as it is. So a rollback of a repaired
/// operation restores the state before its first attempt.
pub proof fn lemma_restart_reuses_snapshot(s: SessionView, id: usize, code: Seq<char>)
    requires
        id < s.messages.len(),
        s.messages[id as int].backup_paths is Some,
    ensures
        confirm_refusal(s, id) is None ==> {
            &&& confirm_result(s, id) == Ok::<ActionView, EngineError>(
                ActionView::Execute(s.messages[id as int].pending_code->0),
            )
            &&& after_confirm(s, id).in_flight == InFlight::Executing(id)
            &&& after_confirm(s, id).messages[id as int].backup_paths
                == s.messages[id as int].backup_paths
        },
        repair_refusal(s, id) is None ==> {
            &&& repair_result(s, id, code) == Ok::<ActionView, EngineError>(
                ActionView::Execute(code),
            )
            &&& after_repair(s, id, code).in_flight == InFlight::Executing(id)
            &&& after_repair(s, id, code).messages[id as int].backup_paths
                == s.messages[id as int].backup_paths
        },
{
}

/// Once the bound is reached, a failure gives up and leaves the operation
/// failed with its diagnostic; below the bound it asks for a repair and
/// counts it.
pub proof fn lemma_failure_at_the_bound(s: SessionView, id: usize, diagnostic: DiagnosticView)
    requires
        awaits_outcome(s, id),
    ensures
        ({
            let after = after_outcome(s, id, Err(diagnostic));
            let answer = outcome_result(s, id, Err(diagnostic));
            &&& after.messages[id as int].status == StatusView::Error(diagnostic.text)
            &&& after.in_flight == InFlight::Free
            &&& s.retry.attempt >= s.retry.max_attempts ==> {
                &&& answer == Ok::<Option<DecisionView>, EngineError>(Some(DecisionView::GiveUp))
                &&& after.retry == s.retry
            }
            &&& s.retry.attempt < s.retry.max_attempts ==> {
                &&& answer is Ok
                &&& answer->Ok_0 is Some
                &&& answer->Ok_0->0 is Retry
                &&& after.retry.attempt == s.retry.attempt + 1
            }
        }),
{
}

/// Undoing an operation that is already undone changes nothing and
/// reports that there is nothing to restore.
pub proof fn lemma_undo_of_undone(s: SessionView, id: usize)
    requires
        id < s.messages.len(),
        s.messages[id as int].status is Undone,
    ensures
        begin_undo_result(s, id) == Err::<PairsView, EngineError>(EngineError::NothingToRestore),
        after_begin_undo(s, id) == s,
{
}

/// A rollback is idempotent: after a rollback of `id` that restored every
/// file, a second rollback of `id` changes nothing and reports that there
/// is nothing to restore.
pub proof fn lemma_undo_is_idempotent(s: SessionView, id: usize, outcomes: Seq<RestoreOutcomeView>)
    requires
        well_formed(s),
        undo_refusal(s, id) is None,
        restore_result(after_begin_undo(s, id), id, outcomes) is Ok,
    ensures
        ({
            let done = after_restore(after_begin_undo(s, id), id, outcomes);
            &&& done.messages[id as int].status is Undone
            &&& begin_undo_result(done, id) == Err::<PairsView, EngineError>(
                EngineError::NothingToRestore,
            )
            &&& after_begin_undo(done, id) == done
        }),
{
    assert(message_ok(s, id as int));
}

/// Cascade correctness: a rollback of `id` that restored every file marks
/// `id` undone, marks undone every later operation that succeeded or was
/// running, and leaves every other message as it was: the earlier ones, and
/// the later ones that failed, were cancelled or were undone before.
pub proof fn lemma_cascade(s: SessionView, id: usize, outcomes: Seq<RestoreOutcomeView>, j: int)
    requires
        well_formed(s),
        restore_result(s, id, outcomes) is Ok,
        0 <= j < s.messages.len(),
    ensures
        ({
            let before = s.messages[j];
            let after = after_restore(s, id, outcomes).messages[j];
            &&& j == id ==> after.status is Undone
            &&& j > id && (before.status is Success || before.status is Running) ==> {
                &&& after.status is Undone
                &&& after.backup_paths == before.backup_paths
            }
            &&& j > id && !(before.status is Success || before.status is Running) ==> after
                == before
            &&& j < id ==> after == before
        }),
{
    assert(message_ok(s, j));
    assert(message_ok(s, id as int));
}

/// The cascade alone, on any list of messages: a message is invalidated
/// exactly when it is later than the target and succeeded or is running.
pub proof fn lemma_cascaded_message(messages: Seq<MessageView>, target: usize, j: int)
    requires
        0 <= j < messages.len(),
    ensures
        cascaded(messages, target).len() == messages.len(),
        is_invalidated(messages[j], target) ==> cascaded(messages, target)[j].status is Undone,
        !is_invalidated(messages[j], target) ==> cascaded(messages, target)[j] == messages[j],
{
}

} // verus!
