//! The mathematical model of a session: its state, its invariant, and the
//! transitions that the engine performs on it.
//!
//! A session is a list of messages, the files in scope, the retry counter
//! and a marker of the work in flight. A message that carries a script is an
//! operation record; its status moves only along these edges:
//!
//! ```text
//! WaitingConfirmation -> Running -> Success | Error
//! WaitingConfirmation -> Cancelled
//! Error -> Running                  (a repair, automatic or asked for)
//! Success -> Undone                 (a rollback, direct or cascaded)
//! Running -> Undone                 (a cascaded rollback)
//! ```

use vstd::prelude::*;
use crate::classify::DiagnosticView;
use crate::models::{MessageView, PairsView, StatusView};
use crate::restore::{
    all_restored,
    report_of,
    undo_note,
    FileReportView,
    NamesView,
    RestoreOutcomeView,
};
use crate::retry::{DecisionView, RetryState};
use crate::rollback::{cascaded, invalidated_ids};

verus! {

/// The work that the session waits for. At most one piece of work is in
/// flight: a second run or rollback is refused until it is reported done.
#[derive(Clone, Copy, Debug, PartialEq, Eq, Structural)]
pub enum InFlight {
    /// Nothing: the session accepts a confirmation or a rollback.
    Free,
    /// The snapshot for the operation with this id is being captured.
    Snapshotting(usize),
    /// The script of the operation with this id is running.
    Executing(usize),
    /// The snapshot set of the operation with this id is being restored.
    Restoring(usize),
}

/// Why the engine refused a request.
#[derive(Clone, Copy, Debug, PartialEq, Eq, Structural)]
pub enum EngineError {
    /// No message has this id.
    UnknownOperation,
    /// A snapshot, a run or a restore is in flight.
    Busy,
    /// The message carries no script that waits for confirmation or failed.
    NotConfirmable,
    /// The operation no longer waits for confirmation.
    NotCancellable,
    /// The operation has no snapshot to restore, or is already undone.
    NothingToRestore,
    /// The operation did not succeed, so there is nothing to roll back.
    NotUndoable,
    /// The report does not answer the work in flight.
    NotExpected,
    /// The number of restore outcomes differs from that of the snapshot
    /// pairs.
    OutcomeMismatch,
}

/// What an error says, in words.
pub open spec fn error_text(error: EngineError) -> Seq<char> {
    match error {
        EngineError::UnknownOperation => "unknown operation"@,
        EngineError::Busy => "another operation is in flight"@,
        EngineError::NotConfirmable => "nothing to run"@,
        EngineError::NotCancellable => "not waiting for confirmation"@,
        EngineError::NothingToRestore => "nothing to restore"@,
        EngineError::NotUndoable => "the operation did not succeed"@,
        EngineError::NotExpected => "no such work is in flight"@,
        EngineError::OutcomeMismatch => "one outcome per snapshot pair is needed"@,
    }
}

impl EngineError {
    /// What the error says, in words.
    pub fn message(self) -> (text: &'static str)
        ensures
            text@ == error_text(self),
    {
        match self {
            EngineError::UnknownOperation => "unknown operation",
            EngineError::Busy => "another operation is in flight",
            EngineError::NotConfirmable => "nothing to run",
            EngineError::NotCancellable => "not waiting for confirmation",
            EngineError::NothingToRestore => "nothing to restore",
            EngineError::NotUndoable => "the operation did not succeed",
            EngineError::NotExpected => "no such work is in flight",
            EngineError::OutcomeMismatch => "one outcome per snapshot pair is needed",
        }
    }
}

/// Mathematical value of a session.
pub struct SessionView {
    pub messages: Seq<MessageView>,
    /// The paths of the files in scope.
    pub files: NamesView,
    pub retry: RetryState,
    pub in_flight: InFlight,
}

/// What the caller has to do next.
pub enum ActionView {
    /// Capture a snapshot of these files, then report it.
    Snapshot(NamesView),
    /// Run this script, then report its outcome.
    Execute(Seq<char>),
}

/// What a rollback did.
pub struct UndoReportView {
    /// One report per snapshot pair, in order.
    pub files: Seq<FileReportView>,
    /// The ids of the later operations that the rollback invalidated.
    pub invalidated: Seq<usize>,
}

/// Why a rollback did not complete.
pub enum UndoErrorView {
    /// The engine refused the report.
    Rejected(EngineError),
    /// At least one file could not be restored; the files that were restored
    /// stay restored.
    RestoreFailed(Seq<FileReportView>),
}

/// The status may move from `from` to `to`.
pub open spec fn allowed_edge(from: StatusView, to: StatusView) -> bool {
    match (from, to) {
        (StatusView::WaitingConfirmation, StatusView::Running) => true,
        (StatusView::WaitingConfirmation, StatusView::Cancelled) => true,
        (StatusView::Running, StatusView::Success) => true,
        (StatusView::Running, StatusView::Error(_)) => true,
        (StatusView::Running, StatusView::Undone) => true,
        (StatusView::Success, StatusView::Undone) => true,
        (StatusView::Error(_), StatusView::Running) => true,
        _ => false,
    }
}

/// One message before and after one transition: its id and author are
/// kept, its status is kept or moved along one edge, its log only grew, and
/// its snapshot set, once there, is the same.
pub open spec fn message_step(before: MessageView, after: MessageView) -> bool {
    &&& after.id == before.id
    &&& after.is_user == before.is_user
    &&& (after.status == before.status || allowed_edge(before.status, after.status))
    &&& before.text.is_prefix_of(after.text)
    &&& (before.backup_paths is Some ==> after.backup_paths == before.backup_paths)
}

/// A message as it enters the session: plain or awaiting confirmation, and
/// without a snapshot.
pub open spec fn is_fresh(message: MessageView) -> bool {
    &&& (message.status is Idle || message.status is WaitingConfirmation)
    &&& message.backup_paths is None
}

/// One transition of a session: no message is removed, every message that
/// was there made a [`message_step`], and every new message is fresh.
pub open spec fn session_step(before: SessionView, after: SessionView) -> bool {
    &&& before.messages.len() <= after.messages.len()
    &&& forall|i: int|
        0 <= i < before.messages.len() ==> message_step(
            #[trigger] before.messages[i],
            after.messages[i],
        )
    &&& forall|i: int|
        before.messages.len() <= i < after.messages.len() ==> is_fresh(
            #[trigger] after.messages[i],
        )
}

/// What holds of the message at position `i` of a well-formed session.
pub open spec fn message_ok(s: SessionView, i: int) -> bool {
    let m = s.messages[i];
    &&& m.id == i
    &&& (m.status is Running <==> (s.in_flight == InFlight::Snapshotting(i as usize)
        || s.in_flight == InFlight::Executing(i as usize)))
    &&& (m.backup_paths is Some <==> (m.status is Success || m.status is Error
        || m.status is Undone || s.in_flight == InFlight::Executing(i as usize)))
    &&& (s.in_flight == InFlight::Restoring(i as usize) ==> m.status is Success)
    &&& (m.status is WaitingConfirmation || m.status is Running || m.status is Success
        || m.status is Error ==> m.pending_code is Some)
    &&& !(m.status is Loading)
}

/// The invariant of a session. Ids are positions. An operation is running
/// exactly while its snapshot or its script is in flight, so at most one
/// is. An operation has a snapshot set exactly when its script was started
/// at least once. The retry counter is within its bound.
pub open spec fn well_formed(s: SessionView) -> bool {
    &&& s.messages.len() <= usize::MAX
    &&& s.retry.attempt <= s.retry.max_attempts
    &&& match s.in_flight {
        InFlight::Free => true,
        InFlight::Snapshotting(i) => i < s.messages.len(),
        InFlight::Executing(i) => i < s.messages.len(),
        InFlight::Restoring(i) => i < s.messages.len(),
    }
    &&& forall|i: int| 0 <= i < s.messages.len() ==> #[trigger] message_ok(s, i)
}

/// A session without messages.
pub open spec fn empty_session(max_attempts: u32) -> SessionView {
    SessionView {
        messages: Seq::empty(),
        files: Seq::empty(),
        retry: RetryState { attempt: 0, max_attempts },
        in_flight: InFlight::Free,
    }
}

/// A plain message at position `id`.
pub open spec fn plain_message(id: usize, text: Seq<char>, is_user: bool) -> MessageView {
    MessageView {
        id,
        text,
        is_user,
        table: None,
        temp_id: None,
        status: StatusView::Idle,
        image: None,
        pending_code: None,
        backup_paths: None,
    }
}

/// The session after a plain message was added.
pub open spec fn after_push(s: SessionView, text: Seq<char>, is_user: bool) -> SessionView {
    SessionView {
        messages: s.messages.push(plain_message(s.messages.len() as usize, text, is_user)),
        ..s
    }
}

/// The session after the assistant proposed the script `code` with the
/// reply `text`: a new operation that waits for confirmation.
pub open spec fn after_propose(s: SessionView, text: Seq<char>, code: Seq<char>) -> SessionView {
    SessionView {
        messages: s.messages.push(
            MessageView {
                status: StatusView::WaitingConfirmation,
                pending_code: Some(code),
                ..plain_message(s.messages.len() as usize, text, false)
            },
        ),
        ..s
    }
}

/// The session once the operation `id` was started with the script `code`:
/// it is running, and its snapshot is in flight if it has none yet, its
/// script otherwise.
pub open spec fn started(s: SessionView, id: usize, code: Seq<char>) -> SessionView {
    let m = s.messages[id as int];
    SessionView {
        messages: s.messages.update(
            id as int,
            MessageView { status: StatusView::Running, pending_code: Some(code), ..m },
        ),
        in_flight: if m.backup_paths is None {
            InFlight::Snapshotting(id)
        } else {
            InFlight::Executing(id)
        },
        ..s
    }
}

/// What the caller does once the operation `id` was started.
pub open spec fn start_action(s: SessionView, id: usize, code: Seq<char>) -> ActionView {
    if s.messages[id as int].backup_paths is None {
        ActionView::Snapshot(s.files)
    } else {
        ActionView::Execute(code)
    }
}

/// Why a confirmation of `id` is refused, if it is.
pub open spec fn confirm_refusal(s: SessionView, id: usize) -> Option<EngineError> {
    if id >= s.messages.len() {
        Some(EngineError::UnknownOperation)
    } else if s.in_flight != InFlight::Free {
        Some(EngineError::Busy)
    } else {
        let m = s.messages[id as int];
        if (m.status is WaitingConfirmation || m.status is Error) && m.pending_code is Some {
            None
        } else {
            Some(EngineError::NotConfirmable)
        }
    }
}

/// The session after the user confirmed `id`: the retry counter is reset
/// and the operation started with the script it carries.
pub open spec fn after_confirm(s: SessionView, id: usize) -> SessionView {
    if confirm_refusal(s, id) is Some {
        s
    } else {
        started(
            SessionView {
                retry: RetryState { attempt: 0, max_attempts: s.retry.max_attempts },
                ..s
            },
            id,
            s.messages[id as int].pending_code->0,
        )
    }
}

/// What a confirmation of `id` returns.
pub open spec fn confirm_result(s: SessionView, id: usize) -> Result<ActionView, EngineError> {
    match confirm_refusal(s, id) {
        Some(e) => Err(e),
        None => Ok(start_action(s, id, s.messages[id as int].pending_code->0)),
    }
}

/// Why an automatic repair of `id` is refused, if it is.
pub open spec fn repair_refusal(s: SessionView, id: usize) -> Option<EngineError> {
    if id >= s.messages.len() {
        Some(EngineError::UnknownOperation)
    } else if s.in_flight != InFlight::Free {
        Some(EngineError::Busy)
    } else if s.messages[id as int].status is Error {
        None
    } else {
        Some(EngineError::NotConfirmable)
    }
}

/// The session after the failed operation `id` was started again with the
/// corrected script `code`. The retry counter is kept.
pub open spec fn after_repair(s: SessionView, id: usize, code: Seq<char>) -> SessionView {
    if repair_refusal(s, id) is Some {
        s
    } else {
        started(s, id, code)
    }
}

/// What an automatic repair of `id` returns.
pub open spec fn repair_result(s: SessionView, id: usize, code: Seq<char>) -> Result<
    ActionView,
    EngineError,
> {
    match repair_refusal(s, id) {
        Some(e) => Err(e),
        None => Ok(start_action(s, id, code)),
    }
}

/// The session is waiting for the snapshot of `id`.
pub open spec fn awaits_snapshot(s: SessionView, id: usize) -> bool {
    &&& id < s.messages.len()
    &&& s.in_flight == InFlight::Snapshotting(id)
    &&& s.messages[id as int].pending_code is Some
}

/// The log note of the files that could not be backed up: one line per
/// file, nothing where there is none.
pub open spec fn skipped_note(skipped: NamesView) -> Seq<char>
    decreases skipped.len(),
{
    if skipped.len() == 0 {
        Seq::empty()
    } else {
        skipped_note(skipped.drop_last()) + "\n⚠️ 未能备份，此文件无法撤销: "@ + skipped.last()
    }
}

/// The session after the snapshot of `id` was captured as `pairs`, without
/// the files `skipped`: the pairs are recorded unless the operation already
/// has a snapshot set, the skipped files are noted in the log, and the
/// script is in flight.
pub open spec fn after_snapshot(
    s: SessionView,
    id: usize,
    pairs: PairsView,
    skipped: NamesView,
) -> SessionView {
    if !awaits_snapshot(s, id) {
        s
    } else {
        let m = s.messages[id as int];
        SessionView {
            messages: s.messages.update(
                id as int,
                MessageView {
                    backup_paths: if m.backup_paths is Some {
                        m.backup_paths
                    } else {
                        Some(pairs)
                    },
                    text: m.text + skipped_note(skipped),
                    ..m
                },
            ),
            in_flight: InFlight::Executing(id),
            ..s
        }
    }
}

/// What the report of a snapshot returns: the script to run.
pub open spec fn snapshot_result(s: SessionView, id: usize) -> Result<Seq<char>, EngineError> {
    if !awaits_snapshot(s, id) {
        Err(EngineError::NotExpected)
    } else {
        Ok(s.messages[id as int].pending_code->0)
    }
}

/// The session is waiting for the outcome of the script of `id`.
pub open spec fn awaits_outcome(s: SessionView, id: usize) -> bool {
    &&& id < s.messages.len()
    &&& s.in_flight == InFlight::Executing(id)
    &&& s.messages[id as int].pending_code is Some
}

/// The log note of a successful run.
pub open spec fn result_note(output: Seq<char>) -> Seq<char> {
    "\n\n✨ 结果:\n"@ + output
}

/// The log note of a failed run.
pub open spec fn error_note(diagnostic: Seq<char>) -> Seq<char> {
    "\n\n❌ 错误:\n"@ + diagnostic
}

/// The session after the script of `id` ended with `outcome`. A success is
/// logged and resets the retry counter. A failure is logged with its
/// diagnostic and handed to the retry controller, which counts and notes a
/// repair or notes that the bound is reached.
pub open spec fn after_outcome(
    s: SessionView,
    id: usize,
    outcome: Result<Seq<char>, DiagnosticView>,
) -> SessionView {
    if !awaits_outcome(s, id) {
        s
    } else {
        let m = s.messages[id as int];
        match outcome {
            Ok(output) => SessionView {
                messages: s.messages.update(
                    id as int,
                    MessageView {
                        status: StatusView::Success,
                        text: m.text + result_note(output),
                        ..m
                    },
                ),
                retry: RetryState { attempt: 0, max_attempts: s.retry.max_attempts },
                in_flight: InFlight::Free,
                ..s
            },
            Err(diagnostic) => SessionView {
                messages: s.messages.update(
                    id as int,
                    MessageView {
                        status: StatusView::Error(diagnostic.text),
                        text: m.text + error_note(diagnostic.text) + s.retry.failure_note(),
                        ..m
                    },
                ),
                retry: s.retry.after_failure(),
                in_flight: InFlight::Free,
                ..s
            },
        }
    }
}

/// What the report of an outcome returns: nothing more to do after a
/// success, the retry controller's decision after a failure.
pub open spec fn outcome_result(
    s: SessionView,
    id: usize,
    outcome: Result<Seq<char>, DiagnosticView>,
) -> Result<Option<DecisionView>, EngineError> {
    if !awaits_outcome(s, id) {
        Err(EngineError::NotExpected)
    } else {
        match outcome {
            Ok(_) => Ok(None),
            Err(diagnostic) => Ok(
                Some(s.retry.decision(s.messages[id as int].pending_code->0, diagnostic.text)),
            ),
        }
    }
}

/// Why a cancellation of `id` is refused, if it is.
pub open spec fn cancel_refusal(s: SessionView, id: usize) -> Option<EngineError> {
    if id >= s.messages.len() {
        Some(EngineError::UnknownOperation)
    } else if s.messages[id as int].status is WaitingConfirmation {
        None
    } else {
        Some(EngineError::NotCancellable)
    }
}

/// The session after the user cancelled `id`: the operation is cancelled
/// and its script dropped.
pub open spec fn after_cancel(s: SessionView, id: usize) -> SessionView {
    if cancel_refusal(s, id) is Some {
        s
    } else {
        SessionView {
            messages: s.messages.update(
                id as int,
                MessageView {
                    status: StatusView::Cancelled,
                    pending_code: None,
                    ..s.messages[id as int]
                },
            ),
            ..s
        }
    }
}

/// Why a rollback of `id` is refused, if it is. An operation that is
/// already undone, or has no snapshot pair, has nothing to restore.
pub open spec fn undo_refusal(s: SessionView, id: usize) -> Option<EngineError> {
    if id >= s.messages.len() {
        Some(EngineError::UnknownOperation)
    } else {
        let m = s.messages[id as int];
        if m.status is Undone || m.backup_paths is None || m.backup_paths->0.len() == 0 {
            Some(EngineError::NothingToRestore)
        } else if !(m.status is Success) {
            Some(EngineError::NotUndoable)
        } else if s.in_flight != InFlight::Free {
            Some(EngineError::Busy)
        } else {
            None
        }
    }
}

/// The session after a rollback of `id` was accepted: the restore is in
/// flight, nothing else changed.
pub open spec fn after_begin_undo(s: SessionView, id: usize) -> SessionView {
    if undo_refusal(s, id) is Some {
        s
    } else {
        SessionView { in_flight: InFlight::Restoring(id), ..s }
    }
}

/// What the request of a rollback returns: the snapshot pairs to restore.
pub open spec fn begin_undo_result(s: SessionView, id: usize) -> Result<PairsView, EngineError> {
    match undo_refusal(s, id) {
        Some(e) => Err(e),
        None => Ok(s.messages[id as int].backup_paths->0),
    }
}

/// Why the report of a restore is refused, if it is.
pub open spec fn restore_refusal(s: SessionView, id: usize, outcomes: Seq<RestoreOutcomeView>)
    -> Option<EngineError> {
    if id >= s.messages.len() || s.in_flight != InFlight::Restoring(id)
        || s.messages[id as int].backup_paths is None {
        Some(EngineError::NotExpected)
    } else if outcomes.len() != s.messages[id as int].backup_paths->0.len() {
        Some(EngineError::OutcomeMismatch)
    } else {
        None
    }
}

/// The reports of a restore: one per snapshot pair, in order.
pub open spec fn restore_reports(pairs: PairsView, outcomes: Seq<RestoreOutcomeView>) -> Seq<
    FileReportView,
> {
    Seq::new(pairs.len(), |i: int| report_of(pairs[i].0, outcomes[i]))
}

/// The message of a rollback's target once the reports are logged; it is
/// undone where every file was restored and the operation had succeeded.
pub open spec fn restored_target(m: MessageView, reports: Seq<FileReportView>) -> MessageView {
    MessageView {
        text: m.text + undo_note(reports),
        status: if all_restored(reports) && m.status is Success {
            StatusView::Undone
        } else {
            m.status
        },
        ..m
    }
}

/// The session after the restore of the snapshot set of `id` ended with
/// `outcomes`. The reports are logged in either case. Where every file was
/// restored, the operation is undone and the later operations that
/// succeeded or are running are invalidated. Where a file failed, no
/// status changes.
pub open spec fn after_restore(s: SessionView, id: usize, outcomes: Seq<RestoreOutcomeView>)
    -> SessionView {
    if restore_refusal(s, id, outcomes) is Some {
        s
    } else {
        let m = s.messages[id as int];
        let reports = restore_reports(m.backup_paths->0, outcomes);
        let logged = s.messages.update(id as int, restored_target(m, reports));
        SessionView {
            messages: if all_restored(reports) {
                cascaded(logged, id)
            } else {
                logged
            },
            in_flight: InFlight::Free,
            ..s
        }
    }
}

/// What the report of a restore returns.
pub open spec fn restore_result(s: SessionView, id: usize, outcomes: Seq<RestoreOutcomeView>)
    -> Result<UndoReportView, UndoErrorView> {
    match restore_refusal(s, id, outcomes) {
        Some(e) => Err(UndoErrorView::Rejected(e)),
        None => {
            let m = s.messages[id as int];
            let reports = restore_reports(m.backup_paths->0, outcomes);
            if all_restored(reports) {
                Ok(
                    UndoReportView {
                        files: reports,
                        invalidated: invalidated_ids(
                            s.messages.update(id as int, restored_target(m, reports)),
                            id,
                        ),
                    },
                )
            } else {
                Err(UndoErrorView::RestoreFailed(reports))
            }
        },
    }
}

/// The log note of a file that entered the scope.
pub open spec fn file_received_note(name: Seq<char>) -> Seq<char> {
    "📄 收到文件: "@ + name
}

/// The session after the file `path`, shown as `name`, entered the scope.
/// A file that is already in scope changes nothing.
pub open spec fn after_add_file(s: SessionView, path: Seq<char>, name: Seq<char>) -> SessionView {
    if s.files.contains(path) {
        s
    } else {
        SessionView { files: s.files.push(path), ..after_push(s, file_received_note(name), false) }
    }
}

/// The session after the file `path` left the scope.
pub open spec fn after_remove_file(s: SessionView, path: Seq<char>) -> SessionView {
    SessionView { files: s.files.filter(|f: Seq<char>| f != path), ..s }
}

/// The session after every file left the scope.
pub open spec fn after_clear_files(s: SessionView) -> SessionView {
    SessionView { files: Seq::empty(), ..s }
}

} // verus!
