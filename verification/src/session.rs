//! The session: the operation records, the files in scope, the retry
//! counter and the work in flight, with the transitions of the engine.
//!
//! The engine decides and the caller acts. A confirmation answers with the
//! action to perform: capture a snapshot, or run a script. The caller
//! performs it and reports back, and the report answers with what follows.
//! A rollback works the same way: the request answers with the pairs to
//! restore, and the report of their restore completes or fails it.

use vstd::prelude::*;
use vstd::string::*;
use crate::classify::{outcome_view, Diagnostic};
use crate::laws::{
    lemma_begin_undo_is_step,
    lemma_cancel_is_step,
    lemma_confirm_is_step,
    lemma_files_is_step,
    lemma_outcome_is_step,
    lemma_propose_is_step,
    lemma_push_is_step,
    lemma_repair_is_step,
    lemma_restore_is_step,
    lemma_snapshot_is_step,
};
use crate::lifecycle::{
    after_add_file,
    after_begin_undo,
    after_cancel,
    after_clear_files,
    after_confirm,
    after_outcome,
    after_propose,
    after_push,
    after_remove_file,
    after_repair,
    after_restore,
    after_snapshot,
    begin_undo_result,
    cancel_refusal,
    confirm_result,
    empty_session,
    outcome_result,
    repair_result,
    restore_reports,
    restore_result,
    restored_target,
    session_step,
    skipped_note,
    snapshot_result,
    start_action,
    started,
    well_formed,
    ActionView,
    EngineError,
    InFlight,
    SessionView,
    UndoErrorView,
    UndoReportView,
};
use crate::models::{clone_opt, clone_pairs, ActionStatus, BackupPair, ChatMessage, PairsView};
use crate::restore::{
    all_restored,
    append_file_note,
    clone_names,
    has_name,
    lemma_filter_push,
    report_of,
    reports_view,
    undo_note,
    FileReport,
    RestoreOutcome,
};
use crate::retry::{DecisionView, RepairDecision, RetryState};
use crate::rollback::{cascade_invalidate, messages_view};
use crate::snapshot::display_name;
use crate::text::concat2;

verus! {

/// What the caller has to do next.
#[derive(Debug, PartialEq)]
pub enum Action {
    /// Capture a snapshot of these files, then call
    /// [`Session::snapshot_done`].
    Snapshot(Vec<String>),
    /// Run this script, then call [`Session::execution_done`].
    Execute(String),
}

impl View for Action {
    type V = ActionView;

    open spec fn view(&self) -> ActionView {
        match self {
            Action::Snapshot(files) => ActionView::Snapshot(files.deep_view()),
            Action::Execute(code) => ActionView::Execute(code@),
        }
    }
}

/// Mathematical value of the answer to a confirmation or a repair.
pub open spec fn action_view(answer: Result<Action, EngineError>) -> Result<
    ActionView,
    EngineError,
> {
    match answer {
        Ok(action) => Ok(action@),
        Err(e) => Err(e),
    }
}

/// Mathematical value of the answer to the report of a snapshot.
pub open spec fn code_view(answer: Result<String, EngineError>) -> Result<Seq<char>, EngineError> {
    match answer {
        Ok(code) => Ok(code@),
        Err(e) => Err(e),
    }
}

/// Mathematical value of the answer to the report of an outcome.
pub open spec fn decision_view(answer: Result<Option<RepairDecision>, EngineError>) -> Result<
    Option<DecisionView>,
    EngineError,
> {
    match answer {
        Ok(Some(decision)) => Ok(Some(decision@)),
        Ok(None) => Ok(None),
        Err(e) => Err(e),
    }
}

/// Mathematical value of the answer to the request of a rollback.
pub open spec fn pairs_view(answer: Result<Vec<BackupPair>, EngineError>) -> Result<
    PairsView,
    EngineError,
> {
    match answer {
        Ok(pairs) => Ok(pairs.deep_view()),
        Err(e) => Err(e),
    }
}

/// What a rollback did.
#[derive(Debug, PartialEq)]
pub struct UndoReport {
    /// One report per snapshot pair, in order.
    pub files: Vec<FileReport>,
    /// The ids of the later operations that the rollback invalidated.
    pub invalidated: Vec<usize>,
}

impl View for UndoReport {
    type V = UndoReportView;

    open spec fn view(&self) -> UndoReportView {
        UndoReportView { files: reports_view(self.files@), invalidated: self.invalidated@ }
    }
}

/// Why a rollback did not complete.
#[derive(Debug, PartialEq)]
pub enum UndoError {
    /// The engine refused the report.
    Rejected(EngineError),
    /// At least one file could not be restored. The reports say which files
    /// were restored and which failed; the restored ones stay restored.
    RestoreFailed(Vec<FileReport>),
}

impl View for UndoError {
    type V = UndoErrorView;

    open spec fn view(&self) -> UndoErrorView {
        match self {
            UndoError::Rejected(e) => UndoErrorView::Rejected(*e),
            UndoError::RestoreFailed(reports) => UndoErrorView::RestoreFailed(
                reports_view(reports@),
            ),
        }
    }
}

/// Mathematical value of the answer to the report of a restore.
pub open spec fn undo_view(answer: Result<UndoReport, UndoError>) -> Result<
    UndoReportView,
    UndoErrorView,
> {
    match answer {
        Ok(report) => Ok(report@),
        Err(e) => Err(e@),
    }
}

/// A session of the engine.
pub struct Session {
    messages: Vec<ChatMessage>,
    files: Vec<String>,
    retry: RetryState,
    in_flight: InFlight,
}

impl View for Session {
    type V = SessionView;

    closed spec fn view(&self) -> SessionView {
        SessionView {
            messages: messages_view(self.messages@),
            files: self.files.deep_view(),
            retry: self.retry,
            in_flight: self.in_flight,
        }
    }
}

impl Session {
    /// A session without messages and files, whose chains of failures get
    /// at most `max_attempts` automatic repairs each.
    pub fn new(max_attempts: u32) -> (session: Self)
        ensures
            session@ == empty_session(max_attempts),
            well_formed(session@),
    {
        let session = Session {
            messages: Vec::new(),
            files: Vec::new(),
            retry: RetryState::new(max_attempts),
            in_flight: InFlight::Free,
        };
        assert(session@.messages =~= Seq::empty());
        assert(session@.files =~= Seq::empty());
        session
    }

    /// The messages, in the order of their ids.
    pub fn messages(&self) -> (messages: &Vec<ChatMessage>)
        ensures
            messages_view(messages@) == self@.messages,
    {
        &self.messages
    }

    /// The paths of the files in scope.
    pub fn files(&self) -> (files: &Vec<String>)
        ensures
            files.deep_view() == self@.files,
    {
        &self.files
    }

    /// The retry counter.
    pub fn retry(&self) -> (retry: RetryState)
        ensures
            retry == self@.retry,
    {
        self.retry
    }

    /// The work in flight.
    pub fn in_flight(&self) -> (in_flight: InFlight)
        ensures
            in_flight == self@.in_flight,
    {
        self.in_flight
    }

    /// Adds a plain message and returns its id.
    pub fn push_message(&mut self, text: &str, is_user: bool) -> (id: usize)
        ensures
            id == old(self)@.messages.len(),
            final(self)@ == after_push(old(self)@, text@, is_user),
            well_formed(old(self)@) ==> well_formed(final(self)@),
            well_formed(old(self)@) ==> session_step(old(self)@, final(self)@),
    {
        let id = self.messages.len();
        self.messages.push(ChatMessage::new(id, text, is_user));
        let after = self.messages.len();
        proof {
            assert(self@.messages =~= after_push(old(self)@, text@, is_user).messages);
            if well_formed(old(self)@) {
                lemma_push_is_step(old(self)@, text@, is_user);
            }
        }
        id
    }

    /// Adds the operation that the assistant proposed: the reply `text` and
    /// the script `code`, which waits for the user's confirmation. Returns
    /// its id.
    pub fn propose(&mut self, text: &str, code: &str) -> (id: usize)
        ensures
            id == old(self)@.messages.len(),
            final(self)@ == after_propose(old(self)@, text@, code@),
            well_formed(old(self)@) ==> well_formed(final(self)@),
            well_formed(old(self)@) ==> session_step(old(self)@, final(self)@),
    {
        let id = self.messages.len();
        let mut message = ChatMessage::new(id, text, false);
        message.status = ActionStatus::WaitingConfirmation;
        message.pending_code = Some(code.to_owned());
        self.messages.push(message);
        let after = self.messages.len();
        proof {
            assert(self@.messages =~= after_propose(old(self)@, text@, code@).messages);
            if well_formed(old(self)@) {
                lemma_propose_is_step(old(self)@, text@, code@);
            }
        }
        id
    }

    /// Starts the operation `id` with the script `code`.
    fn start(&mut self, id: usize, code: String) -> (action: Action)
        requires
            id < old(self)@.messages.len(),
        ensures
            final(self)@ == started(old(self)@, id, code@),
            action@ == start_action(old(self)@, id, code@),
    {
        let needs_snapshot = self.messages[id].backup_paths.is_none();
        let message = &mut self.messages[id];
        message.status = ActionStatus::Running;
        message.pending_code = Some(code.clone());
        let action = if needs_snapshot {
            self.in_flight = InFlight::Snapshotting(id);
            Action::Snapshot(clone_names(&self.files))
        } else {
            self.in_flight = InFlight::Executing(id);
            Action::Execute(code)
        };
        assert(self@.messages =~= started(old(self)@, id, code@).messages);
        action
    }

    /// The user confirms the operation `id`, which waits for confirmation
    /// or failed. The retry counter is reset and the operation is running.
    /// The answer is what to do next: capture a snapshot where the
    /// operation has none, run the script where it has one. A request for
    /// an unknown id, while other work is in flight, or for a message
    /// without a script in one of these two states is refused and changes
    /// nothing.
    pub fn confirm(&mut self, id: usize) -> (answer: Result<Action, EngineError>)
        ensures
            final(self)@ == after_confirm(old(self)@, id),
            action_view(answer) == confirm_result(old(self)@, id),
            well_formed(old(self)@) ==> well_formed(final(self)@),
            well_formed(old(self)@) ==> session_step(old(self)@, final(self)@),
    {
        proof {
            if well_formed(self@) {
                lemma_confirm_is_step(self@, id);
            }
        }
        if id >= self.messages.len() {
            return Err(EngineError::UnknownOperation);
        }
        if self.in_flight != InFlight::Free {
            return Err(EngineError::Busy);
        }
        let ready = match self.messages[id].status {
            ActionStatus::WaitingConfirmation => true,
            ActionStatus::Error(_) => true,
            _ => false,
        };
        if !ready {
            return Err(EngineError::NotConfirmable);
        }
        let code = match &self.messages[id].pending_code {
            Some(code) => code.clone(),
            None => {
                return Err(EngineError::NotConfirmable);
            },
        };
        self.retry.reset();
        Ok(self.start(id, code))
    }

    /// Starts the failed operation `id` again with the corrected script
    /// `code`, without asking the user. The retry counter is kept. The
    /// request is refused, and changes nothing, for an unknown id, while
    /// other work is in flight, and for an operation that has not failed.
    pub fn run_repair(&mut self, id: usize, code: &str) -> (answer: Result<Action, EngineError>)
        ensures
            final(self)@ == after_repair(old(self)@, id, code@),
            action_view(answer) == repair_result(old(self)@, id, code@),
            well_formed(old(self)@) ==> well_formed(final(self)@),
            well_formed(old(self)@) ==> session_step(old(self)@, final(self)@),
    {
        proof {
            if well_formed(self@) {
                lemma_repair_is_step(self@, id, code@);
            }
        }
        if id >= self.messages.len() {
            return Err(EngineError::UnknownOperation);
        }
        if self.in_flight != InFlight::Free {
            return Err(EngineError::Busy);
        }
        let failed = match self.messages[id].status {
            ActionStatus::Error(_) => true,
            _ => false,
        };
        if !failed {
            return Err(EngineError::NotConfirmable);
        }
        Ok(self.start(id, code.to_owned()))
    }

    /// The user cancels the operation `id`, which must still wait for
    /// confirmation: it is cancelled and its script dropped. Any other
    /// request is refused and changes nothing.
    pub fn cancel(&mut self, id: usize) -> (answer: Result<(), EngineError>)
        ensures
            final(self)@ == after_cancel(old(self)@, id),
            match answer {
                Ok(_) => cancel_refusal(old(self)@, id) is None,
                Err(e) => cancel_refusal(old(self)@, id) == Some(e),
            },
            well_formed(old(self)@) ==> well_formed(final(self)@),
            well_formed(old(self)@) ==> session_step(old(self)@, final(self)@),
    {
        proof {
            if well_formed(self@) {
                lemma_cancel_is_step(self@, id);
            }
        }
        if id >= self.messages.len() {
            return Err(EngineError::UnknownOperation);
        }
        let waiting = match self.messages[id].status {
            ActionStatus::WaitingConfirmation => true,
            _ => false,
        };
        if !waiting {
            return Err(EngineError::NotCancellable);
        }
        let message = &mut self.messages[id];
        message.status = ActionStatus::Cancelled;
        message.pending_code = None;
        assert(self@.messages =~= after_cancel(old(self)@, id).messages);
        Ok(())
    }

    /// Appends the log note of the files that could not be backed up.
    fn append_skipped_note(log: &mut String, skipped: &Vec<String>)
        ensures
            final(log)@ == old(log)@ + skipped_note(skipped.deep_view()),
    {
        let ghost all = skipped.deep_view();
        let mut i: usize = 0;
        assert(all.take(0) =~= Seq::empty());
        assert(log@ =~= old(log)@ + skipped_note(all.take(0)));
        while i < skipped.len()
            invariant
                i <= skipped.len(),
                all == skipped.deep_view(),
                log@ == old(log)@ + skipped_note(all.take(i as int)),
            decreases skipped.len() - i,
        {
            log.append("\n⚠️ 未能备份，此文件无法撤销: ");
            log.append(skipped[i].as_str());
            proof {
                let next = all.take(i + 1);
                assert(next.drop_last() =~= all.take(i as int));
                assert(next.last() == skipped[i as int]@);
                assert(log@ =~= old(log)@ + skipped_note(next));
            }
            i += 1;
        }
        assert(all.take(i as int) =~= all);
    }

    /// Reports that the snapshot for `id` was captured as `pairs`, which
    /// may be empty, and that the files `skipped` could not be backed up.
    /// The pairs become the operation's snapshot set, unless it already has
    /// one, which is never overwritten; each skipped file is noted in the
    /// log, and never stops the run. The answer is the script to run. A
    /// report that the session does not wait for is refused and changes
    /// nothing.
    pub fn snapshot_done(
        &mut self,
        id: usize,
        pairs: Vec<BackupPair>,
        skipped: &Vec<String>,
    ) -> (answer: Result<String, EngineError>)
        ensures
            final(self)@ == after_snapshot(
                old(self)@,
                id,
                pairs.deep_view(),
                skipped.deep_view(),
            ),
            code_view(answer) == snapshot_result(old(self)@, id),
            well_formed(old(self)@) ==> well_formed(final(self)@),
            well_formed(old(self)@) ==> session_step(old(self)@, final(self)@),
    {
        proof {
            if well_formed(self@) {
                lemma_snapshot_is_step(self@, id, pairs.deep_view(), skipped.deep_view());
            }
        }
        if id >= self.messages.len() || self.in_flight != InFlight::Snapshotting(id) {
            return Err(EngineError::NotExpected);
        }
        let code = match &self.messages[id].pending_code {
            Some(code) => code.clone(),
            None => {
                return Err(EngineError::NotExpected);
            },
        };
        let message = &mut self.messages[id];
        if message.backup_paths.is_none() {
            message.backup_paths = Some(pairs);
        }
        Self::append_skipped_note(&mut message.text, skipped);
        self.in_flight = InFlight::Executing(id);
        assert(self@.messages =~= after_snapshot(
            old(self)@,
            id,
            pairs.deep_view(),
            skipped.deep_view(),
        ).messages);
        Ok(code)
    }

    /// Reports how the script of `id` ended, as the classifier judged it.
    /// A success is logged with its output, resets the retry counter and
    /// needs nothing more. A failure is logged with its diagnostic and
    /// handed to the retry controller; the answer is its decision: the
    /// prompt for a corrected script, or that the bound is reached. A
    /// report that the session does not wait for is refused and changes
    /// nothing.
    pub fn execution_done(&mut self, id: usize, outcome: Result<String, Diagnostic>) -> (answer:
        Result<Option<RepairDecision>, EngineError>)
        ensures
            final(self)@ == after_outcome(old(self)@, id, outcome_view(outcome)),
            decision_view(answer) == outcome_result(old(self)@, id, outcome_view(outcome)),
            well_formed(old(self)@) ==> well_formed(final(self)@),
            well_formed(old(self)@) ==> session_step(old(self)@, final(self)@),
    {
        proof {
            if well_formed(self@) {
                lemma_outcome_is_step(self@, id, outcome_view(outcome));
            }
        }
        if id >= self.messages.len() || self.in_flight != InFlight::Executing(id) {
            return Err(EngineError::NotExpected);
        }
        let code = match &self.messages[id].pending_code {
            Some(code) => code.clone(),
            None => {
                return Err(EngineError::NotExpected);
            },
        };
        let ghost expected = after_outcome(old(self)@, id, outcome_view(outcome));
        let message = &mut self.messages[id];
        let answer = match outcome {
            Ok(output) => {
                message.text.append("\n\n✨ 结果:\n");
                message.text.append(output.as_str());
                message.status = ActionStatus::Success;
                self.retry.reset();
                None
            },
            Err(diagnostic) => {
                message.text.append("\n\n❌ 错误:\n");
                message.text.append(diagnostic.text.as_str());
                let decision = self.retry.on_failure(
                    &mut message.text,
                    code.as_str(),
                    diagnostic.text.as_str(),
                );
                message.status = ActionStatus::Error(diagnostic.text);
                Some(decision)
            },
        };
        self.in_flight = InFlight::Free;
        proof {
            assert(self.messages[id as int]@.text =~= expected.messages[id as int].text);
            assert(self@.messages =~= expected.messages);
        }
        Ok(answer)
    }

    /// Asks to roll back the operation `id`. Where it succeeded and has
    /// snapshot pairs, and no other work is in flight, the restore is in
    /// flight and the answer is the pairs to restore. An operation that is
    /// already undone, or has no pair, has nothing to restore. A refused
    /// request changes nothing.
    pub fn begin_undo(&mut self, id: usize) -> (answer: Result<Vec<BackupPair>, EngineError>)
        ensures
            final(self)@ == after_begin_undo(old(self)@, id),
            pairs_view(answer) == begin_undo_result(old(self)@, id),
            well_formed(old(self)@) ==> well_formed(final(self)@),
            well_formed(old(self)@) ==> session_step(old(self)@, final(self)@),
    {
        proof {
            if well_formed(self@) {
                lemma_begin_undo_is_step(self@, id);
            }
        }
        if id >= self.messages.len() {
            return Err(EngineError::UnknownOperation);
        }
        let undone = match self.messages[id].status {
            ActionStatus::Undone => true,
            _ => false,
        };
        if undone {
            return Err(EngineError::NothingToRestore);
        }
        let pairs = match &self.messages[id].backup_paths {
            Some(pairs) => clone_pairs(pairs),
            None => {
                return Err(EngineError::NothingToRestore);
            },
        };
        if pairs.len() == 0 {
            return Err(EngineError::NothingToRestore);
        }
        let succeeded = match self.messages[id].status {
            ActionStatus::Success => true,
            _ => false,
        };
        if !succeeded {
            return Err(EngineError::NotUndoable);
        }
        if self.in_flight != InFlight::Free {
            return Err(EngineError::Busy);
        }
        self.in_flight = InFlight::Restoring(id);
        Ok(pairs)
    }

    /// Builds the reports of a restore: one per pair, in order.
    fn build_reports(pairs: &Vec<BackupPair>, outcomes: &Vec<RestoreOutcome>) -> (reports: Vec<
        FileReport,
    >)
        requires
            outcomes.len() == pairs.len(),
        ensures
            reports_view(reports@) == restore_reports(
                pairs.deep_view(),
                outcomes@.map_values(|o: RestoreOutcome| o@),
            ),
    {
        let mut reports: Vec<FileReport> = Vec::new();
        let mut i: usize = 0;
        while i < pairs.len()
            invariant
                i <= pairs.len(),
                outcomes.len() == pairs.len(),
                reports.len() == i,
                forall|k: int|
                    0 <= k < i ==> (#[trigger] reports[k])@ == report_of(
                        pairs[k].0@,
                        outcomes[k]@,
                    ),
            decreases pairs.len() - i,
        {
            reports.push(
                FileReport {
                    original: pairs[i].0.clone(),
                    method: outcomes[i].method,
                    flagged: clone_names(&outcomes[i].flagged),
                    error: clone_opt(&outcomes[i].error),
                },
            );
            i += 1;
        }
        assert(reports_view(reports@) =~= restore_reports(
            pairs.deep_view(),
            outcomes@.map_values(|o: RestoreOutcome| o@),
        ));
        reports
    }

    /// Whether every file of the reports was restored.
    fn every_file_restored(reports: &Vec<FileReport>) -> (all: bool)
        ensures
            all == all_restored(reports_view(reports@)),
    {
        let mut i: usize = 0;
        while i < reports.len()
            invariant
                i <= reports.len(),
                forall|k: int| 0 <= k < i ==> (#[trigger] reports_view(reports@)[k]).error is None,
            decreases reports.len() - i,
        {
            if reports[i].error.is_some() {
                assert(reports_view(reports@)[i as int].error is Some);
                return false;
            }
            i += 1;
        }
        true
    }

    /// Appends the log note of a rollback.
    fn append_undo_note(log: &mut String, reports: &Vec<FileReport>)
        ensures
            final(log)@ == old(log)@ + undo_note(reports_view(reports@)),
    {
        let ghost all = reports_view(reports@);
        log.append("\n");
        let mut i: usize = 0;
        assert(all.take(0) =~= Seq::empty());
        assert(log@ =~= old(log)@ + undo_note(all.take(0)));
        while i < reports.len()
            invariant
                i <= reports.len(),
                all == reports_view(reports@),
                log@ == old(log)@ + undo_note(all.take(i as int)),
            decreases reports.len() - i,
        {
            append_file_note(log, &reports[i]);
            proof {
                let next = all.take(i + 1);
                assert(next.drop_last() =~= all.take(i as int));
                assert(next.last() == reports[i as int]@);
                assert(log@ =~= old(log)@ + undo_note(next));
            }
            i += 1;
        }
        assert(all.take(i as int) =~= all);
    }

    /// Reports how the restore of the snapshot set of `id` ended: one
    /// outcome per pair, in order. The reports are logged in either case.
    /// Where every file was restored, the operation is undone and every
    /// later operation that succeeded or is running is invalidated; the
    /// answer lists the reports and the invalidated ids. Where a file
    /// failed, no status changes, what was restored stays restored, and
    /// the answer is the failure with the reports. A report that the
    /// session does not wait for, or with another number of outcomes than
    /// pairs, is refused and changes nothing.
    pub fn finish_undo(&mut self, id: usize, outcomes: Vec<RestoreOutcome>) -> (answer: Result<
        UndoReport,
        UndoError,
    >)
        ensures
            final(self)@ == after_restore(
                old(self)@,
                id,
                outcomes@.map_values(|o: RestoreOutcome| o@),
            ),
            undo_view(answer) == restore_result(
                old(self)@,
                id,
                outcomes@.map_values(|o: RestoreOutcome| o@),
            ),
            well_formed(old(self)@) ==> well_formed(final(self)@),
            well_formed(old(self)@) ==> session_step(old(self)@, final(self)@),
    {
        let ghost results = outcomes@.map_values(|o: RestoreOutcome| o@);
        proof {
            if well_formed(self@) {
                lemma_restore_is_step(self@, id, results);
            }
        }
        if id >= self.messages.len() || self.in_flight != InFlight::Restoring(id) {
            return Err(UndoError::Rejected(EngineError::NotExpected));
        }
        let reports = match &self.messages[id].backup_paths {
            Some(pairs) => {
                if outcomes.len() != pairs.len() {
                    return Err(UndoError::Rejected(EngineError::OutcomeMismatch));
                }
                Self::build_reports(pairs, &outcomes)
            },
            None => {
                return Err(UndoError::Rejected(EngineError::NotExpected));
            },
        };
        let complete = Self::every_file_restored(&reports);
        let ghost expected = after_restore(old(self)@, id, results);
        let ghost target = restored_target(old(self)@.messages[id as int], reports_view(reports@));
        let message = &mut self.messages[id];
        Self::append_undo_note(&mut message.text, &reports);
        let succeeded = match message.status {
            ActionStatus::Success => true,
            _ => false,
        };
        if complete && succeeded {
            message.status = ActionStatus::Undone;
        }
        self.in_flight = InFlight::Free;
        proof {
            assert(self.messages[id as int]@ == target);
            assert(messages_view(self.messages@) =~= old(self)@.messages.update(id as int, target));
        }
        if complete {
            let invalidated = cascade_invalidate(&mut self.messages, id);
            Ok(UndoReport { files: reports, invalidated })
        } else {
            Err(UndoError::RestoreFailed(reports))
        }
    }

    /// Whether the file `path` is in scope.
    pub fn has_file(&self, path: &String) -> (found: bool)
        ensures
            found == self@.files.contains(path@),
    {
        has_name(&self.files, path)
    }

    /// Puts the file `path` in scope and notes it in a message under the
    /// name `name`. A file that is already in scope changes nothing. Returns
    /// whether the file was added.
    pub fn add_named_file(&mut self, path: String, name: &str) -> (added: bool)
        ensures
            added == !old(self)@.files.contains(path@),
            final(self)@ == after_add_file(old(self)@, path@, name@),
            well_formed(old(self)@) ==> well_formed(final(self)@),
            well_formed(old(self)@) ==> session_step(old(self)@, final(self)@),
    {
        if has_name(&self.files, &path) {
            proof {
                if well_formed(self@) {
                    lemma_files_is_step(self@, self@);
                }
            }
            return false;
        }
        let note = concat2("📄 收到文件: ", name);
        let ghost before = self@;
        self.push_message(note.as_str(), false);
        let ghost pushed = self@;
        self.files.push(path);
        proof {
            assert(self@.files =~= old(self)@.files.push(path@));
            if well_formed(before) {
                lemma_files_is_step(pushed, self@);
            }
        }
        true
    }

    /// Puts the file `path` in scope, under the name of its last path
    /// component. Returns whether the file was added; one that is already
    /// in scope changes nothing.
    pub fn add_file(&mut self, path: String) -> (added: bool)
        ensures
            added == !old(self)@.files.contains(path@),
            exists|name: Seq<char>| final(self)@ == after_add_file(old(self)@, path@, name),
            well_formed(old(self)@) ==> well_formed(final(self)@),
            well_formed(old(self)@) ==> session_step(old(self)@, final(self)@),
    {
        let name = display_name(path.as_str());
        self.add_named_file(path, name.as_str())
    }

    /// Takes the file `path` out of scope.
    pub fn remove_file(&mut self, path: &String)
        ensures
            final(self)@ == after_remove_file(old(self)@, path@),
            well_formed(old(self)@) ==> well_formed(final(self)@),
            well_formed(old(self)@) ==> session_step(old(self)@, final(self)@),
    {
        let ghost pred = |f: Seq<char>| f != path@;
        let ghost all = self.files.deep_view();
        let mut kept: Vec<String> = Vec::new();
        let mut i: usize = 0;
        proof {
            reveal(Seq::filter);
            assert(all.take(0) =~= Seq::empty());
            assert(kept.deep_view() =~= Seq::empty());
        }
        while i < self.files.len()
            invariant
                i <= self.files.len(),
                *self == *old(self),
                all == self.files.deep_view(),
                pred == (|f: Seq<char>| f != path@),
                kept.deep_view() == all.take(i as int).filter(pred),
            decreases self.files.len() - i,
        {
            let ghost before = kept.deep_view();
            if self.files[i] != *path {
                kept.push(self.files[i].clone());
                assert(kept.deep_view() =~= before.push(self.files[i as int]@));
            }
            proof {
                lemma_filter_push(all.take(i as int), self.files[i as int]@, pred);
                assert(all.take(i + 1) =~= all.take(i as int).push(self.files[i as int]@));
            }
            i += 1;
        }
        assert(all.take(i as int) =~= all);
        self.files = kept;
        proof {
            if well_formed(old(self)@) {
                lemma_files_is_step(old(self)@, self@);
            }
        }
    }

    /// Takes every file out of scope.
    pub fn clear_files(&mut self)
        ensures
            final(self)@ == after_clear_files(old(self)@),
            well_formed(old(self)@) ==> well_formed(final(self)@),
            well_formed(old(self)@) ==> session_step(old(self)@, final(self)@),
    {
        self.files = Vec::new();
        proof {
            assert(self@.files =~= Seq::empty());
            if well_formed(old(self)@) {
                lemma_files_is_step(old(self)@, self@);
            }
        }
    }
}

} // verus!
