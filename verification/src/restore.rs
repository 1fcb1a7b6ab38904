//! How one file is restored from its backup.
//!
//! A file that a live session holds open is restored by merging the backup
//! into the session; any other file is restored by copying the backup over
//! it. The merge is authoritative for every sub-unit of the backup and never
//! deletes a sub-unit that the backup lacks: such a sub-unit is flagged for
//! the user's attention and left as it is.

use vstd::prelude::*;
use vstd::string::*;

verus! {

/// Mathematical value of a list of names.
pub type NamesView = Seq<Seq<char>>;

/// What a merge does to the sub-units of a live session.
#[derive(Debug, PartialEq)]
pub struct MergePlan {
    /// Sub-units of the backup that the session has: overwritten from the
    /// backup.
    pub overwrite: Vec<String>,
    /// Sub-units of the backup that the session lacks: created again from the
    /// backup.
    pub create: Vec<String>,
    /// Sub-units of the session that the backup lacks: kept and flagged.
    pub flagged: Vec<String>,
}

/// Mathematical value of a [`MergePlan`].
pub struct MergePlanView {
    pub overwrite: NamesView,
    pub create: NamesView,
    pub flagged: NamesView,
}

impl View for MergePlan {
    type V = MergePlanView;

    open spec fn view(&self) -> MergePlanView {
        MergePlanView {
            overwrite: self.overwrite.deep_view(),
            create: self.create.deep_view(),
            flagged: self.flagged.deep_view(),
        }
    }
}

/// The names of `from` that `other` holds (`present`) or lacks (`!present`),
/// in the order of `from`.
pub open spec fn select_names(from: NamesView, other: NamesView, present: bool) -> NamesView {
    from.filter(|name: Seq<char>| other.contains(name) == present)
}

/// The plan that merges a backup with sub-units `backup` into a session with
/// sub-units `live`.
pub open spec fn merge_plan_of(live: NamesView, backup: NamesView) -> MergePlanView {
    MergePlanView {
        overwrite: select_names(backup, live, true),
        create: select_names(backup, live, false),
        flagged: select_names(live, backup, false),
    }
}

/// Copies a list of names.
pub fn clone_names(names: &Vec<String>) -> (copy: Vec<String>)
    ensures
        copy.deep_view() == names.deep_view(),
{
    let mut copy: Vec<String> = Vec::new();
    let mut i: usize = 0;
    while i < names.len()
        invariant
            i <= names.len(),
            copy.len() == i,
            forall|k: int| 0 <= k < i ==> copy[k]@ == names[k]@,
        decreases names.len() - i,
    {
        copy.push(names[i].clone());
        i += 1;
    }
    assert(copy.deep_view() =~= names.deep_view());
    copy
}

/// Whether `names` holds `name`.
pub fn has_name(names: &Vec<String>, name: &String) -> (found: bool)
    ensures
        found == names.deep_view().contains(name@),
{
    let mut i: usize = 0;
    while i < names.len()
        invariant
            i <= names.len(),
            forall|k: int| 0 <= k < i ==> names.deep_view()[k] != name@,
        decreases names.len() - i,
    {
        if names[i] == *name {
            assert(names.deep_view()[i as int] == name@);
            return true;
        }
        i += 1;
    }
    false
}

/// Filtering a sequence extended by one element.
pub proof fn lemma_filter_push<A>(s: Seq<A>, last: A, pred: spec_fn(A) -> bool)
    ensures
        s.push(last).filter(pred) == if pred(last) {
            s.filter(pred).push(last)
        } else {
            s.filter(pred)
        },
{
    reveal(Seq::filter);
    assert(s.push(last).drop_last() =~= s);
}

/// The names of `from` that `other` holds, or lacks, in the order of `from`.
pub fn select(from: &Vec<String>, other: &Vec<String>, present: bool) -> (chosen: Vec<String>)
    ensures
        chosen.deep_view() == select_names(from.deep_view(), other.deep_view(), present),
{
    let ghost pred = |name: Seq<char>| other.deep_view().contains(name) == present;
    let mut chosen: Vec<String> = Vec::new();
    let mut i: usize = 0;
    proof {
        reveal(Seq::filter);
        assert(from.deep_view().take(0) =~= Seq::empty());
        assert(chosen.deep_view() =~= Seq::empty());
    }
    while i < from.len()
        invariant
            i <= from.len(),
            pred == (|name: Seq<char>| other.deep_view().contains(name) == present),
            chosen.deep_view() == from.deep_view().take(i as int).filter(pred),
        decreases from.len() - i,
    {
        let ghost before = chosen.deep_view();
        let found = has_name(other, &from[i]);
        if found == present {
            chosen.push(from[i].clone());
            assert(chosen.deep_view() =~= before.push(from[i as int]@));
        }
        proof {
            lemma_filter_push(from.deep_view().take(i as int), from[i as int]@, pred);
            assert(from.deep_view().take(i + 1) =~= from.deep_view().take(i as int).push(
                from[i as int]@,
            ));
        }
        i += 1;
    }
    assert(from.deep_view().take(i as int) =~= from.deep_view());
    chosen
}

/// Plans the merge of a backup into a live session from the names of their
/// sub-units.
pub fn merge_plan(live: &Vec<String>, backup: &Vec<String>) -> (plan: MergePlan)
    ensures
        plan@ == merge_plan_of(live.deep_view(), backup.deep_view()),
{
    MergePlan {
        overwrite: select(backup, live, true),
        create: select(backup, live, false),
        flagged: select(live, backup, false),
    }
}

/// The contents of a document: the data of each sub-unit, by name.
pub type Document = Map<Seq<char>, Seq<char>>;

/// The document that a session holds after `plan` was carried out with the
/// contents of `backup`: each sub-unit that the plan overwrites or creates
/// has the data of the backup, and every other sub-unit is as it was.
pub open spec fn merged_document(live: Document, backup: Document, plan: MergePlanView)
    -> Document {
    Map::new(
        |name: Seq<char>|
            live.dom().contains(name) || plan.overwrite.contains(name) || plan.create.contains(
                name,
            ),
        |name: Seq<char>|
            if plan.overwrite.contains(name) || plan.create.contains(name) {
                backup[name]
            } else {
                live[name]
            },
    )
}

/// A sequence of names lists exactly the sub-units of a document.
pub open spec fn lists_units(names: NamesView, document: Document) -> bool {
    forall|name: Seq<char>| names.contains(name) <==> document.dom().contains(name)
}

/// Membership in a selection.
pub proof fn lemma_select_contains(
    from: NamesView,
    other: NamesView,
    present: bool,
    name: Seq<char>,
)
    ensures
        select_names(from, other, present).contains(name) <==> from.contains(name) && (
        other.contains(name) == present),
{
    let pred = |n: Seq<char>| other.contains(n) == present;
    let chosen = from.filter(pred);
    if chosen.contains(name) {
        let i = choose|i: int| 0 <= i < chosen.len() && chosen[i] == name;
        from.lemma_filter_pred(pred, i);
        from.lemma_filter_contains_rev(pred, name);
    }
    if from.contains(name) && pred(name) {
        let i = choose|i: int| 0 <= i < from.len() && from[i] == name;
        from.lemma_filter_contains(pred, i);
    }
}

/// Safe restore: a merge deletes nothing. Every sub-unit of the session is
/// still there afterwards; one that the backup lacks keeps its data and is
/// flagged, and is neither overwritten nor created; every sub-unit of the
/// backup is there with the data of the backup.
pub proof fn lemma_merge_is_safe(
    live_names: NamesView,
    backup_names: NamesView,
    live: Document,
    backup: Document,
    name: Seq<char>,
)
    requires
        lists_units(live_names, live),
        lists_units(backup_names, backup),
    ensures
        ({
            let plan = merge_plan_of(live_names, backup_names);
            let merged = merged_document(live, backup, plan);
            &&& live.dom().contains(name) ==> merged.dom().contains(name)
            &&& live.dom().contains(name) && !backup.dom().contains(name) ==> {
                &&& merged[name] == live[name]
                &&& plan.flagged.contains(name)
                &&& !plan.overwrite.contains(name)
                &&& !plan.create.contains(name)
            }
            &&& backup.dom().contains(name) ==> {
                &&& merged.dom().contains(name)
                &&& merged[name] == backup[name]
                &&& !plan.flagged.contains(name)
            }
            &&& merged.dom().contains(name) ==> live.dom().contains(name)
                || backup.dom().contains(name)
        }),
{
    lemma_select_contains(backup_names, live_names, true, name);
    lemma_select_contains(backup_names, live_names, false, name);
    lemma_select_contains(live_names, backup_names, false, name);
}

/// How a file was, or is to be, restored.
#[derive(Clone, Copy, Debug, PartialEq, Eq, Structural)]
pub enum RestoreMethod {
    /// The backup is merged into the live session that holds the file.
    LiveMerge,
    /// The backup is copied over the file on disk.
    DiskCopy,
}

/// What to do to restore one file.
#[derive(Debug, PartialEq)]
pub enum RestorePlan {
    /// Merge the backup into the live session as the plan says.
    Merge(MergePlan),
    /// No live session holds the file: copy the backup over it.
    Copy,
}

/// Mathematical value of a [`RestorePlan`].
pub enum RestorePlanView {
    Merge(MergePlanView),
    Copy,
}

impl View for RestorePlan {
    type V = RestorePlanView;

    open spec fn view(&self) -> RestorePlanView {
        match self {
            RestorePlan::Merge(plan) => RestorePlanView::Merge(plan@),
            RestorePlan::Copy => RestorePlanView::Copy,
        }
    }
}

/// The plan for a file, from what a probe for a live session found: the
/// sub-units of the session that holds the file, if there is one.
pub open spec fn restore_plan_of(live: Option<NamesView>, backup: NamesView) -> RestorePlanView {
    match live {
        Some(units) => RestorePlanView::Merge(merge_plan_of(units, backup)),
        None => RestorePlanView::Copy,
    }
}

/// Chooses how to restore one file: a merge where a live session holds it,
/// a copy where none does.
pub fn plan_restore(live: &Option<Vec<String>>, backup: &Vec<String>) -> (plan: RestorePlan)
    ensures
        plan@ == restore_plan_of(live.deep_view(), backup.deep_view()),
{
    match live {
        Some(units) => RestorePlan::Merge(merge_plan(units, backup)),
        None => RestorePlan::Copy,
    }
}

/// How the restore of one file ended.
#[derive(Debug, PartialEq)]
pub struct RestoreOutcome {
    pub method: RestoreMethod,
    /// Sub-units that were kept although the backup lacks them.
    pub flagged: Vec<String>,
    /// The bridge's error, if the restore failed.
    pub error: Option<String>,
}

/// Mathematical value of a [`RestoreOutcome`].
pub struct RestoreOutcomeView {
    pub method: RestoreMethod,
    pub flagged: NamesView,
    pub error: Option<Seq<char>>,
}

impl View for RestoreOutcome {
    type V = RestoreOutcomeView;

    open spec fn view(&self) -> RestoreOutcomeView {
        RestoreOutcomeView {
            method: self.method,
            flagged: self.flagged.deep_view(),
            error: self.error.deep_view(),
        }
    }
}

/// The outcome of carrying out `plan`, given the bridge's error if any.
pub open spec fn outcome_of(plan: RestorePlanView, error: Option<Seq<char>>)
    -> RestoreOutcomeView {
    match plan {
        RestorePlanView::Merge(merge) => RestoreOutcomeView {
            method: RestoreMethod::LiveMerge,
            flagged: merge.flagged,
            error,
        },
        RestorePlanView::Copy => RestoreOutcomeView {
            method: RestoreMethod::DiskCopy,
            flagged: Seq::empty(),
            error,
        },
    }
}

impl RestorePlan {
    /// Records how carrying out this plan ended.
    pub fn outcome(self, error: Option<String>) -> (outcome: RestoreOutcome)
        ensures
            outcome@ == outcome_of(self@, error.deep_view()),
    {
        match self {
            RestorePlan::Merge(merge) => RestoreOutcome {
                method: RestoreMethod::LiveMerge,
                flagged: merge.flagged,
                error,
            },
            RestorePlan::Copy => {
                let flagged: Vec<String> = Vec::new();
                assert(flagged.deep_view() =~= Seq::empty());
                RestoreOutcome { method: RestoreMethod::DiskCopy, flagged, error }
            },
        }
    }
}

/// How the restore of one file of a snapshot set ended.
#[derive(Debug, PartialEq)]
pub struct FileReport {
    /// The path of the file in its working location.
    pub original: String,
    pub method: RestoreMethod,
    /// Sub-units that were kept although the backup lacks them.
    pub flagged: Vec<String>,
    /// The bridge's error, if the restore of this file failed.
    pub error: Option<String>,
}

/// Mathematical value of a [`FileReport`].
pub struct FileReportView {
    pub original: Seq<char>,
    pub method: RestoreMethod,
    pub flagged: NamesView,
    pub error: Option<Seq<char>>,
}

impl View for FileReport {
    type V = FileReportView;

    open spec fn view(&self) -> FileReportView {
        FileReportView {
            original: self.original@,
            method: self.method,
            flagged: self.flagged.deep_view(),
            error: self.error.deep_view(),
        }
    }
}

/// Mathematical value of a list of reports.
pub open spec fn reports_view(reports: Seq<FileReport>) -> Seq<FileReportView> {
    reports.map_values(|r: FileReport| r@)
}

/// The report on the file `original`, restored with `outcome`.
pub open spec fn report_of(original: Seq<char>, outcome: RestoreOutcomeView) -> FileReportView {
    FileReportView {
        original,
        method: outcome.method,
        flagged: outcome.flagged,
        error: outcome.error,
    }
}

/// The word for a restore method in the log.
pub open spec fn method_label(method: RestoreMethod) -> Seq<char> {
    match method {
        RestoreMethod::LiveMerge => "热恢复"@,
        RestoreMethod::DiskCopy => "文件复制"@,
    }
}

/// The names, separated by a comma and a space.
pub open spec fn joined(names: NamesView) -> Seq<char>
    decreases names.len(),
{
    if names.len() == 0 {
        Seq::empty()
    } else if names.len() == 1 {
        names[0]
    } else {
        joined(names.drop_last()) + ", "@ + names.last()
    }
}

/// What the log says of the sub-units that a restore kept and flagged.
pub open spec fn flagged_note(flagged: NamesView) -> Seq<char> {
    if flagged.len() == 0 {
        "\n✨ 状态已完美同步"@
    } else {
        "\n\n> 🚨 **检测到新增工作表（已保留）**\n> 系统发现以下表格不在备份中：`"@ + joined(flagged)
            + "`\n> 为防止数据丢失，已将其**标红**，请务必手动确认是否删除。"@
    }
}

/// The log line of one file: the file, the method and the flagged
/// sub-units where the restore succeeded, the file and the error where it
/// failed.
pub open spec fn file_note(report: FileReportView) -> Seq<char> {
    match report.error {
        Some(error) => "\n❌ "@ + report.original + " 撤销失败: "@ + error,
        None => "\n✅ 已回溯 **"@ + report.original + "** ("@ + method_label(report.method) + ")"@
            + flagged_note(report.flagged),
    }
}

/// The log note of a rollback: one line per file, in order.
pub open spec fn undo_note(reports: Seq<FileReportView>) -> Seq<char>
    decreases reports.len(),
{
    if reports.len() == 0 {
        "\n"@
    } else {
        undo_note(reports.drop_last()) + file_note(reports.last())
    }
}

/// Appends the names, separated by a comma and a space.
pub fn append_joined(log: &mut String, names: &Vec<String>)
    ensures
        final(log)@ == old(log)@ + joined(names.deep_view()),
{
    let ghost all = names.deep_view();
    let mut i: usize = 0;
    assert(all.take(0) =~= Seq::empty());
    assert(log@ =~= old(log)@ + joined(all.take(0)));
    while i < names.len()
        invariant
            i <= names.len(),
            all == names.deep_view(),
            log@ == old(log)@ + joined(all.take(i as int)),
        decreases names.len() - i,
    {
        let ghost before = log@;
        if i > 0 {
            log.append(", ");
        }
        log.append(names[i].as_str());
        proof {
            let next = all.take(i + 1);
            assert(next.drop_last() =~= all.take(i as int));
            assert(next.last() == names[i as int]@);
            if i == 0 {
                assert(joined(all.take(0)) =~= Seq::empty());
                assert(log@ =~= old(log)@ + joined(next));
            } else {
                assert(log@ =~= old(log)@ + joined(next));
            }
        }
        i += 1;
    }
    assert(all.take(i as int) =~= all);
}

/// Appends the log line of one file.
pub fn append_file_note(log: &mut String, report: &FileReport)
    ensures
        final(log)@ == old(log)@ + file_note(report@),
{
    match &report.error {
        Some(error) => {
            log.append("\n❌ ");
            log.append(report.original.as_str());
            log.append(" 撤销失败: ");
            log.append(error.as_str());
            assert(log@ =~= old(log)@ + file_note(report@));
        },
        None => {
            log.append("\n✅ 已回溯 **");
            log.append(report.original.as_str());
            log.append("** (");
            match report.method {
                RestoreMethod::LiveMerge => log.append("热恢复"),
                RestoreMethod::DiskCopy => log.append("文件复制"),
            }
            log.append(")");
            if report.flagged.len() == 0 {
                log.append("\n✨ 状态已完美同步");
            } else {
                log.append("\n\n> 🚨 **检测到新增工作表（已保留）**\n> 系统发现以下表格不在备份中：`");
                append_joined(log, &report.flagged);
                log.append("`\n> 为防止数据丢失，已将其**标红**，请务必手动确认是否删除。");
            }
            assert(log@ =~= old(log)@ + file_note(report@));
        },
    }
}

/// Whether every file of the reports was restored.
pub open spec fn all_restored(reports: Seq<FileReportView>) -> bool {
    forall|i: int| 0 <= i < reports.len() ==> (#[trigger] reports[i]).error is None
}

} // verus!
