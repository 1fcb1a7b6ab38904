use excel_agent::restore::{
    append_file_note, append_joined, clone_names, has_name, merge_plan, plan_restore, select,
    FileReport, MergePlan, RestoreMethod, RestoreOutcome, RestorePlan,
};

fn names(list: &[&str]) -> Vec<String> {
    list.iter().map(|n| n.to_string()).collect()
}

#[test]
fn merge_keeps_and_flags_what_the_backup_lacks() {
    let live = names(&["Sheet1", "Scratch", "Sheet2"]);
    let backup = names(&["Sheet1", "Sheet2"]);
    let plan = merge_plan(&live, &backup);
    assert_eq!(
        plan,
        MergePlan {
            overwrite: names(&["Sheet1", "Sheet2"]),
            create: names(&[]),
            flagged: names(&["Scratch"]),
        }
    );
}

#[test]
fn merge_never_lists_a_flagged_unit_for_writing() {
    let live = names(&["A", "B", "C", "D"]);
    let backup = names(&["B", "E"]);
    let plan = merge_plan(&live, &backup);
    for unit in &plan.flagged {
        assert!(!plan.overwrite.contains(unit));
        assert!(!plan.create.contains(unit));
    }
    assert_eq!(plan.flagged, names(&["A", "C", "D"]));
    assert_eq!(plan.overwrite, names(&["B"]));
    assert_eq!(plan.create, names(&["E"]));
}

#[test]
fn merge_creates_what_the_session_lost() {
    let plan = merge_plan(&names(&["Sheet2"]), &names(&["Sheet1", "Sheet2"]));
    assert_eq!(plan.overwrite, names(&["Sheet2"]));
    assert_eq!(plan.create, names(&["Sheet1"]));
    assert_eq!(plan.flagged, names(&[]));
}

#[test]
fn merge_of_equal_sets_flags_nothing() {
    let plan = merge_plan(&names(&["A", "B"]), &names(&["B", "A"]));
    assert_eq!(plan.overwrite, names(&["B", "A"]));
    assert!(plan.create.is_empty());
    assert!(plan.flagged.is_empty());
}

#[test]
fn merge_with_empty_sides() {
    let plan = merge_plan(&names(&[]), &names(&["A"]));
    assert_eq!(plan.create, names(&["A"]));
    assert!(plan.overwrite.is_empty() && plan.flagged.is_empty());
    let plan = merge_plan(&names(&["A"]), &names(&[]));
    assert_eq!(plan.flagged, names(&["A"]));
    assert!(plan.overwrite.is_empty() && plan.create.is_empty());
}

#[test]
fn select_and_has_name() {
    let from = names(&["a", "b", "a", "c"]);
    let other = names(&["a"]);
    assert_eq!(select(&from, &other, true), names(&["a", "a"]));
    assert_eq!(select(&from, &other, false), names(&["b", "c"]));
    assert!(has_name(&from, &"c".to_string()));
    assert!(!has_name(&from, &"d".to_string()));
    assert_eq!(clone_names(&from), from);
}

#[test]
fn a_file_without_live_session_is_copied() {
    let plan = plan_restore(&None, &names(&["Sheet1"]));
    assert_eq!(plan, RestorePlan::Copy);
    assert_eq!(
        plan.outcome(None),
        RestoreOutcome { method: RestoreMethod::DiskCopy, flagged: names(&[]), error: None }
    );
}

#[test]
fn a_file_in_a_live_session_is_merged() {
    let plan = plan_restore(&Some(names(&["Sheet1", "New"])), &names(&["Sheet1"]));
    assert_eq!(
        plan,
        RestorePlan::Merge(MergePlan {
            overwrite: names(&["Sheet1"]),
            create: names(&[]),
            flagged: names(&["New"]),
        })
    );
    assert_eq!(
        plan.outcome(Some("locked".to_string())),
        RestoreOutcome {
            method: RestoreMethod::LiveMerge,
            flagged: names(&["New"]),
            error: Some("locked".to_string()),
        }
    );
}

#[test]
fn joined_names() {
    let mut log = String::from(">");
    append_joined(&mut log, &names(&[]));
    assert_eq!(log, ">");
    append_joined(&mut log, &names(&["A"]));
    assert_eq!(log, ">A");
    append_joined(&mut log, &names(&["B", "C", "D"]));
    assert_eq!(log, ">AB, C, D");
}

#[test]
fn note_of_a_clean_live_merge() {
    let mut log = String::new();
    append_file_note(
        &mut log,
        &FileReport {
            original: "C:/data/book.xlsx".to_string(),
            method: RestoreMethod::LiveMerge,
            flagged: names(&[]),
            error: None,
        },
    );
    assert_eq!(log, "\n✅ 已回溯 **C:/data/book.xlsx** (热恢复)\n✨ 状态已完美同步");
}

#[test]
fn note_of_a_merge_with_flagged_units() {
    let mut log = String::new();
    append_file_note(
        &mut log,
        &FileReport {
            original: "book.xlsx".to_string(),
            method: RestoreMethod::LiveMerge,
            flagged: names(&["Scratch", "Pivot"]),
            error: None,
        },
    );
    assert_eq!(
        log,
        "\n✅ 已回溯 **book.xlsx** (热恢复)\n\n> 🚨 **检测到新增工作表（已保留）**\n> 系统发现以下表格不在备份中：`Scratch, Pivot`\n> 为防止数据丢失，已将其**标红**，请务必手动确认是否删除。"
    );
}

#[test]
fn note_of_a_disk_copy_and_of_a_failure() {
    let mut log = String::from("x");
    append_file_note(
        &mut log,
        &FileReport {
            original: "a.xlsx".to_string(),
            method: RestoreMethod::DiskCopy,
            flagged: names(&[]),
            error: None,
        },
    );
    append_file_note(
        &mut log,
        &FileReport {
            original: "b.xlsx".to_string(),
            method: RestoreMethod::DiskCopy,
            flagged: names(&[]),
            error: Some("Permission denied".to_string()),
        },
    );
    assert_eq!(
        log,
        "x\n✅ 已回溯 **a.xlsx** (文件复制)\n✨ 状态已完美同步\n❌ b.xlsx 撤销失败: Permission denied"
    );
}
