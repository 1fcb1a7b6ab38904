use excel_agent::retry::{build_repair_prompt, RepairDecision, RetryState, MAX_RETRIES};

#[test]
fn default_bound_is_three() {
    assert_eq!(MAX_RETRIES, 3);
}

#[test]
fn repair_prompt_embeds_code_and_diagnostic_verbatim() {
    assert_eq!(
        build_repair_prompt("print(df['X'])", "KeyError: 'X'"),
        "你生成的代码运行报错了。\n\n刚才的代码:\nprint(df['X'])\n\n报错信息:\nKeyError: 'X'\n\n请分析错误原因，并重新生成修正后的完整代码。"
    );
}

#[test]
fn three_repairs_then_give_up() {
    let mut retry = RetryState::new(3);
    let mut log = String::from("log");
    for n in 1..=3u32 {
        let decision = retry.on_failure(&mut log, "code", "boom");
        assert_eq!(decision, RepairDecision::Retry(build_repair_prompt("code", "boom")));
        assert_eq!(retry.attempt, n);
    }
    let decision = retry.on_failure(&mut log, "code", "boom");
    assert_eq!(decision, RepairDecision::GiveUp);
    assert_eq!(retry.attempt, 3);
    assert_eq!(
        log,
        "log\n\n🔄 自动修复中 (尝试 1/3)...\n\n🔄 自动修复中 (尝试 2/3)...\n\n🔄 自动修复中 (尝试 3/3)...\n\n🛑 已达到最大重试次数 (3)，停止自动修复。"
    );
}

#[test]
fn every_failure_after_the_bound_gives_up() {
    let mut retry = RetryState::new(1);
    let mut log = String::new();
    assert!(matches!(retry.on_failure(&mut log, "c", "d"), RepairDecision::Retry(_)));
    assert_eq!(retry.on_failure(&mut log, "c", "d"), RepairDecision::GiveUp);
    assert_eq!(retry.on_failure(&mut log, "c", "d"), RepairDecision::GiveUp);
    assert_eq!(retry.attempt, 1);
}

#[test]
fn a_bound_of_zero_never_repairs() {
    let mut retry = RetryState::new(0);
    let mut log = String::new();
    assert_eq!(retry.on_failure(&mut log, "c", "d"), RepairDecision::GiveUp);
    assert_eq!(log, "\n\n🛑 已达到最大重试次数 (0)，停止自动修复。");
}

#[test]
fn reset_starts_a_new_chain() {
    let mut retry = RetryState::new(2);
    let mut log = String::new();
    retry.on_failure(&mut log, "c", "d");
    retry.on_failure(&mut log, "c", "d");
    assert_eq!(retry.attempt, 2);
    retry.reset();
    assert_eq!(retry, RetryState { attempt: 0, max_attempts: 2 });
    assert!(matches!(retry.on_failure(&mut log, "c", "d"), RepairDecision::Retry(_)));
}

#[test]
fn note_counts_with_two_digits() {
    let mut retry = RetryState { attempt: 9, max_attempts: 12 };
    let mut log = String::new();
    retry.on_failure(&mut log, "c", "d");
    assert_eq!(log, "\n\n🔄 自动修复中 (尝试 10/12)...");
}
