use shoruichecker::analysis::{
    build_compare_prompt, build_single_prompt, combined_report, completion_log, custom_log,
    file_list_line, finish_comparison, finish_single, indexed_file_name, outcome_log, plan_job,
    progress_log, record_comparison, start_banner, success_count, task_id, temp_prefix,
    unit_result, JobPlan, COMPARE_HEAD, SINGLE_RULES,
};
use shoruichecker::error::AppError;
use shoruichecker::guidelines::Guidelines;
use shoruichecker::history::{append_or_replace, empty_history, AnalysisHistoryEntry};

fn strings(v: &[&str]) -> Vec<String> {
    v.iter().map(|s| s.to_string()).collect()
}

fn entry(name: &str) -> AnalysisHistoryEntry {
    AnalysisHistoryEntry {
        file_name: name.to_string(),
        file_path: format!("/p/{}", name),
        analyzed_at: "2024-01-01 00:00:00".to_string(),
        document_type: None,
        summary: "s".to_string(),
        issues: vec![],
    }
}

#[test]
fn job_without_paths_is_invalid_input() {
    match plan_job(0, "compare") {
        Err(AppError::InvalidInput(m)) => assert_eq!(m, "ファイルが指定されていません"),
        _ => panic!("a job without files must be refused"),
    }
    assert!(plan_job(0, "single").is_err());
}

#[test]
fn job_kinds() {
    assert_eq!(plan_job(1, "compare").unwrap(), JobPlan::Compare);
    assert_eq!(plan_job(3, "compare").unwrap(), JobPlan::Compare);
    assert_eq!(plan_job(1, "single").unwrap(), JobPlan::Single);
    assert_eq!(plan_job(1, "").unwrap(), JobPlan::Single);
    assert_eq!(plan_job(2, "Compare").unwrap(), JobPlan::Parallel);
    assert_eq!(plan_job(3, "individual").unwrap(), JobPlan::Parallel);
}

#[test]
fn single_prompt_orders_its_sections() {
    let mut g = Guidelines::new();
    g.common = strings(&["c1"]);
    let mut h = empty_history("/p");
    append_or_replace(&mut h, entry("old.pdf"));
    let p = build_single_prompt("契約.pdf", Some(&g), &h, "印影を確認");
    assert!(p.starts_with(SINGLE_RULES));
    assert!(p.starts_with("あなたは日本語で回答するアシスタントです。必ず日本語で回答してください。\n\n添付のPDF書類の内容を読み取り"));
    assert!(p.contains("- 縦断図と横断図の計画高・地盤高の照合\n\n## 該当ガイドライン\n【共通】\nc1\n\n## 出力形式\n"));
    assert!(p.contains("- 過去の解析履歴がある場合、それとの整合性も確認すること\n\n## ユーザー指定のチェック項目\n以下の項目も必ず確認してください：\n印影を確認\n\n\n## 過去の解析履歴（参考情報）\n"));
    assert!(p.ends_with("### old.pdf (2024-01-01 00:00:00)\n- 要約: s\n\n\nファイル: 契約.pdf"));
}

#[test]
fn single_prompt_leaves_empty_sections_out() {
    let h = empty_history("/p");
    let p = build_single_prompt("a.pdf", None, &h, "");
    assert!(p.ends_with("- 縦断図と横断図の計画高・地盤高の照合\n\n## 出力形式\n- まず書類タイプを判定して報告\n- 整合している項目は「✓」で示す\n- 問題がある項目は「⚠」で具体的に指摘\n- 過去の解析履歴がある場合、それとの整合性も確認すること\n\nファイル: a.pdf"));
    assert!(!p.contains("ユーザー指定"));
    assert!(!p.contains("該当ガイドライン"));
}

#[test]
fn compare_prompt_lists_files_and_collected_guidelines() {
    let mut g = Guidelines::new();
    g.set_category("見積書".to_string(), strings(&["m1"]));
    g.set_category("契約書".to_string(), strings(&["k1"]));
    let h = empty_history("/p");
    let p = build_compare_prompt(&strings(&["契約.pdf", "見積.pdf"]), Some(&g), &h, "");
    assert!(p.starts_with(COMPARE_HEAD));
    assert!(p.contains("## 照合対象ファイル\n契約.pdf\n見積.pdf\n\n## チェックポイント\n"));
    assert!(p.contains("- 過去の解析履歴との整合性\n\n## 該当ガイドライン\n【契約書】\nk1\n【見積書】\nm1\n\n## 出力形式\n"));
    assert!(p.ends_with("4. 総合判定（整合/要確認/不整合）\n"));
}

#[test]
fn comparison_is_recorded_for_every_file() {
    let mut h = empty_history("/p");
    append_or_replace(&mut h, entry("b.pdf"));
    append_or_replace(&mut h, entry("z.pdf"));
    record_comparison(
        &mut h,
        &strings(&["/p/a.pdf", "/p/b.pdf"]),
        &strings(&["a.pdf", "b.pdf"]),
        "概要\n  ⚠ 金額不一致 \n警告のみ\n",
        "2024-02-02 02:02:02",
    );
    let names: Vec<&str> = h.entries.iter().map(|e| e.file_name.as_str()).collect();
    assert_eq!(names, vec!["z.pdf", "a.pdf", "b.pdf"]);
    let b = &h.entries[2];
    assert_eq!(b.file_path, "/p/b.pdf");
    assert_eq!(b.analyzed_at, "2024-02-02 02:02:02");
    assert_eq!(b.document_type, Some("照合解析".to_string()));
    assert_eq!(b.summary, "【照合解析】対象: a.pdf, b.pdf");
    assert_eq!(b.issues, strings(&["⚠ 金額不一致"]));
}

#[test]
fn comparison_keeps_the_newest_fifty() {
    let mut h = empty_history("/p");
    for i in 0..50 {
        append_or_replace(&mut h, entry(&format!("f{}.pdf", i)));
    }
    record_comparison(&mut h, &strings(&["/a", "/f1"]), &strings(&["a.pdf", "f1.pdf"]), "r", "t");
    assert_eq!(h.entries.len(), 50);
    assert_eq!(h.entries[0].file_name, "f2.pdf");
    assert_eq!(h.entries[48].file_name, "a.pdf");
    assert_eq!(h.entries[49].file_name, "f1.pdf");
}

#[test]
fn failed_comparison_changes_nothing_and_embeds_nothing() {
    let mut h = empty_history("/p");
    append_or_replace(&mut h, entry("a.pdf"));
    let paths = strings(&["/p/a.pdf", "/p/b.pdf", "/p/c.pdf"]);
    let names = strings(&["a.pdf", "b.pdf", "c.pdf"]);
    let effects = finish_comparison(&mut h, &paths, &names, Err("exit code 1: x".to_string()), "t");
    assert_eq!(effects.output, Err("exit code 1: x".to_string()));
    assert!(effects.embed_paths.is_empty());
    assert_eq!(h.entries.len(), 1);
    assert_eq!(h.entries[0].analyzed_at, "2024-01-01 00:00:00");
    let done = finish_comparison(&mut h, &paths, &names, Ok("fine".to_string()), "t2");
    assert_eq!(done.output, Ok("fine".to_string()));
    assert_eq!(done.embed_paths, paths);
    assert_eq!(h.entries.len(), 3);
    assert_eq!(h.entries[0].analyzed_at, "t2");
}

#[test]
fn single_analysis_records_on_success_only() {
    let mut h = empty_history("/p");
    let failed = finish_single(&mut h, "a.pdf", "/p/a.pdf", Err("boom".to_string()), "t");
    assert_eq!(failed.output, Err("boom".to_string()));
    assert!(failed.embed_paths.is_empty());
    assert!(h.entries.is_empty());
    let ok = finish_single(&mut h, "a.pdf", "/p/a.pdf", Ok("契約書\n⚠ x".to_string()), "t");
    assert_eq!(ok.output, Ok("契約書\n⚠ x".to_string()));
    assert_eq!(ok.embed_paths, strings(&["/p/a.pdf"]));
    assert_eq!(h.entries.len(), 1);
    assert_eq!(h.entries[0].document_type, Some("契約書".to_string()));
    assert_eq!(h.entries[0].issues, strings(&["⚠ x"]));
}

#[test]
fn partial_failure_is_reported_per_file() {
    let results = vec![
        unit_result("a.pdf".to_string(), "/a.pdf".to_string(), Ok("result a".to_string())),
        unit_result("b.pdf".to_string(), "/b.pdf".to_string(), Err("exit code 1: x".to_string())),
        unit_result("c.pdf".to_string(), "/c.pdf".to_string(), Ok("result c".to_string())),
    ];
    assert_eq!(success_count(&results), 2);
    assert_eq!(
        combined_report(&results),
        "\n## 📄 a.pdf\n---\nresult a\n\n\n## 📄 b.pdf\n---\n⚠ エラー: exit code 1: x\n\n\n## 📄 c.pdf\n---\nresult c\n\n"
    );
    assert_eq!(completion_log(success_count(&results), results.len()), "✓ 解析完了 (2/3)");
    assert_eq!(combined_report(&vec![]), "");
    assert_eq!(success_count(&vec![]), 0);
}

#[test]
fn unit_names() {
    assert_eq!(indexed_file_name(0), "file_0.pdf");
    assert_eq!(indexed_file_name(12), "file_12.pdf");
    assert_eq!(task_id(3), "task_3");
    assert_eq!(temp_prefix(&task_id(12)), ".shoruichecker_temp_task_12");
    assert_eq!(temp_prefix("compare"), ".shoruichecker_temp_compare");
    assert_eq!(file_list_line("a.pdf"), "  - a.pdf");
}

#[test]
fn job_log_lines() {
    assert_eq!(start_banner(JobPlan::Compare, 3), "=== PDF照合解析開始 (3 ファイル) ===");
    assert_eq!(start_banner(JobPlan::Single, 1), "=== PDF個別解析開始 (1 ファイル) ===");
    assert_eq!(start_banner(JobPlan::Parallel, 12), "=== PDF個別解析開始 (12 ファイル) ===");
    assert_eq!(custom_log(""), None);
    assert_eq!(custom_log("一行目\n二行目"), Some("カスタム指示: 一行目".to_string()));
    assert_eq!(custom_log("\n二行目"), Some("カスタム指示: ".to_string()));
    assert_eq!(progress_log(JobPlan::Compare, "m", 3, "a.pdf"), "m で照合中...");
    assert_eq!(progress_log(JobPlan::Single, "m", 1, "a.pdf"), "a.pdf を解析中...");
    assert_eq!(progress_log(JobPlan::Parallel, "m", 3, "a.pdf"), "m で 3 ファイルを並列解析中...");
    let ok: Result<String, String> = Ok("r".to_string());
    let bad: Result<String, String> = Err("x".to_string());
    assert_eq!(outcome_log(JobPlan::Compare, &ok), ("✓ 照合完了".to_string(), "success".to_string()));
    assert_eq!(outcome_log(JobPlan::Single, &ok), ("✓ 解析完了".to_string(), "success".to_string()));
    assert_eq!(outcome_log(JobPlan::Compare, &bad), ("照合エラー: x".to_string(), "error".to_string()));
    assert_eq!(outcome_log(JobPlan::Single, &bad), ("解析エラー: x".to_string(), "error".to_string()));
}
