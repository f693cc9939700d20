use shoruichecker::error::AppError;
use shoruichecker::guidelines::{
    build_guideline_prompt, collect_document_types, collect_instruction_notes,
    collect_issue_notes, detect_document_type, extend_unique, get_relevant_guidelines,
    guideline_count, guidelines_summary, holds, relevant_for_types, CollectedFile, Guidelines,
};
use shoruichecker::pdf_embed::PdfEmbeddedData;

fn strings(v: &[&str]) -> Vec<String> {
    v.iter().map(|s| s.to_string()).collect()
}

fn sample() -> Guidelines {
    let mut g = Guidelines::new();
    g.common = strings(&["c1", "c2", "c3", "c4", "c5", "c6"]);
    g.set_category("契約書".to_string(), strings(&["k1", "k2"]));
    g.set_category("見積書".to_string(), strings(&["m1", "m2", "m3", "m4", "m5", "m6", "m7"]));
    g
}

fn file(name: &str, result: &str, instruction: Option<&str>) -> CollectedFile {
    CollectedFile {
        file_name: name.to_string(),
        data: PdfEmbeddedData {
            result: result.to_string(),
            instruction: instruction.map(|s| s.to_string()),
            date: "d".to_string(),
        },
    }
}

#[test]
fn document_type_detection_scenarios() {
    assert_eq!(detect_document_type("2024_契約書_本契約.pdf"), strings(&["契約書"]));
    assert_eq!(detect_document_type("見積_契約_合算.pdf"), strings(&["見積書", "契約書"]));
    assert_eq!(detect_document_type("契約_見積.pdf"), strings(&["見積書", "契約書"]));
    assert_eq!(detect_document_type("report.pdf"), strings(&[]));
}

#[test]
fn document_type_detection_ignores_case_and_knows_every_keyword() {
    assert_eq!(detect_document_type("CONTRACT.PDF"), strings(&["契約書"]));
    assert_eq!(detect_document_type("Estimate-Invoice.pdf"), strings(&["見積書", "請求書"]));
    assert_eq!(detect_document_type("請求.pdf"), strings(&["請求書"]));
    assert_eq!(detect_document_type("交通誘導.pdf"), strings(&["交通誘導員"]));
    assert_eq!(detect_document_type("配置.pdf"), strings(&["交通誘導員"]));
    assert_eq!(detect_document_type("警備.pdf"), strings(&["交通誘導員"]));
    assert_eq!(detect_document_type("測量.pdf"), strings(&["測量図面"]));
    assert_eq!(detect_document_type("横断.pdf"), strings(&["測量図面"]));
    assert_eq!(detect_document_type("縦断.pdf"), strings(&["測量図面"]));
    assert_eq!(detect_document_type("施工.pdf"), strings(&["施工計画"]));
    assert_eq!(detect_document_type("計画.pdf"), strings(&["施工計画"]));
    assert_eq!(
        detect_document_type("契約見積請求警備測量計画"),
        strings(&["見積書", "契約書", "請求書", "交通誘導員", "測量図面", "施工計画"])
    );
}

#[test]
fn types_accumulate_without_duplicates() {
    let names = strings(&["見積.pdf", "契約_見積.pdf", "x.pdf", "契約.pdf"]);
    assert_eq!(collect_document_types(&names), strings(&["見積書", "契約書"]));
    let mut acc = strings(&["a"]);
    extend_unique(&mut acc, &strings(&["b", "a", "b", "c"]));
    assert_eq!(acc, strings(&["a", "b", "c"]));
    assert!(holds(&acc, &"b".to_string()));
    assert!(!holds(&acc, &"d".to_string()));
}

#[test]
fn set_category_replaces_in_place_and_appends_new() {
    let mut g = sample();
    g.set_category("契約書".to_string(), strings(&["z"]));
    assert_eq!(g.categories.len(), 2);
    assert_eq!(g.categories[0].name, "契約書");
    assert_eq!(g.categories[0].items, strings(&["z"]));
    assert_eq!(g.find("見積書"), Some(1));
    assert_eq!(g.find("none"), None);
    assert_eq!(Guidelines::default().categories.len(), 0);
}

#[test]
fn relevant_guidelines_take_five_lines_of_each_block() {
    let g = sample();
    assert_eq!(
        get_relevant_guidelines(Some(&g), "見積_契約.pdf"),
        Some("【共通】\nc1\nc2\nc3\nc4\nc5\n【見積書】\nm1\nm2\nm3\nm4\nm5\n【契約書】\nk1\nk2".to_string())
    );
    assert_eq!(
        get_relevant_guidelines(Some(&g), "report.pdf"),
        Some("【共通】\nc1\nc2\nc3\nc4\nc5".to_string())
    );
    assert_eq!(get_relevant_guidelines(None, "契約.pdf"), None);
    let empty = Guidelines::new();
    assert_eq!(get_relevant_guidelines(Some(&empty), "契約.pdf"), None);
    let mut only = Guidelines::new();
    only.set_category("請求書".to_string(), strings(&[]));
    assert_eq!(relevant_for_types(&only, &strings(&["請求書", "契約書"])), Some("【請求書】".to_string()));
}

#[test]
fn issue_and_instruction_notes_are_tagged_and_distinct() {
    let files = vec![
        file("a.pdf", "ok\n  ⚠ x  \n確認してください\n⚠ x", Some("i1")),
        file("b.pdf", "注意: y\nplain", None),
        file("a.pdf", "⚠ x", Some("i1")),
        file("c.pdf", "", Some("i2")),
    ];
    assert_eq!(
        collect_issue_notes(&files),
        strings(&["[a.pdf] ⚠ x", "[a.pdf] 確認してください", "[b.pdf] 注意: y"])
    );
    assert_eq!(collect_instruction_notes(Some("now"), &files), strings(&["now", "i1", "i2"]));
    assert_eq!(collect_instruction_notes(Some(""), &files), strings(&["i1", "i2"]));
    assert_eq!(collect_instruction_notes(Some("i2"), &files), strings(&["i2", "i1"]));
    assert_eq!(collect_instruction_notes(None, &vec![]), strings(&[]));
}

#[test]
fn guideline_prompt_needs_a_file_and_quotes_its_parts() {
    match build_guideline_prompt(&vec![], None, None) {
        Err(AppError::InvalidInput(m)) => assert_eq!(m, "選択ファイルに解析データがありません"),
        _ => panic!("an empty selection must be refused"),
    }
    let files = vec![file("契約.pdf", "⚠ 金額", Some("日付を見る"))];
    let p = build_guideline_prompt(&files, Some("印影"), Some("{\"common\":[]}")).unwrap();
    assert!(p.starts_with("あなたは書類チェックの専門家です。"));
    assert!(p.contains("## 既存のガイドライン\n{\"common\":[]}\n\n## 今回検出された新しい問題・警告\n[契約.pdf] ⚠ 金額\n\n## ユーザーが重視しているチェック観点\n印影\n日付を見る\n\n## 対象書類タイプ\n契約書\n\n## タスク\n"));
    assert!(p.ends_with("    \"見積書\": [\"見積書で起きやすい間違い1\"]\n  }\n}\n```"));
    let q = build_guideline_prompt(&vec![file("x.pdf", "fine", None)], None, None).unwrap();
    assert!(q.contains("## 既存のガイドライン\n（なし - 新規作成）\n\n## 今回検出された新しい問題・警告\n（新規問題なし）\n\n## ユーザーが重視しているチェック観点\n（なし）\n\n## 対象書類タイプ\n\n\n## タスク"));
}

#[test]
fn summary_and_count_of_guidelines() {
    let mut g = Guidelines::new();
    assert_eq!(guidelines_summary(&g), "## ガイドライン\n\n");
    assert_eq!(guideline_count(&g), Some(0));
    g.common = strings(&["c1", "c2"]);
    g.set_category("契約書".to_string(), strings(&["k1"]));
    g.set_category("見積書".to_string(), strings(&[]));
    assert_eq!(
        guidelines_summary(&g),
        "## ガイドライン\n\n### 共通\n- c1\n- c2\n\n### 契約書\n- k1\n\n### 見積書\n"
    );
    assert_eq!(guideline_count(&g), Some(3));
}
