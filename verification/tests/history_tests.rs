use shoruichecker::history::{
    append_or_replace, build_history_context, create_history_entry, empty_history,
    entry_from_result, history_file_name, history_or_empty, merge_histories, path_hash,
    sort_newest_first, AnalysisHistory, AnalysisHistoryEntry,
};

fn entry(name: &str, stamp: &str) -> AnalysisHistoryEntry {
    AnalysisHistoryEntry {
        file_name: name.to_string(),
        file_path: format!("/p/{}", name),
        analyzed_at: stamp.to_string(),
        document_type: None,
        summary: String::new(),
        issues: vec![],
    }
}

#[test]
fn test_path_hash() {
    let hash1 = path_hash("test/folder/path");
    let hash2 = path_hash("test/folder/path");
    let hash3 = path_hash("different/path");

    assert_eq!(hash1, hash2);
    assert_ne!(hash1, hash3);
}

#[test]
fn test_create_history_entry() {
    let entry = create_history_entry(
        "test.pdf",
        "/path/to/test.pdf",
        "契約書の内容です\n⚠ 金額に不整合があります",
    );

    assert_eq!(entry.file_name, "test.pdf");
    assert_eq!(entry.document_type, Some("契約書".to_string()));
    assert!(!entry.issues.is_empty());
}

#[test]
fn test_build_history_context_empty() {
    let history = AnalysisHistory {
        project_folder: "test".to_string(),
        entries: vec![],
    };

    let context = build_history_context(&history);
    assert!(context.is_empty());
}

#[test]
fn created_entry_has_a_timestamp_of_nineteen_characters() {
    let entry = create_history_entry("a.pdf", "/a.pdf", "x");
    assert_eq!(entry.analyzed_at.len(), 19);
    let stamp: Vec<char> = entry.analyzed_at.chars().collect();
    for (i, c) in stamp.iter().enumerate() {
        match i {
            4 | 7 => assert_eq!(*c, '-'),
            10 => assert_eq!(*c, ' '),
            13 | 16 => assert_eq!(*c, ':'),
            _ => assert!(c.is_ascii_digit()),
        }
    }
    assert_eq!(entry.file_path, "/a.pdf");
}

#[test]
fn entry_from_result_extracts_type_issues_and_summary() {
    let text = "  見積の確認\r\n✓ ok\n   ⚠ 金額が違う  \n警告: 日付\nl5\nl6\nl7\nl8\nl9\nl10\nl11\n";
    let e = entry_from_result("m.pdf", "/d/m.pdf", text, "2024-01-02 03:04:05");
    assert_eq!(e.document_type, Some("見積書".to_string()));
    assert_eq!(e.issues, vec!["⚠ 金額が違う".to_string(), "警告: 日付".to_string()]);
    assert_eq!(
        e.summary,
        "  見積の確認\n✓ ok\n   ⚠ 金額が違う  \n警告: 日付\nl5\nl6\nl7\nl8\nl9\nl10"
    );
    assert_eq!(e.analyzed_at, "2024-01-02 03:04:05");
}

#[test]
fn entry_from_result_type_priority_and_none() {
    assert_eq!(entry_from_result("a", "b", "請求と見積", "t").document_type, Some("見積書".to_string()));
    assert_eq!(entry_from_result("a", "b", "請求のみ", "t").document_type, Some("請求書".to_string()));
    assert_eq!(
        entry_from_result("a", "b", "交通誘導の件", "t").document_type,
        Some("交通誘導員配置実績".to_string())
    );
    assert_eq!(
        entry_from_result("a", "b", "配置実績", "t").document_type,
        Some("交通誘導員配置実績".to_string())
    );
    assert_eq!(entry_from_result("a", "b", "nothing", "t").document_type, None);
    assert!(entry_from_result("a", "b", "矛盾\n不整合", "t").issues.len() == 2);
}

#[test]
fn history_file_name_is_hex_of_hash() {
    let name = history_file_name("some/folder");
    assert_eq!(name, format!("{:x}.json", path_hash("some/folder")));
}

#[test]
fn missing_history_loads_as_empty() {
    let h = history_or_empty(None, "some/folder");
    assert_eq!(h.project_folder, "some/folder");
    assert!(h.entries.is_empty());
    let e = empty_history("x");
    assert_eq!(e.project_folder, "x");
    let kept = history_or_empty(
        Some(AnalysisHistory { project_folder: "p".to_string(), entries: vec![entry("a", "1")] }),
        "other",
    );
    assert_eq!(kept.project_folder, "p");
    assert_eq!(kept.entries.len(), 1);
}

#[test]
fn fifty_first_entry_drops_the_oldest() {
    let mut h = empty_history("f");
    for i in 0..50 {
        append_or_replace(&mut h, entry(&format!("f{}.pdf", i), "t"));
    }
    assert_eq!(h.entries.len(), 50);
    append_or_replace(&mut h, entry("new.pdf", "t"));
    assert_eq!(h.entries.len(), 50);
    assert_eq!(h.entries[0].file_name, "f1.pdf");
    assert_eq!(h.entries[49].file_name, "new.pdf");
}

#[test]
fn same_file_name_replaces_the_old_entry() {
    let mut h = empty_history("f");
    append_or_replace(&mut h, entry("a.pdf", "1"));
    append_or_replace(&mut h, entry("b.pdf", "2"));
    append_or_replace(&mut h, entry("a.pdf", "3"));
    let names: Vec<&str> = h.entries.iter().map(|e| e.file_name.as_str()).collect();
    assert_eq!(names, vec!["b.pdf", "a.pdf"]);
    assert_eq!(h.entries[1].analyzed_at, "3");
}

#[test]
fn history_context_quotes_newest_ten_first() {
    let mut h = empty_history("f");
    for i in 0..12 {
        let mut e = entry(&format!("f{}.pdf", i), "2024-01-01 00:00:00");
        e.summary = "s1\ns2\ns3\ns4".to_string();
        if i == 11 {
            e.document_type = Some("契約書".to_string());
            e.issues = vec!["⚠ x".to_string(), "⚠ y".to_string()];
        }
        append_or_replace(&mut h, e);
    }
    let c = build_history_context(&h);
    assert!(c.starts_with("\n\n## 過去の解析履歴（参考情報）\n以下は同じプロジェクトで過去に解析した書類の情報です。整合性チェック時に参照してください。\n\n### f11.pdf (2024-01-01 00:00:00)\n- 書類タイプ: 契約書\n- 検出された問題:\n  - ⚠ x\n  - ⚠ y\n- 要約: s1 s2 s3\n\n### f10.pdf (2024-01-01 00:00:00)\n- 要約: s1 s2 s3\n\n"));
    assert!(c.contains("### f2.pdf"));
    assert!(!c.contains("### f1.pdf"));
    assert!(c.ends_with("### f2.pdf (2024-01-01 00:00:00)\n- 要約: s1 s2 s3\n\n"));
}

#[test]
fn all_history_is_sorted_newest_first() {
    let a = AnalysisHistory {
        project_folder: "a".to_string(),
        entries: vec![entry("a1", "2024-01-02 10:00:00"), entry("a2", "2024-03-01 09:00:00")],
    };
    let b = AnalysisHistory {
        project_folder: "b".to_string(),
        entries: vec![
            entry("b1", "2024-02-01 00:00:00"),
            entry("b2", "2024-01-02 10:00:00"),
            entry("b3", "2023-12-31 23:59:59"),
        ],
    };
    let all = merge_histories(&vec![a, b]);
    let names: Vec<&str> = all.iter().map(|e| e.file_name.as_str()).collect();
    assert_eq!(names, vec!["a2", "b1", "a1", "b2", "b3"]);
    assert!(merge_histories(&vec![]).is_empty());
    let sorted = sort_newest_first(&vec![entry("x", "1"), entry("y", "10"), entry("z", "2"), entry("w", "")]);
    let names: Vec<&str> = sorted.iter().map(|e| e.file_name.as_str()).collect();
    assert_eq!(names, vec!["z", "y", "x", "w"]);
}

#[test]
fn entry_copy_is_equal() {
    let mut e = entry("a", "t");
    e.document_type = Some("契約書".to_string());
    e.issues = vec!["i".to_string()];
    let c = e.duplicate();
    assert_eq!(
        (c.file_name, c.file_path, c.analyzed_at, c.document_type, c.summary, c.issues),
        (e.file_name, e.file_path, e.analyzed_at, e.document_type, e.summary, e.issues)
    );
}
