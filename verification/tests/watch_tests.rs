use shoruichecker::code_review::{
    build_review_prompt, is_code_file, review_content, usable_output, ReviewDebounce,
};
use shoruichecker::error::AppError;
use shoruichecker::events::{
    code_review_event, log_event, pdf_detected, pdf_detected_notice, review_done_log,
    review_notice,
};
use shoruichecker::watcher::{
    check_watch_folder, considers_code, is_pdf_file, reports_pdf, ChangeKind, WatchSession,
};

#[test]
fn code_files_by_extension() {
    for e in ["rs", "ts", "tsx", "js", "py", "RS", "Tsx", "PY"] {
        assert!(is_code_file(Some(e)));
    }
    for e in ["", "pdf", "rsx", "r", "jsx", "txt"] {
        assert!(!is_code_file(Some(e)));
    }
    assert!(!is_code_file(None));
}

#[test]
fn pdf_files_by_extension() {
    assert!(is_pdf_file(Some("pdf")));
    assert!(is_pdf_file(Some("PDF")));
    assert!(!is_pdf_file(Some("Pdf")));
    assert!(!is_pdf_file(Some("txt")));
    assert!(!is_pdf_file(None));
}

#[test]
fn which_changes_count() {
    assert!(reports_pdf(ChangeKind::Create, Some("pdf")));
    assert!(reports_pdf(ChangeKind::Modify, Some("pdf")));
    assert!(reports_pdf(ChangeKind::Modify, Some("PDF")));
    assert!(!reports_pdf(ChangeKind::Modify, Some("rs")));
    assert!(!reports_pdf(ChangeKind::Modify, None));
    assert!(!reports_pdf(ChangeKind::Other, Some("pdf")));
    assert!(!reports_pdf(ChangeKind::Create, Some("rs")));
    assert!(considers_code(ChangeKind::Create, Some("rs")));
    assert!(considers_code(ChangeKind::Modify, Some("py")));
    assert!(!considers_code(ChangeKind::Other, Some("rs")));
    assert!(!considers_code(ChangeKind::Modify, Some("pdf")));
}

#[test]
fn missing_watch_folder_is_not_found() {
    assert!(check_watch_folder(true).is_ok());
    match check_watch_folder(false) {
        Err(AppError::NotFound(m)) => assert_eq!(m, "フォルダが存在しません"),
        _ => panic!("a missing folder must be refused"),
    }
}

#[test]
fn debounce_rejects_within_the_window_per_path() {
    let mut d = ReviewDebounce::new();
    assert!(d.should_review("/a.rs", 1000));
    assert!(!d.should_review("/a.rs", 1000));
    assert!(!d.should_review("/a.rs", 1499));
    assert!(d.should_review("/b.rs", 1200));
    assert!(d.should_review("/a.rs", 1500));
    assert!(!d.should_review("/a.rs", 1999));
    assert!(!d.should_review("/a.rs", 10));
    assert!(d.should_review("/a.rs", 2000));
    assert!(!d.should_review("/b.rs", 1699));
    assert!(d.should_review("/b.rs", 1700));
    assert_eq!(d.stamps.len(), 2);
}

#[test]
fn review_text_selection() {
    assert_eq!(usable_output(true, "diff"), Some("diff".to_string()));
    assert_eq!(usable_output(true, " \n"), None);
    assert_eq!(usable_output(false, "diff"), None);
    assert_eq!(review_content(Some("d".to_string()), Some("f".to_string())), Some("d".to_string()));
    assert_eq!(review_content(None, Some("f".to_string())), Some("f".to_string()));
    assert_eq!(review_content(Some("  ".to_string()), Some("f".to_string())), None);
    assert_eq!(review_content(None, Some("\n".to_string())), None);
    assert_eq!(review_content(None, None), None);
}

#[test]
fn review_prompt_text() {
    let p = build_review_prompt("main.rs", "fn main() {}");
    assert!(p.starts_with("以下のコード変更をアーキテクチャの観点からレビューしてください。\n\nファイル: main.rs\n\n```\nfn main() {}\n```\n\n## レビュー観点（優先度順）\n"));
    assert!(p.ends_with("- 簡潔に（5行以内）"));
}

#[test]
fn events_and_notices() {
    let l = log_event("m", "info");
    assert_eq!((l.message.as_str(), l.level.as_str()), ("m", "info"));
    let d = pdf_detected("/w/a.pdf", "a.pdf");
    assert_eq!((d.path.as_str(), d.name.as_str()), ("/w/a.pdf", "a.pdf"));
    assert_eq!(pdf_detected_notice("a.pdf"), "新しいPDF: a.pdf");
    let bad = code_review_event("/s/a.rs", "a.rs", "⚠ long function", "t");
    assert!(bad.has_issues);
    assert_eq!(bad.review_result, "⚠ long function");
    let bad_log = review_done_log(&bad);
    assert_eq!(bad_log.message, "✓ レビュー完了: a.rs (問題あり)");
    assert_eq!(bad_log.level, "info");
    let good = code_review_event("/s/a.rs", "a.rs", "✓ 問題なし", "t");
    assert!(!good.has_issues);
    let good_log = review_done_log(&good);
    assert_eq!(good_log.message, "✓ レビュー完了: a.rs ");
    assert_eq!(good_log.level, "success");
    assert_eq!(review_notice("a.rs"), "a.rs: 問題が検出されました");
}

#[test]
fn a_session_watches_at_most_one_folder() {
    let mut s = WatchSession::new();
    assert!(!s.stop());
    assert_eq!(s.start("/a", true).unwrap(), false);
    assert_eq!(s.active, Some("/a".to_string()));
    assert_eq!(s.start("/b", true).unwrap(), true);
    assert_eq!(s.active, Some("/b".to_string()));
    match s.start("/missing", false) {
        Err(AppError::NotFound(m)) => assert_eq!(m, "フォルダが存在しません"),
        _ => panic!("a missing folder must be refused"),
    }
    assert_eq!(s.active, None);
    assert!(!s.stop());
    assert_eq!(s.start("/c", true).unwrap(), false);
    assert!(s.stop());
    assert!(!s.stop());
}
