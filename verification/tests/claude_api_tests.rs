use shoruichecker::claude_api::{
    build_check_prompt, outcome_from, parse_analysis_result, AnswerFields,
};
use shoruichecker::pdf_processor::pdf_info;

#[test]
fn json_answer_is_read() {
    let r = parse_analysis_result("結果です:\n```json\n{\"status\": \"warning\", \"message\": \"日付不整合\", \"details\": \"作成日 > 提出日\"}\n```").unwrap();
    assert_eq!(r.status, "warning");
    assert_eq!(r.message, "日付不整合");
    assert_eq!(r.details, Some("作成日 > 提出日".to_string()));
}

#[test]
fn missing_members_have_defaults() {
    let r = parse_analysis_result("{\"status\": 3, \"other\": true}").unwrap();
    assert_eq!(r.status, "unknown");
    assert_eq!(r.message, "");
    assert_eq!(r.details, None);
    let fields = AnswerFields { status: None, message: Some("m".to_string()), details: None };
    let o = outcome_from(Some(fields), "x");
    assert_eq!((o.status.as_str(), o.message.as_str(), o.details), ("unknown", "m", None));
    let list = parse_analysis_result("{} [1]").unwrap();
    assert_eq!((list.status.as_str(), list.message.as_str(), list.details), ("unknown", "", None));
}

#[test]
fn answer_without_json_is_kept_as_details() {
    let long: String = "あ".repeat(250);
    let r = parse_analysis_result(&long).unwrap();
    assert_eq!(r.status, "ok");
    assert_eq!(r.message, "あ".repeat(200));
    assert_eq!(r.details, Some(long.clone()));
    let broken = parse_analysis_result("{ not json }").unwrap();
    assert_eq!(broken.status, "ok");
    assert_eq!(broken.message, "{ not json }");
    let reversed = parse_analysis_result("} {").unwrap();
    assert_eq!(reversed.details, Some("} {".to_string()));
}

#[test]
fn check_prompt_wraps_the_text() {
    let p = build_check_prompt("本文");
    assert!(p.starts_with("あなたは建設工事の書類チェッカーです。"));
    assert!(p.contains("## 文書内容:\n本文\n\n## 確認項目:\n"));
    assert!(p.ends_with("  \"details\": \"詳細な指摘事項（あれば）\"\n}"));
}

#[test]
fn pdf_info_holds_what_it_is_given() {
    let i = pdf_info(Some("a.pdf"), "/d/a.pdf", 42);
    assert_eq!((i.file_name.as_str(), i.file_path.as_str(), i.size_bytes), ("a.pdf", "/d/a.pdf", 42));
    assert_eq!(pdf_info(None, "/", 0).file_name, "");
}
