use shoruichecker::settings::{effective_model, with_model, AppSettings, DEFAULT_MODEL};

#[test]
fn default_model_is_set() {
    assert!(!DEFAULT_MODEL.is_empty());
}

#[test]
fn default_model_is_gemini() {
    assert!(DEFAULT_MODEL.contains("gemini"));
}

#[test]
fn effective_model_falls_back_to_default() {
    let s = AppSettings::default();
    assert_eq!(effective_model(&s), "gemini-2.5-pro");
    let s = with_model(s, "other".to_string());
    assert_eq!(effective_model(&s), "other");
    assert!(!s.code_review_enabled);
}
