use shoruichecker::policy::{
    name_matches_any, should_auto_analyze, AnalyzePolicy, PendingFile, PendingList,
};

fn policy() -> AnalyzePolicy {
    AnalyzePolicy {
        auto_analyze: true,
        include_patterns: vec!["契約".to_string(), "Invoice".to_string()],
        exclude_patterns: vec!["DRAFT".to_string()],
        min_size_bytes: 10,
        max_size_bytes: 1000,
    }
}

fn file(name: &str, size: u64) -> PendingFile {
    PendingFile {
        path: format!("/w/{}", name),
        name: name.to_string(),
        detected_at: "2024-01-01 00:00:00".to_string(),
        size_bytes: size,
    }
}

#[test]
fn auto_analyze_off_rejects_everything() {
    let mut p = policy();
    p.auto_analyze = false;
    assert!(!should_auto_analyze(&p, &file("契約.pdf", 100)));
    p.include_patterns.clear();
    p.exclude_patterns.clear();
    assert!(!should_auto_analyze(&p, &file("anything.pdf", 100)));
}

#[test]
fn size_outside_the_bounds_is_rejected() {
    let p = policy();
    assert!(!should_auto_analyze(&p, &file("契約.pdf", 9)));
    assert!(should_auto_analyze(&p, &file("契約.pdf", 10)));
    assert!(should_auto_analyze(&p, &file("契約.pdf", 1000)));
    assert!(!should_auto_analyze(&p, &file("契約.pdf", 1001)));
}

#[test]
fn exclude_pattern_wins_over_include_pattern() {
    let p = policy();
    assert!(!should_auto_analyze(&p, &file("契約_draft.pdf", 100)));
    assert!(!should_auto_analyze(&p, &file("Draft-invoice.pdf", 100)));
    assert!(should_auto_analyze(&p, &file("INVOICE-final.pdf", 100)));
}

#[test]
fn empty_include_set_accepts_all_and_a_set_needs_a_match() {
    let mut p = policy();
    assert!(!should_auto_analyze(&p, &file("report.pdf", 100)));
    p.include_patterns.clear();
    assert!(should_auto_analyze(&p, &file("report.pdf", 100)));
    assert!(name_matches_any("My-Report.PDF", &vec!["report".to_string()]));
    assert!(!name_matches_any("x", &vec![]));
}

#[test]
fn pending_files_are_added_and_removed_by_path() {
    let mut list = PendingList::new();
    assert_eq!(list.remove("/w/a.pdf"), 0);
    list.add(file("a.pdf", 1));
    list.add(file("b.pdf", 2));
    list.add(file("a.pdf", 3));
    list.add(file("c.pdf", 4));
    assert_eq!(list.files.len(), 4);
    assert_eq!(list.remove("/w/a.pdf"), 2);
    let names: Vec<&str> = list.files.iter().map(|f| f.name.as_str()).collect();
    assert_eq!(names, vec!["b.pdf", "c.pdf"]);
    assert_eq!(list.remove("/w/a.pdf"), 0);
    assert_eq!(list.remove("/w/c.pdf"), 1);
    assert_eq!(list.remove("/w/b.pdf"), 1);
    assert!(list.files.is_empty());
}
