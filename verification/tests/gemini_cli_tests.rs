use shoruichecker::error::AppError;
use shoruichecker::gemini_cli::{
    build_ps_script, clean_gemini_output, failure_detail, gemini_command, request_for,
    run_outcome, temp_dir_name, unique_suffix, GeminiRequest,
};

#[test]
fn request_constructors() {
    let files = vec!["a.pdf".to_string()];
    let t = GeminiRequest::text("p", "m");
    assert_eq!((t.prompt, t.model, t.files.is_none(), t.output_format), ("p", "m", true, "text"));
    let f = GeminiRequest::text_with_files("p", "m", &files);
    assert_eq!(f.files.unwrap(), &files[..]);
    assert_eq!(f.output_format, "text");
    let j = GeminiRequest::json("p", "m");
    assert_eq!((j.files.is_none(), j.output_format), (true, "json"));
    assert!(request_for("p", "m", None).files.is_none());
    assert_eq!(request_for("p", "m", Some(&files[..])).files.unwrap().len(), 1);
}

#[test]
fn command_path() {
    assert_eq!(gemini_command(Some("C:\\Users\\u\\AppData\\Roaming")), "C:\\Users\\u\\AppData\\Roaming\\npm\\gemini.cmd");
    assert_eq!(gemini_command(None), "gemini");
}

#[test]
fn script_without_files() {
    let r = GeminiRequest::json("p", "gemini-2.5-pro");
    assert_eq!(
        build_ps_script("C:\\it's\\gemini.cmd", &r),
        "$OutputEncoding = [Console]::OutputEncoding = [Text.Encoding]::UTF8\nGet-Content -Raw -Encoding UTF8 'prompt.txt' | & 'C:\\it''s\\gemini.cmd' -m gemini-2.5-pro -o json\n"
    );
}

#[test]
fn script_with_files_quotes_each_name() {
    let files = vec!["a.pdf".to_string(), "b'c.pdf".to_string()];
    let r = GeminiRequest::text_with_files("p", "m", &files);
    assert_eq!(
        build_ps_script("gemini", &r),
        "$OutputEncoding = [Console]::OutputEncoding = [Text.Encoding]::UTF8\n$files = @(\n    'a.pdf',\n    'b''c.pdf'\n)\nGet-Content -Raw -Encoding UTF8 'prompt.txt' | & 'gemini' -m m -o text $files\n"
    );
    let none: Vec<String> = vec![];
    let e = GeminiRequest::text_with_files("p", "m", &none);
    assert_eq!(
        build_ps_script("gemini", &e),
        "$OutputEncoding = [Console]::OutputEncoding = [Text.Encoding]::UTF8\n$files = @(\n\n)\nGet-Content -Raw -Encoding UTF8 'prompt.txt' | & 'gemini' -m m -o text $files\n"
    );
}

#[test]
fn output_is_cleaned_of_known_notices() {
    assert_eq!(
        clean_gemini_output("Loaded cached credentials.\r\n  result  line\nx Hook registry initialized y\n\nlast\n"),
        "  result  line\n\nlast"
    );
    assert_eq!(clean_gemini_output(""), "");
    assert_eq!(clean_gemini_output("a\r"), "a\r");
}

#[test]
fn failure_diagnostic() {
    assert_eq!(failure_detail(Some(2), "bad", ""), "exit code 2: bad");
    assert_eq!(failure_detail(Some(-3), "bad\n", " \n"), "exit code -3: bad");
    assert_eq!(failure_detail(None, "bad", "out\n"), "terminated: bad\nout");
    assert_eq!(failure_detail(Some(1), "", ""), "exit code 1:");
}

#[test]
fn outcome_of_a_run() {
    assert_eq!(run_outcome(true, Some(0), "Loaded cached credentials\nanswer", "warn").unwrap(), "answer");
    match run_outcome(false, Some(1), "o", "e") {
        Err(AppError::Process(m)) => assert_eq!(m, "exit code 1: e\no"),
        _ => panic!("a failed run must give a process error"),
    }
}

#[test]
fn scratch_names() {
    assert_eq!(unique_suffix(1700000000123, 0), "1700000000123-0");
    assert_eq!(unique_suffix(0, 42), "0-42");
    assert_eq!(temp_dir_name(".shoruichecker_temp_single", 5, 7), ".shoruichecker_temp_single-5-7");
    assert_ne!(unique_suffix(5, 1), unique_suffix(5, 2));
}

#[test]
fn suffixes_differ_when_time_or_count_differ() {
    let mut seen = std::collections::HashSet::new();
    for millis in [0u64, 1, 9, 10, 11, 100, 101, 1700000000123] {
        for counter in [0u64, 1, 2, 10, 11, 110] {
            assert!(seen.insert(unique_suffix(millis, counter)));
        }
    }
}
