//! The notifications that the pipeline hands to its front end.

use vstd::prelude::*;
use vstd::string::StringExecFns;
use crate::text::{contains, is_substring};

verus! {

/// A line for the log, with its level.
#[derive(Clone)]
pub struct LogEvent {
    pub message: String,
    pub level: String,
}

/// A newly detected PDF file.
#[derive(Clone)]
pub struct PdfDetectedEvent {
    pub path: String,
    pub name: String,
}

/// A finished code review.
#[derive(Clone)]
pub struct CodeReviewEvent {
    pub path: String,
    pub name: String,
    pub review_result: String,
    pub timestamp: String,
    pub has_issues: bool,
}

/// A log line with its level.
pub fn log_event(message: &str, level: &str) -> (r: LogEvent)
    ensures
        r.message@ == message@,
        r.level@ == level@,
{
    LogEvent { message: String::from_str(message), level: String::from_str(level) }
}

/// The event for a PDF file that the watcher saw appear.
pub fn pdf_detected(path: &str, name: &str) -> (r: PdfDetectedEvent)
    ensures
        r.path@ == path@,
        r.name@ == name@,
{
    PdfDetectedEvent { path: String::from_str(path), name: String::from_str(name) }
}

/// The body of the notification for a detected PDF file.
pub fn pdf_detected_notice(name: &str) -> (r: String)
    ensures
        r@ == "新しいPDF: "@ + name@,
{
    let mut out = String::from_str("新しいPDF: ");
    out.append(name);
    out
}

/// The event for a finished review: the review reports problems exactly
/// when its text holds the warning sign.
pub fn code_review_event(path: &str, name: &str, review_result: &str, timestamp: &str) -> (r:
    CodeReviewEvent)
    ensures
        r.path@ == path@,
        r.name@ == name@,
        r.review_result@ == review_result@,
        r.timestamp@ == timestamp@,
        r.has_issues == is_substring("⚠"@, review_result@),
{
    CodeReviewEvent {
        path: String::from_str(path),
        name: String::from_str(name),
        review_result: String::from_str(review_result),
        timestamp: String::from_str(timestamp),
        has_issues: contains(review_result, "⚠"),
    }
}

/// The log line that reports a finished review.
pub fn review_done_log(event: &CodeReviewEvent) -> (r: LogEvent)
    ensures
        r.message@ == "✓ レビュー完了: "@ + event.name@ + " "@ + (if event.has_issues {
            "(問題あり)"@
        } else {
            seq![]
        }),
        r.level@ == if event.has_issues {
            "info"@
        } else {
            "success"@
        },
{
    let mut message = String::from_str("✓ レビュー完了: ");
    message.append(event.name.as_str());
    message.append(" ");
    if event.has_issues {
        message.append("(問題あり)");
    }
    proof {
        assert(message@ =~= "✓ レビュー完了: "@ + event.name@ + " "@ + (if event.has_issues {
            "(問題あり)"@
        } else {
            seq![]
        }));
    }
    let level = if event.has_issues {
        "info"
    } else {
        "success"
    };
    LogEvent { message, level: String::from_str(level) }
}

/// The body of the notification for a review that found problems.
pub fn review_notice(name: &str) -> (r: String)
    ensures
        r@ == name@ + ": 問題が検出されました"@,
{
    let mut out = String::from_str(name);
    out.append(": 問題が検出されました");
    out
}

} // verus!
