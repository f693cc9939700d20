//! The check of a document's text by a model that answers in JSON: the
//! prompt, and the reading of the answer.

use vstd::prelude::*;
use vstd::string::{StrSliceExecFns, StringExecFns};
use crate::text::{
    find_first, find_last, first_index, first_n, json_part, json_part_of, last_index, opt_view,
};

verus! {

/// The opening of the prompt that asks for a check of a document's text.
pub const CHECK_HEAD: &'static str = "あなたは建設工事の書類チェッカーです。以下の文書内容を分析し、問題点や不整合を指摘してください。

## 文書内容:
";

/// The check items and the answer format, after the document's text.
pub const CHECK_RULES: &'static str = "

## 確認項目:
1. 日付の整合性（作成日、提出日など）
2. 数値の妥当性（数量、金額など）
3. 記載漏れや空欄
4. 書式の問題
5. その他の不整合

## 回答形式:
以下のJSON形式で回答してください:
{
  \"status\": \"ok\" または \"warning\" または \"error\",
  \"message\": \"簡潔な結果サマリー\",
  \"details\": \"詳細な指摘事項（あれば）\"
}";

/// The number of characters of an answer that stand for its message when
/// the answer holds no JSON.
pub const MESSAGE_CHARS: usize = 200;

/// The outcome of a check.
#[derive(Debug, Clone)]
pub struct AnalysisResult {
    pub status: String,
    pub message: String,
    pub details: Option<String>,
}

/// What an outcome holds.
pub ghost struct OutcomeView {
    pub status: Seq<char>,
    pub message: Seq<char>,
    pub details: Option<Seq<char>>,
}

impl View for AnalysisResult {
    type V = OutcomeView;

    open spec fn view(&self) -> OutcomeView {
        OutcomeView {
            status: self.status@,
            message: self.message@,
            details: opt_view(self.details),
        }
    }
}

/// The prompt that asks for a check of a document's text.
pub fn build_check_prompt(text: &str) -> (r: String)
    ensures
        r@ == CHECK_HEAD@ + text@ + CHECK_RULES@,
{
    let mut out = String::from_str(CHECK_HEAD);
    out.append(text);
    out.append(CHECK_RULES);
    out
}

/// The three members that an answer's JSON may hold as strings.
pub struct AnswerFields {
    pub status: Option<String>,
    pub message: Option<String>,
    pub details: Option<String>,
}

/// What the members hold.
pub ghost struct FieldsView {
    pub status: Option<Seq<char>>,
    pub message: Option<Seq<char>>,
    pub details: Option<Seq<char>>,
}

impl View for AnswerFields {
    type V = FieldsView;

    open spec fn view(&self) -> FieldsView {
        FieldsView {
            status: opt_view(self.status),
            message: opt_view(self.message),
            details: opt_view(self.details),
        }
    }
}

/// The views of members that may be missing.
pub open spec fn fields_view(f: Option<AnswerFields>) -> Option<FieldsView> {
    match f {
        Some(v) => Some(v@),
        None => None,
    }
}

/// What a text holds as JSON under a key: `None` for a text that is no
/// JSON, else the string under the key, or `None` where the JSON is no
/// object or holds no string there.
pub uninterp spec fn json_member_of(json: Seq<char>, key: Seq<char>) -> Option<Option<Seq<char>>>;

/// The characters of what was found under a key.
pub open spec fn member_view(m: Option<Option<String>>) -> Option<Option<Seq<char>>> {
    match m {
        Some(found) => Some(opt_view(found)),
        None => None,
    }
}

/// `serde_json::from_str` for a `Value`, then the value indexed by the key
/// and `Value::as_str`: what the parser finds is a function of the text
/// and the key.
#[verifier::external_body]
fn json_member(json: &str, key: &str) -> (r: Option<Option<String>>)
    ensures
        member_view(r) == json_member_of(json@, key@),
{
    match serde_json::from_str::<serde_json::Value>(json) {
        Ok(v) => Some(v[key].as_str().map(|s| s.to_string())),
        Err(_) => None,
    }
}

/// The string found under a key, if the text parsed and holds one there.
pub open spec fn found_text(m: Option<Option<Seq<char>>>) -> Option<Seq<char>> {
    match m {
        Some(found) => found,
        None => None,
    }
}

/// The three members of an answer's JSON: `None` for a text that is no
/// JSON, else the strings under the keys `status`, `message` and `details`.
pub open spec fn json_fields_of(json: Seq<char>) -> Option<FieldsView> {
    match json_member_of(json, "status"@) {
        Some(status) => Some(
            FieldsView {
                status,
                message: found_text(json_member_of(json, "message"@)),
                details: found_text(json_member_of(json, "details"@)),
            },
        ),
        None => None,
    }
}

fn found(m: Option<Option<String>>) -> (r: Option<String>)
    ensures
        opt_view(r) == found_text(member_view(m)),
{
    match m {
        Some(f) => f,
        None => None,
    }
}

/// Reads the three members of an answer's JSON.
pub fn parse_fields(json: &str) -> (r: Option<AnswerFields>)
    ensures
        fields_view(r) == json_fields_of(json@),
{
    match json_member(json, "status") {
        Some(status) => Some(
            AnswerFields {
                status,
                message: found(json_member(json, "message")),
                details: found(json_member(json, "details")),
            },
        ),
        None => None,
    }
}

/// The outcome that parsed members state: a missing status reads as
/// unknown, a missing message as empty.
pub open spec fn stated_outcome(fields: FieldsView) -> OutcomeView {
    OutcomeView {
        status: match fields.status {
            Some(s) => s,
            None => "unknown"@,
        },
        message: match fields.message {
            Some(s) => s,
            None => seq![],
        },
        details: fields.details,
    }
}

/// The outcome for an answer without JSON: all is well, the answer's first
/// characters are the message and the whole answer the details.
pub open spec fn plain_outcome(text: Seq<char>) -> OutcomeView {
    OutcomeView {
        status: "ok"@,
        message: first_n(text, MESSAGE_CHARS as nat),
        details: Some(text),
    }
}

/// The outcome of an answer, given what parsing its JSON part gave.
pub fn outcome_from(parsed: Option<AnswerFields>, text: &str) -> (r: AnalysisResult)
    ensures
        r@ == match parsed {
            Some(f) => stated_outcome(f@),
            None => plain_outcome(text@),
        },
{
    match parsed {
        Some(f) => {
            let status = match f.status {
                Some(s) => s,
                None => String::from_str("unknown"),
            };
            let message = match f.message {
                Some(s) => s,
                None => String::new(),
            };
            AnalysisResult { status, message, details: f.details }
        },
        None => {
            let n = text.unicode_len();
            let head = if n > MESSAGE_CHARS {
                text.substring_char(0, MESSAGE_CHARS)
            } else {
                text
            };
            proof {
                assert(text@.subrange(0, MESSAGE_CHARS as int) =~= text@.take(MESSAGE_CHARS as int));
            }
            AnalysisResult {
                status: String::from_str("ok"),
                message: String::from_str(head),
                details: Some(String::from_str(text)),
            }
        },
    }
}

/// Whether an answer holds an opening and a closing brace, in this order.
pub open spec fn has_json_span(bytes: Seq<u8>) -> bool {
    match (first_index(bytes, 123u8), last_index(bytes, 125u8)) {
        (Some(a), Some(b)) => a <= b,
        _ => false,
    }
}

/// The outcome that an answer states: that of the JSON between its first
/// opening and its last closing brace if there is such a span and it
/// parses, else the plain one.
pub open spec fn answer_outcome(text: Seq<char>) -> OutcomeView {
    if has_json_span(vstd::utf8::encode_utf8(text)) {
        match json_fields_of(json_part_of(text)) {
            Some(f) => stated_outcome(f),
            None => plain_outcome(text),
        }
    } else {
        plain_outcome(text)
    }
}

/// Reads a model's answer; it never fails.
pub fn parse_analysis_result(text: &str) -> (r: Result<AnalysisResult, String>)
    ensures
        r is Ok,
        r->Ok_0@ == answer_outcome(text@),
{
    let bytes = text.as_bytes();
    let found = match find_first(bytes, 123u8) {
        Some(a) => match find_last(bytes, 125u8) {
            Some(b) => a <= b,
            None => false,
        },
        None => false,
    };
    if found {
        let json = json_part(text);
        Ok(outcome_from(parse_fields(json.as_str()), text))
    } else {
        Ok(outcome_from(None, text))
    }
}

} // verus!
