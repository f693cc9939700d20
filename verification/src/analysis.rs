//! The analysis pipeline's decisions and texts: what kind of job a
//! request is, the prompts, the history records of a comparison, and the
//! combined report of a job with several files.

use vstd::prelude::*;
use vstd::string::StringExecFns;
use crate::error::AppError;
use crate::guidelines::{
    collect_document_types, collected_types, document_types_of, get_relevant_guidelines,
    relevant_for_types, relevant_text, Guidelines, GuidelinesView,
};
use crate::history::{
    append_or_replace, build_history_context, copy_strings, entry_from_result, entry_of_result,
    history_context, keep_latest, keep_latest_entries, recorded, replace_entry,
    without_name, AnalysisHistory, AnalysisHistoryEntry, EntryView, MAX_ENTRIES,
};
use crate::text::{
    decimal, decimal_text, join, join_spec, lines, marked_lines, opt_view, select_marked,
    split_lines, strs,
};

verus! {

/// The fixed rules that open the prompt for one document.
pub const SINGLE_RULES: &'static str = "あなたは日本語で回答するアシスタントです。必ず日本語で回答してください。

添付のPDF書類の内容を読み取り、整合性をチェックしてください。

## 注意事項
- 文字は正確に読み取ること（特に地名、人名、会社名）
- 似た漢字を間違えないこと
- 数値は桁を間違えないこと

## 書類タイプ別チェックポイント

### 契約書の場合
- 契約当事者（発注者・受注者）の名称が書類内で一貫しているか
- 金額計算（工事価格 + 消費税 = 請負代金額）が正しいか
- 工期の日付が妥当か（着工日 < 完成日）
- 必要な署名・押印欄があるか
- 選択肢形式の項目は○（丸）がついている選択肢を読み取ること

### 交通誘導員配置実績の場合
- 人数欄の数値と、実際に列挙された名前の数が一致するか
- 集計表と伝票の人数・日付・時間が一致するか

### 測量図面の場合
- 縦断図と横断図の計画高・地盤高の照合
";

/// The output format that the prompt for one document asks for.
pub const SINGLE_FORMAT: &'static str = "
## 出力形式
- まず書類タイプを判定して報告
- 整合している項目は「✓」で示す
- 問題がある項目は「⚠」で具体的に指摘
- 過去の解析履歴がある場合、それとの整合性も確認すること
";

/// The opening of the prompt that compares several documents.
pub const COMPARE_HEAD: &'static str = "あなたは日本語で回答するアシスタントです。必ず日本語で回答してください。

添付の複数PDF書類を照合し、書類間の整合性をチェックしてください。

## 照合対象ファイル
";

/// The check points of the prompt that compares several documents.
pub const COMPARE_CHECKS: &'static str = "

## チェックポイント
- 書類間で当事者名（発注者・受注者・会社名）が一致しているか
- 金額が書類間で整合しているか（見積書と契約書の金額一致等）
- 日付の整合性（契約日、工期、納期等）
- 数量・単価の整合性
- 印影・署名の有無
- 過去の解析履歴との整合性
";

/// The output format that the comparing prompt asks for.
pub const COMPARE_FORMAT: &'static str = "
## 出力形式
1. 各書類の概要を簡潔に説明
2. 書類間で整合している項目は「✓」で示す
3. 不整合や矛盾がある項目は「⚠」で具体的に指摘
4. 総合判定（整合/要確認/不整合）
";

/// The kind of work that a job is.
#[derive(Clone, Copy, Debug, PartialEq, Eq, Structural)]
pub enum JobPlan {
    /// All files go to the model together, in one call.
    Compare,
    /// One file, one call.
    Single,
    /// Several files, each analysed by itself.
    Parallel,
}

/// The kind of a job with `path_count` files in the given mode, for a job
/// that names a file.
pub open spec fn planned(path_count: nat, mode: Seq<char>) -> JobPlan {
    if mode == "compare"@ {
        JobPlan::Compare
    } else if path_count == 1 {
        JobPlan::Single
    } else {
        JobPlan::Parallel
    }
}

/// Decides what kind of work a job is; a job without a file is refused
/// before any work begins.
pub fn plan_job(path_count: usize, mode: &str) -> (r: Result<JobPlan, AppError>)
    ensures
        path_count == 0 <==> r is Err,
        r is Err ==> r->Err_0 is InvalidInput && r->Err_0.detail()
            == "ファイルが指定されていません"@,
        r is Ok ==> r->Ok_0 == planned(path_count as nat, mode@),
{
    if path_count == 0 {
        return Err(AppError::InvalidInput(String::from_str("ファイルが指定されていません")));
    }
    if String::from_str(mode) == String::from_str("compare") {
        Ok(JobPlan::Compare)
    } else if path_count == 1 {
        Ok(JobPlan::Single)
    } else {
        Ok(JobPlan::Parallel)
    }
}

/// The log line that opens a job of `total` files.
pub fn start_banner(plan: JobPlan, total: usize) -> (r: String)
    ensures
        r@ == (if plan == JobPlan::Compare {
            "=== PDF照合解析開始 ("@
        } else {
            "=== PDF個別解析開始 ("@
        }) + decimal_text(total as nat) + " ファイル) ==="@,
{
    let mut out = match plan {
        JobPlan::Compare => String::from_str("=== PDF照合解析開始 ("),
        _ => String::from_str("=== PDF個別解析開始 ("),
    };
    out.append(decimal(total as u64).as_str());
    out.append(" ファイル) ===");
    out
}

/// The first line of a text, or the empty text if it has no line.
pub open spec fn first_line(text: Seq<char>) -> Seq<char> {
    if split_lines(text).len() == 0 {
        seq![]
    } else {
        split_lines(text)[0]
    }
}

/// The log line that quotes the first line of the user's instruction, or
/// none for an empty instruction.
pub fn custom_log(custom_instruction: &str) -> (r: Option<String>)
    ensures
        custom_instruction@.len() == 0 <==> r is None,
        r is Some ==> r.unwrap()@ == "カスタム指示: "@ + first_line(custom_instruction@),
{
    if custom_instruction.unicode_len() == 0 {
        return None;
    }
    let all = lines(custom_instruction);
    let mut out = String::from_str("カスタム指示: ");
    if all.len() > 0 {
        proof {
            assert(strs(all@)[0] == all@[0]@);
        }
        out.append(all[0].as_str());
    } else {
        proof {
            assert(out@ + Seq::<char>::empty() =~= out@);
        }
    }
    Some(out)
}

/// The log line that says what a job is working on: the model for a
/// comparison or a job of several files, the file for a single one.
pub fn progress_log(plan: JobPlan, model: &str, total: usize, file_name: &str) -> (r: String)
    ensures
        r@ == match plan {
            JobPlan::Compare => model@ + " で照合中..."@,
            JobPlan::Single => file_name@ + " を解析中..."@,
            JobPlan::Parallel => model@ + " で "@ + decimal_text(total as nat)
                + " ファイルを並列解析中..."@,
        },
{
    match plan {
        JobPlan::Compare => {
            let mut out = String::from_str(model);
            out.append(" で照合中...");
            out
        },
        JobPlan::Single => {
            let mut out = String::from_str(file_name);
            out.append(" を解析中...");
            out
        },
        JobPlan::Parallel => {
            let mut out = String::from_str(model);
            out.append(" で ");
            out.append(decimal(total as u64).as_str());
            out.append(" ファイルを並列解析中...");
            out
        },
    }
}

/// The log line and its level for a job of one unit that ended: success
/// is reported as such, a failure with its error.
pub fn outcome_log(plan: JobPlan, outcome: &Result<String, String>) -> (r: (String, String))
    ensures
        r.0@ == match outcome {
            Ok(_) => if plan == JobPlan::Compare {
                "✓ 照合完了"@
            } else {
                "✓ 解析完了"@
            },
            Err(e) => (if plan == JobPlan::Compare {
                "照合エラー: "@
            } else {
                "解析エラー: "@
            }) + e@,
        },
        r.1@ == if outcome is Ok {
            "success"@
        } else {
            "error"@
        },
{
    match outcome {
        Ok(_) => {
            let text = match plan {
                JobPlan::Compare => "✓ 照合完了",
                _ => "✓ 解析完了",
            };
            (String::from_str(text), String::from_str("success"))
        },
        Err(e) => {
            let mut out = match plan {
                JobPlan::Compare => String::from_str("照合エラー: "),
                _ => String::from_str("解析エラー: "),
            };
            out.append(e.as_str());
            (out, String::from_str("error"))
        },
    }
}

/// The prompt section that quotes the applying guidelines, or nothing without any.
pub open spec fn guidelines_section(text: Option<Seq<char>>) -> Seq<char> {
    match text {
        Some(g) => "\n## 該当ガイドライン\n"@ + g + "\n"@,
        None => seq![],
    }
}

/// The prompt section that quotes the user's instruction word for word, or
/// nothing for an empty instruction.
pub open spec fn custom_section(instruction: Seq<char>) -> Seq<char> {
    if instruction.len() == 0 {
        seq![]
    } else {
        "\n## ユーザー指定のチェック項目\n以下の項目も必ず確認してください：\n"@ + instruction
            + "\n"@
    }
}

/// The prompt for one document: rules, guidelines, output format, the user's
/// instruction, the history context and the file's name, in this order.
pub open spec fn single_prompt(
    file_name: Seq<char>,
    guidelines: Option<Seq<char>>,
    instruction: Seq<char>,
    context: Seq<char>,
) -> Seq<char> {
    SINGLE_RULES@ + guidelines_section(guidelines) + SINGLE_FORMAT@ + custom_section(instruction)
        + context + "\nファイル: "@ + file_name
}

/// The prompt that compares several documents: the files' names, the check
/// points, guidelines, output format, the user's instruction and the
/// history context, in this order.
pub open spec fn compare_prompt(
    file_names: Seq<Seq<char>>,
    guidelines: Option<Seq<char>>,
    instruction: Seq<char>,
    context: Seq<char>,
) -> Seq<char> {
    COMPARE_HEAD@ + join_spec(file_names, "\n"@) + COMPARE_CHECKS@ + guidelines_section(guidelines)
        + COMPARE_FORMAT@ + custom_section(instruction) + context
}

/// The guideline text that applies, for guidelines that may be missing.
pub open spec fn applying_guidelines(g: Option<GuidelinesView>, types: Seq<Seq<char>>) -> Option<
    Seq<char>,
> {
    match g {
        Some(v) => relevant_text(v, types),
        None => None,
    }
}

/// The views of guidelines that may be missing.
pub open spec fn guidelines_view(g: Option<&Guidelines>) -> Option<GuidelinesView> {
    match g {
        Some(v) => Some(v@),
        None => None,
    }
}

fn guidelines_section_text(text: &Option<String>) -> (r: String)
    ensures
        r@ == guidelines_section(opt_view(*text)),
{
    match text {
        Some(g) => {
            let mut out = String::from_str("\n## 該当ガイドライン\n");
            out.append(g.as_str());
            out.append("\n");
            out
        },
        None => String::new(),
    }
}

fn custom_section_text(instruction: &str) -> (r: String)
    ensures
        r@ == custom_section(instruction@),
{
    if instruction.unicode_len() == 0 {
        String::new()
    } else {
        let mut out = String::from_str(
            "\n## ユーザー指定のチェック項目\n以下の項目も必ず確認してください：\n",
        );
        out.append(instruction);
        out.append("\n");
        out
    }
}

/// Builds the prompt for one document from the project's guidelines and
/// history and the user's instruction.
pub fn build_single_prompt(
    file_name: &str,
    guidelines: Option<&Guidelines>,
    history: &AnalysisHistory,
    custom_instruction: &str,
) -> (r: String)
    ensures
        r@ == single_prompt(
            file_name@,
            applying_guidelines(guidelines_view(guidelines), document_types_of(file_name@)),
            custom_instruction@,
            history_context(history@.entries),
        ),
{
    let relevant = get_relevant_guidelines(guidelines, file_name);
    let section = guidelines_section_text(&relevant);
    let custom = custom_section_text(custom_instruction);
    let context = build_history_context(history);
    let mut out = String::from_str(SINGLE_RULES);
    out.append(section.as_str());
    out.append(SINGLE_FORMAT);
    out.append(custom.as_str());
    out.append(context.as_str());
    out.append("\nファイル: ");
    out.append(file_name);
    out
}

/// Builds the prompt that compares several documents; the guidelines are
/// those of every document type that one of the file names suggests.
pub fn build_compare_prompt(
    file_names: &Vec<String>,
    guidelines: Option<&Guidelines>,
    history: &AnalysisHistory,
    custom_instruction: &str,
) -> (r: String)
    ensures
        r@ == compare_prompt(
            strs(file_names@),
            applying_guidelines(guidelines_view(guidelines), collected_types(strs(file_names@))),
            custom_instruction@,
            history_context(history@.entries),
        ),
{
    let relevant = match guidelines {
        Some(g) => {
            let types = collect_document_types(file_names);
            relevant_for_types(g, &types)
        },
        None => None,
    };
    let section = guidelines_section_text(&relevant);
    let custom = custom_section_text(custom_instruction);
    let context = build_history_context(history);
    let names = join(file_names, "\n");
    let mut out = String::from_str(COMPARE_HEAD);
    out.append(names.as_str());
    out.append(COMPARE_CHECKS);
    out.append(section.as_str());
    out.append(COMPARE_FORMAT);
    out.append(custom.as_str());
    out.append(context.as_str());
    out
}

/// The marker of a problem line in a comparison result.
pub open spec fn warning_marker_spec() -> Seq<Seq<char>> {
    seq!["⚠"@]
}

/// The entry that records a comparison for one of its files.
pub open spec fn comparison_entry(
    file_name: Seq<char>,
    file_path: Seq<char>,
    all_names: Seq<Seq<char>>,
    result: Seq<char>,
    analyzed_at: Seq<char>,
) -> EntryView {
    EntryView {
        file_name,
        file_path,
        analyzed_at,
        document_type: Some("照合解析"@),
        summary: "【照合解析】対象: "@ + join_spec(all_names, ", "@),
        issues: marked_lines(split_lines(result), warning_marker_spec()),
    }
}

/// The entries after the first `count` files of a comparison were recorded,
/// one after the other, without a bound on the length.
pub open spec fn comparison_recorded(
    entries: Seq<EntryView>,
    paths: Seq<Seq<char>>,
    names: Seq<Seq<char>>,
    result: Seq<char>,
    analyzed_at: Seq<char>,
    count: nat,
) -> Seq<EntryView>
    recommends
        count <= names.len(),
        names.len() == paths.len(),
    decreases count,
{
    if count == 0 {
        entries
    } else {
        let i = (count - 1) as int;
        without_name(
            comparison_recorded(entries, paths, names, result, analyzed_at, (count - 1) as nat),
            names[i],
        ).push(comparison_entry(names[i], paths[i], names, result, analyzed_at))
    }
}

/// Records a comparison's result for every one of its files: each file's
/// older entry gives way to the new one, in the files' order, and in the
/// end only the newest `MAX_ENTRIES` entries stay.
pub fn record_comparison(
    history: &mut AnalysisHistory,
    paths: &Vec<String>,
    file_names: &Vec<String>,
    result: &str,
    analyzed_at: &str,
)
    requires
        paths@.len() == file_names@.len(),
    ensures
        final(history)@.project_folder == old(history)@.project_folder,
        final(history)@.entries == keep_latest(
            comparison_recorded(
                old(history)@.entries,
                strs(paths@),
                strs(file_names@),
                result@,
                analyzed_at@,
                file_names@.len(),
            ),
            MAX_ENTRIES as nat,
        ),
{
    let all = lines(result);
    let mut markers: Vec<String> = Vec::new();
    markers.push(String::from_str("⚠"));
    proof {
        assert(strs(markers@) =~= warning_marker_spec());
    }
    let mut summary = String::from_str("【照合解析】対象: ");
    let listed = join(file_names, ", ");
    summary.append(listed.as_str());
    let mut i: usize = 0;
    while i < file_names.len()
        invariant
            i <= file_names@.len(),
            paths@.len() == file_names@.len(),
            strs(all@) == split_lines(result@),
            strs(markers@) == warning_marker_spec(),
            summary@ == "【照合解析】対象: "@ + join_spec(strs(file_names@), ", "@),
            history@.project_folder == old(history)@.project_folder,
            history@.entries == comparison_recorded(
                old(history)@.entries,
                strs(paths@),
                strs(file_names@),
                result@,
                analyzed_at@,
                i as nat,
            ),
        decreases file_names@.len() - i,
    {
        let entry = AnalysisHistoryEntry {
            file_name: file_names[i].clone(),
            file_path: paths[i].clone(),
            analyzed_at: String::from_str(analyzed_at),
            document_type: Some(String::from_str("照合解析")),
            summary: summary.clone(),
            issues: select_marked(&all, &markers),
        };
        proof {
            assert(entry@ == comparison_entry(
                strs(file_names@)[i as int],
                strs(paths@)[i as int],
                strs(file_names@),
                result@,
                analyzed_at@,
            ));
        }
        replace_entry(history, entry);
        i += 1;
    }
    keep_latest_entries(history);
}

/// What follows a finished model call: the job's result, and the files
/// whose PDFs get the result embedded.
pub struct JobEffects {
    pub output: Result<String, String>,
    pub embed_paths: Vec<String>,
}

/// Closes a comparison: a result is recorded in the history for every file
/// and is to be embedded in every file; a failure changes nothing and
/// embeds nothing.
pub fn finish_comparison(
    history: &mut AnalysisHistory,
    paths: &Vec<String>,
    file_names: &Vec<String>,
    outcome: Result<String, String>,
    analyzed_at: &str,
) -> (r: JobEffects)
    requires
        paths@.len() == file_names@.len(),
    ensures
        r.output == outcome,
        outcome is Err ==> *final(history) == *old(history) && r.embed_paths@.len() == 0,
        outcome is Ok ==> r.embed_paths@ == paths@ && final(history)@.project_folder == old(
            history,
        )@.project_folder && final(history)@.entries == keep_latest(
            comparison_recorded(
                old(history)@.entries,
                strs(paths@),
                strs(file_names@),
                outcome->Ok_0@,
                analyzed_at@,
                file_names@.len(),
            ),
            MAX_ENTRIES as nat,
        ),
{
    match outcome {
        Ok(result) => {
            record_comparison(history, paths, file_names, result.as_str(), analyzed_at);
            JobEffects { output: Ok(result), embed_paths: copy_strings(paths) }
        },
        Err(e) => JobEffects { output: Err(e), embed_paths: Vec::new() },
    }
}

/// Closes the analysis of one file: a result is recorded in the history
/// and is to be embedded in the file; a failure changes nothing and embeds
/// nothing.
pub fn finish_single(
    history: &mut AnalysisHistory,
    file_name: &str,
    path: &str,
    outcome: Result<String, String>,
    analyzed_at: &str,
) -> (r: JobEffects)
    ensures
        r.output == outcome,
        outcome is Err ==> *final(history) == *old(history) && r.embed_paths@.len() == 0,
        outcome is Ok ==> strs(r.embed_paths@) == seq![path@] && final(history)@.project_folder
            == old(history)@.project_folder && final(history)@.entries == recorded(
            old(history)@.entries,
            entry_of_result(file_name@, path@, outcome->Ok_0@, analyzed_at@),
        ),
{
    match outcome {
        Ok(result) => {
            let entry = entry_from_result(file_name, path, result.as_str(), analyzed_at);
            append_or_replace(history, entry);
            let mut embed_paths: Vec<String> = Vec::new();
            embed_paths.push(String::from_str(path));
            proof {
                assert(strs(embed_paths@) =~= seq![path@]);
            }
            JobEffects { output: Ok(result), embed_paths }
        },
        Err(e) => JobEffects { output: Err(e), embed_paths: Vec::new() },
    }
}

/// What became of one file of a job with several files.
#[derive(Clone)]
pub struct AnalysisResult {
    pub file_name: String,
    pub path: String,
    pub result: Option<String>,
    pub error: Option<String>,
}

/// What a unit's record holds.
pub ghost struct ResultView {
    pub file_name: Seq<char>,
    pub path: Seq<char>,
    pub result: Option<Seq<char>>,
    pub error: Option<Seq<char>>,
}

impl View for AnalysisResult {
    type V = ResultView;

    open spec fn view(&self) -> ResultView {
        ResultView {
            file_name: self.file_name@,
            path: self.path@,
            result: opt_view(self.result),
            error: opt_view(self.error),
        }
    }
}

/// The views of a sequence of unit records.
pub open spec fn result_views(v: Seq<AnalysisResult>) -> Seq<ResultView> {
    Seq::new(v.len(), |i: int| v[i]@)
}

/// The record of a unit from what its analysis returned: the text of a
/// success, or the error of a failure.
pub fn unit_result(file_name: String, path: String, outcome: Result<String, String>) -> (r:
    AnalysisResult)
    ensures
        r.file_name == file_name,
        r.path == path,
        match outcome {
            Ok(text) => r.result == Some(text) && r.error is None,
            Err(e) => r.result is None && r.error == Some(e),
        },
{
    match outcome {
        Ok(text) => AnalysisResult { file_name, path, result: Some(text), error: None },
        Err(e) => AnalysisResult { file_name, path, result: None, error: Some(e) },
    }
}

/// The body of a unit's section: its result, or its error behind the error mark.
pub open spec fn section_body(r: ResultView) -> Seq<char> {
    match r.result {
        Some(text) => text,
        None => match r.error {
            Some(e) => "⚠ エラー: "@ + e,
            None => seq![],
        },
    }
}

/// A unit's section of the combined report, under the file's heading.
pub open spec fn section_text(r: ResultView) -> Seq<char> {
    "\n## 📄 "@ + r.file_name + "\n"@ + "---\n"@ + section_body(r) + "\n\n"@
}

/// The combined report: every unit's section, in the units' order.
pub open spec fn report_text(results: Seq<ResultView>) -> Seq<char>
    decreases results.len(),
{
    if results.len() == 0 {
        seq![]
    } else {
        report_text(results.drop_last()) + section_text(results.last())
    }
}

/// The number of units that did not fail.
pub open spec fn successes(results: Seq<ResultView>) -> nat
    decreases results.len(),
{
    if results.len() == 0 {
        0
    } else {
        successes(results.drop_last()) + if results.last().result is Some {
            1nat
        } else {
            0nat
        }
    }
}

/// The successes are never more than the units.
pub proof fn lemma_successes_bounded(results: Seq<ResultView>)
    ensures
        successes(results) <= results.len(),
    decreases results.len(),
{
    if results.len() > 0 {
        lemma_successes_bounded(results.drop_last());
    }
}

fn section(r: &AnalysisResult) -> (out: String)
    ensures
        out@ == section_text(r@),
{
    let mut out = String::from_str("\n## 📄 ");
    out.append(r.file_name.as_str());
    out.append("\n");
    out.append("---\n");
    match &r.result {
        Some(text) => {
            out.append(text.as_str());
        },
        None => {
            match &r.error {
                Some(e) => {
                    out.append("⚠ エラー: ");
                    out.append(e.as_str());
                },
                None => {},
            }
        },
    }
    out.append("\n\n");
    proof {
        assert(out@ =~= section_text(r@));
    }
    out
}

/// The combined report of a job with several files, in the order of its units.
pub fn combined_report(results: &Vec<AnalysisResult>) -> (r: String)
    ensures
        r@ == report_text(result_views(results@)),
{
    let mut out = String::new();
    let mut i: usize = 0;
    while i < results.len()
        invariant
            i <= results@.len(),
            out@ == report_text(result_views(results@).take(i as int)),
        decreases results@.len() - i,
    {
        proof {
            assert(result_views(results@).take(i + 1).drop_last() =~= result_views(
                results@,
            ).take(i as int));
        }
        let part = section(&results[i]);
        out.append(part.as_str());
        i += 1;
    }
    proof {
        assert(result_views(results@).take(i as int) =~= result_views(results@));
    }
    out
}

/// The number of units that did not fail.
pub fn success_count(results: &Vec<AnalysisResult>) -> (r: usize)
    ensures
        r == successes(result_views(results@)),
        r <= results@.len(),
{
    let mut count: usize = 0;
    let mut i: usize = 0;
    while i < results.len()
        invariant
            i <= results@.len(),
            count <= i,
            count == successes(result_views(results@).take(i as int)),
        decreases results@.len() - i,
    {
        proof {
            assert(result_views(results@).take(i + 1).drop_last() =~= result_views(
                results@,
            ).take(i as int));
        }
        if results[i].result.is_some() {
            count += 1;
        }
        i += 1;
    }
    proof {
        assert(result_views(results@).take(i as int) =~= result_views(results@));
    }
    count
}

/// The log line that closes a job with several files: successes of units.
pub fn completion_log(success: usize, total: usize) -> (r: String)
    ensures
        r@ == "✓ 解析完了 ("@ + decimal_text(success as nat) + "/"@ + decimal_text(total as nat)
            + ")"@,
{
    let mut out = String::from_str("✓ 解析完了 (");
    let s = decimal(success as u64);
    out.append(s.as_str());
    out.append("/");
    let t = decimal(total as u64);
    out.append(t.as_str());
    out.append(")");
    out
}

/// The name that stands for the file at `index` when its path gives none.
pub fn indexed_file_name(index: usize) -> (r: String)
    ensures
        r@ == "file_"@ + decimal_text(index as nat) + ".pdf"@,
{
    let mut out = String::from_str("file_");
    let digits = decimal(index as u64);
    out.append(digits.as_str());
    out.append(".pdf");
    out
}

/// The name of the unit at `index` of a job with several files.
pub fn task_id(index: usize) -> (r: String)
    ensures
        r@ == "task_"@ + decimal_text(index as nat),
{
    let mut out = String::from_str("task_");
    let digits = decimal(index as u64);
    out.append(digits.as_str());
    out
}

/// The prefix of the scratch directory of the named unit.
pub fn temp_prefix(task: &str) -> (r: String)
    ensures
        r@ == ".shoruichecker_temp_"@ + task@,
{
    let mut out = String::from_str(".shoruichecker_temp_");
    out.append(task);
    out
}

/// The log line that names one file of a comparison.
pub fn file_list_line(file_name: &str) -> (r: String)
    ensures
        r@ == "  - "@ + file_name@,
{
    let mut out = String::from_str("  - ");
    out.append(file_name);
    out
}

} // verus!
