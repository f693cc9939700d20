//! Per-project analysis history: bounded, keyed by file name, newest last.

use vstd::prelude::*;
use vstd::string::StringExecFns;
use crate::text::{
    contains, first_n, hex, hex_text, is_digit_char, is_substring, join, join_spec, lines,
    marked_lines, opt_view, select_marked, split_lines, strs, take_first,
};

verus! {

/// The number of entries that a project's history keeps.
pub const MAX_ENTRIES: usize = 50;

/// The number of entries, newest first, that the prompt context quotes.
pub const CONTEXT_ENTRIES: usize = 10;

/// One analysed file.
#[derive(Clone)]
pub struct AnalysisHistoryEntry {
    pub file_name: String,
    pub file_path: String,
    pub analyzed_at: String,
    pub document_type: Option<String>,
    pub summary: String,
    pub issues: Vec<String>,
}

/// What an entry holds, as character sequences.
pub ghost struct EntryView {
    pub file_name: Seq<char>,
    pub file_path: Seq<char>,
    pub analyzed_at: Seq<char>,
    pub document_type: Option<Seq<char>>,
    pub summary: Seq<char>,
    pub issues: Seq<Seq<char>>,
}

impl View for AnalysisHistoryEntry {
    type V = EntryView;

    open spec fn view(&self) -> EntryView {
        EntryView {
            file_name: self.file_name@,
            file_path: self.file_path@,
            analyzed_at: self.analyzed_at@,
            document_type: opt_view(self.document_type),
            summary: self.summary@,
            issues: strs(self.issues@),
        }
    }
}

/// The history of one project folder, oldest entry first.
#[derive(Clone)]
pub struct AnalysisHistory {
    pub project_folder: String,
    pub entries: Vec<AnalysisHistoryEntry>,
}

/// What a history holds.
pub ghost struct HistoryView {
    pub project_folder: Seq<char>,
    pub entries: Seq<EntryView>,
}

/// The views of a sequence of entries.
pub open spec fn entry_views(v: Seq<AnalysisHistoryEntry>) -> Seq<EntryView> {
    Seq::new(v.len(), |i: int| v[i]@)
}

impl View for AnalysisHistory {
    type V = HistoryView;

    open spec fn view(&self) -> HistoryView {
        HistoryView { project_folder: self.project_folder@, entries: entry_views(self.entries@) }
    }
}

impl Default for AnalysisHistory {
    fn default() -> (r: Self)
        ensures
            r@.project_folder.len() == 0,
            r@.entries.len() == 0,
    {
        AnalysisHistory { project_folder: String::new(), entries: Vec::new() }
    }
}

/// The entries whose file name is not `name`, in their order.
pub open spec fn without_name(entries: Seq<EntryView>, name: Seq<char>) -> Seq<EntryView>
    decreases entries.len(),
{
    if entries.len() == 0 {
        seq![]
    } else if entries.last().file_name == name {
        without_name(entries.drop_last(), name)
    } else {
        without_name(entries.drop_last(), name).push(entries.last())
    }
}

/// The newest `limit` entries, or all of them if there are no more.
pub open spec fn keep_latest(entries: Seq<EntryView>, limit: nat) -> Seq<EntryView> {
    if entries.len() > limit {
        entries.skip(entries.len() - limit)
    } else {
        entries
    }
}

/// A history's entries after `entry` was recorded: an older entry for the
/// same file name is gone, `entry` stands last, and of more than
/// `MAX_ENTRIES` the oldest are dropped.
pub open spec fn recorded(entries: Seq<EntryView>, entry: EntryView) -> Seq<EntryView> {
    keep_latest(without_name(entries, entry.file_name).push(entry), MAX_ENTRIES as nat)
}

/// Removing a name keeps no entry of that name, adds none and keeps every other.
pub proof fn lemma_without_name(entries: Seq<EntryView>, name: Seq<char>)
    ensures
        without_name(entries, name).len() <= entries.len(),
        forall|j: int|
            0 <= j < without_name(entries, name).len() ==> (#[trigger] without_name(
                entries,
                name,
            )[j]).file_name != name,
        (forall|i: int| 0 <= i < entries.len() ==> (#[trigger] entries[i]).file_name != name)
            ==> without_name(entries, name) == entries,
    decreases entries.len(),
{
    if entries.len() > 0 {
        lemma_without_name(entries.drop_last(), name);
        if forall|i: int| 0 <= i < entries.len() ==> (#[trigger] entries[i]).file_name != name {
            assert forall|i: int| 0 <= i < entries.drop_last().len() implies (
            #[trigger] entries.drop_last()[i]).file_name != name by {
                assert(entries.drop_last()[i] == entries[i]);
            }
            assert(entries.drop_last().push(entries.last()) =~= entries);
        }
    } else {
        assert(without_name(entries, name) =~= entries);
    }
}

/// Where a name occurs exactly once, removing it removes exactly that entry.
pub proof fn lemma_without_name_once(entries: Seq<EntryView>, name: Seq<char>, at: int)
    requires
        0 <= at < entries.len(),
        entries[at].file_name == name,
        forall|i: int|
            0 <= i < entries.len() && i != at ==> (#[trigger] entries[i]).file_name != name,
    ensures
        without_name(entries, name) == entries.remove(at),
    decreases entries.len(),
{
    let rest = entries.drop_last();
    if at == entries.len() - 1 {
        assert forall|i: int| 0 <= i < rest.len() implies (#[trigger] rest[i]).file_name
            != name by {
            assert(rest[i] == entries[i]);
        }
        lemma_without_name(rest, name);
        assert(entries.remove(at) =~= rest);
    } else {
        assert(rest[at] == entries[at]);
        assert forall|i: int| 0 <= i < rest.len() && i != at implies (
        #[trigger] rest[i]).file_name != name by {
            assert(rest[i] == entries[i]);
        }
        lemma_without_name_once(rest, name, at);
        assert(entries.last().file_name != name);
        assert(rest.remove(at).push(entries.last()) =~= entries.remove(at));
    }
}

/// A history never holds more than `MAX_ENTRIES` entries after a record; a
/// full history that gets an entry under a new name loses exactly its oldest.
pub proof fn lemma_history_bounded(entries: Seq<EntryView>, entry: EntryView)
    ensures
        recorded(entries, entry).len() <= MAX_ENTRIES,
        recorded(entries, entry).len() >= 1,
        (entries.len() == MAX_ENTRIES && forall|i: int|
            0 <= i < entries.len() ==> (#[trigger] entries[i]).file_name != entry.file_name)
            ==> recorded(entries, entry) == entries.drop_first().push(entry),
{
    lemma_without_name(entries, entry.file_name);
    if entries.len() == MAX_ENTRIES && forall|i: int|
        0 <= i < entries.len() ==> (#[trigger] entries[i]).file_name != entry.file_name {
        assert(entries.push(entry).skip(1) =~= entries.drop_first().push(entry));
    }
}

/// After a record the history holds exactly one entry of that file name: the
/// new one, in the last place.
pub proof fn lemma_history_dedupe(entries: Seq<EntryView>, entry: EntryView)
    ensures
        recorded(entries, entry).len() >= 1,
        recorded(entries, entry).last() == entry,
        forall|j: int|
            0 <= j < recorded(entries, entry).len() - 1 ==> (#[trigger] recorded(
                entries,
                entry,
            )[j]).file_name != entry.file_name,
{
    lemma_without_name(entries, entry.file_name);
    let kept = without_name(entries, entry.file_name);
    let all = kept.push(entry);
    let r = recorded(entries, entry);
    assert forall|j: int| 0 <= j < r.len() - 1 implies (#[trigger] r[j]).file_name
        != entry.file_name by {
        if all.len() > MAX_ENTRIES {
            assert(r[j] == kept[j + (all.len() - MAX_ENTRIES)]);
        } else {
            assert(r[j] == kept[j]);
        }
    }
}

/// A copy of a list of strings.
pub fn copy_strings(v: &Vec<String>) -> (r: Vec<String>)
    ensures
        r@ == v@,
{
    let mut out: Vec<String> = Vec::new();
    let mut i: usize = 0;
    while i < v.len()
        invariant
            i <= v@.len(),
            out@ == v@.take(i as int),
        decreases v@.len() - i,
    {
        out.push(v[i].clone());
        proof {
            assert(out@ =~= v@.take(i + 1));
        }
        i += 1;
    }
    proof {
        assert(v@.take(v@.len() as int) =~= v@);
    }
    out
}

impl AnalysisHistoryEntry {
    /// A copy of the entry.
    pub fn duplicate(&self) -> (r: Self)
        ensures
            r@ == self@,
    {
        let document_type = match &self.document_type {
            Some(t) => Some(t.clone()),
            None => None,
        };
        AnalysisHistoryEntry {
            file_name: self.file_name.clone(),
            file_path: self.file_path.clone(),
            analyzed_at: self.analyzed_at.clone(),
            document_type,
            summary: self.summary.clone(),
            issues: copy_strings(&self.issues),
        }
    }
}

/// Puts `entry` last in the history after removing an older entry of the
/// same file name; the length is not bounded here.
pub fn replace_entry(history: &mut AnalysisHistory, entry: AnalysisHistoryEntry)
    ensures
        final(history)@.project_folder == old(history)@.project_folder,
        final(history)@.entries == without_name(old(history)@.entries, entry@.file_name).push(
            entry@,
        ),
{
    let ghost before = history@.entries;
    let mut kept: Vec<AnalysisHistoryEntry> = Vec::new();
    let mut i: usize = 0;
    while i < history.entries.len()
        invariant
            i <= history.entries@.len(),
            history@.entries == before,
            history@.project_folder == old(history)@.project_folder,
            entry_views(kept@) == without_name(before.take(i as int), entry@.file_name),
        decreases history.entries@.len() - i,
    {
        proof {
            assert(before.take(i + 1).drop_last() =~= before.take(i as int));
            assert(before.take(i + 1).last() == history.entries@[i as int]@);
        }
        if !(history.entries[i].file_name == entry.file_name) {
            let ghost prev = entry_views(kept@);
            kept.push(history.entries[i].duplicate());
            proof {
                assert(entry_views(kept@) =~= prev.push(history.entries@[i as int]@));
            }
        }
        i += 1;
    }
    proof {
        assert(before.take(i as int) =~= before);
    }
    let ghost stayed = entry_views(kept@);
    kept.push(entry);
    proof {
        assert(entry_views(kept@) =~= stayed.push(entry@));
    }
    history.entries = kept;
}

/// Drops the oldest entries of a history that holds more than `MAX_ENTRIES`.
pub fn keep_latest_entries(history: &mut AnalysisHistory)
    ensures
        final(history)@.project_folder == old(history)@.project_folder,
        final(history)@.entries == keep_latest(old(history)@.entries, MAX_ENTRIES as nat),
{
    let n = history.entries.len();
    if n > MAX_ENTRIES {
        let start = n - MAX_ENTRIES;
        let ghost before = history@.entries;
        let mut latest: Vec<AnalysisHistoryEntry> = Vec::new();
        let mut k: usize = start;
        while k < n
            invariant
                start <= k <= n,
                n == history.entries@.len(),
                history@.entries == before,
                history@.project_folder == old(history)@.project_folder,
                entry_views(latest@) == before.subrange(start as int, k as int),
            decreases n - k,
        {
            let ghost prev = entry_views(latest@);
            latest.push(history.entries[k].duplicate());
            proof {
                assert(entry_views(latest@) =~= prev.push(history.entries@[k as int]@));
                assert(entry_views(latest@) =~= before.subrange(start as int, k + 1));
            }
            k += 1;
        }
        proof {
            assert(before.subrange(start as int, n as int) =~= before.skip(start as int));
        }
        history.entries = latest;
    }
}

/// Records `entry` in the history: an older entry of the same file name is
/// removed, the new one is appended, and only the newest `MAX_ENTRIES` stay.
pub fn append_or_replace(history: &mut AnalysisHistory, entry: AnalysisHistoryEntry)
    ensures
        final(history)@.project_folder == old(history)@.project_folder,
        final(history)@.entries == recorded(old(history)@.entries, entry@),
        1 <= final(history)@.entries.len() <= MAX_ENTRIES,
        final(history)@.entries.last() == entry@,
{
    proof {
        lemma_history_bounded(history@.entries, entry@);
        lemma_history_dedupe(history@.entries, entry@);
    }
    replace_entry(history, entry);
    keep_latest_entries(history);
}

/// The hash of a string under `DefaultHasher::new()` of std, whose keys are fixed.
pub uninterp spec fn default_hash_of(s: Seq<char>) -> u64;

/// `DefaultHasher` of std, freshly made, fed the string and finished: the
/// result is a function of the string's characters.
#[verifier::external_body]
fn default_hash(s: &str) -> (r: u64)
    ensures
        r == default_hash_of(s@),
{
    let mut hasher = std::collections::hash_map::DefaultHasher::new();
    std::hash::Hash::hash(s, &mut hasher);
    std::hash::Hasher::finish(&hasher)
}

/// The hash that names a project folder's history: equal strings give equal
/// hashes, and strings that differ in spelling are different folders.
pub fn path_hash(s: &str) -> (r: u64)
    ensures
        r == default_hash_of(s@),
{
    default_hash(s)
}

/// The name of the file that holds a project folder's history.
pub open spec fn history_file_name_spec(project_folder: Seq<char>) -> Seq<char> {
    hex_text(default_hash_of(project_folder) as nat) + ".json"@
}

/// The name of the file that holds a project folder's history: the folder's
/// hash in hexadecimal, with the extension `.json`.
pub fn history_file_name(project_folder: &str) -> (r: String)
    ensures
        r@ == history_file_name_spec(project_folder@),
{
    let mut name = hex(path_hash(project_folder));
    name.append(".json");
    name
}

/// An empty history for a project folder.
pub fn empty_history(project_folder: &str) -> (r: AnalysisHistory)
    ensures
        r@.project_folder == project_folder@,
        r@.entries == Seq::<EntryView>::empty(),
{
    let r = AnalysisHistory { project_folder: String::from_str(project_folder), entries: Vec::new() };
    proof {
        assert(r@.entries =~= Seq::<EntryView>::empty());
    }
    r
}

/// The history that a load yields: what was read and parsed, or an empty
/// history for the folder when nothing was.
pub fn history_or_empty(loaded: Option<AnalysisHistory>, project_folder: &str) -> (r:
    AnalysisHistory)
    ensures
        loaded is Some ==> r == loaded.unwrap(),
        loaded is None ==> r@.project_folder == project_folder@ && r@.entries == Seq::<
            EntryView,
        >::empty(),
{
    match loaded {
        Some(h) => h,
        None => empty_history(project_folder),
    }
}

/// The document type that a result text names, by the first keyword found.
pub open spec fn result_document_type(result: Seq<char>) -> Option<Seq<char>> {
    if is_substring("契約書"@, result) {
        Some("契約書"@)
    } else if is_substring("見積"@, result) {
        Some("見積書"@)
    } else if is_substring("請求"@, result) {
        Some("請求書"@)
    } else if is_substring("配置実績"@, result) || is_substring("交通誘導"@, result) {
        Some("交通誘導員配置実績"@)
    } else {
        None
    }
}

/// The markers of a line that reports a problem.
pub open spec fn issue_markers_spec() -> Seq<Seq<char>> {
    seq!["⚠"@, "警告"@, "不整合"@, "矛盾"@]
}

/// The markers of a line that reports a problem.
pub fn issue_markers() -> (r: Vec<String>)
    ensures
        strs(r@) == issue_markers_spec(),
{
    let mut r: Vec<String> = Vec::new();
    r.push(String::from_str("⚠"));
    r.push(String::from_str("警告"));
    r.push(String::from_str("不整合"));
    r.push(String::from_str("矛盾"));
    proof {
        assert(strs(r@) =~= issue_markers_spec());
    }
    r
}

/// The number of leading lines of a result that make up an entry's summary.
pub const SUMMARY_LINES: usize = 10;

/// The entry that records a result: its document type by keyword, its
/// problem lines trimmed, and its first lines as the summary.
pub open spec fn entry_of_result(
    file_name: Seq<char>,
    file_path: Seq<char>,
    result: Seq<char>,
    analyzed_at: Seq<char>,
) -> EntryView {
    EntryView {
        file_name,
        file_path,
        analyzed_at,
        document_type: result_document_type(result),
        summary: join_spec(first_n(split_lines(result), SUMMARY_LINES as nat), "\n"@),
        issues: marked_lines(split_lines(result), issue_markers_spec()),
    }
}

/// The document type that a result text names.
pub fn detect_result_type(result: &str) -> (r: Option<String>)
    ensures
        opt_view(r) == result_document_type(result@),
{
    if contains(result, "契約書") {
        Some(String::from_str("契約書"))
    } else if contains(result, "見積") {
        Some(String::from_str("見積書"))
    } else if contains(result, "請求") {
        Some(String::from_str("請求書"))
    } else if contains(result, "配置実績") || contains(result, "交通誘導") {
        Some(String::from_str("交通誘導員配置実績"))
    } else {
        None
    }
}

/// Builds the history entry of a result that was obtained at `analyzed_at`.
pub fn entry_from_result(file_name: &str, file_path: &str, result: &str, analyzed_at: &str) -> (r:
    AnalysisHistoryEntry)
    ensures
        r@ == entry_of_result(file_name@, file_path@, result@, analyzed_at@),
{
    let document_type = detect_result_type(result);
    let all = lines(result);
    let markers = issue_markers();
    let issues = select_marked(&all, &markers);
    let head = take_first(&all, SUMMARY_LINES);
    let summary = join(&head, "\n");
    AnalysisHistoryEntry {
        file_name: String::from_str(file_name),
        file_path: String::from_str(file_path),
        analyzed_at: String::from_str(analyzed_at),
        document_type,
        summary,
        issues,
    }
}

/// The form of a time stamp: a year of four digits or more, then month,
/// day, hour, minute and second of two digits each, as in
/// `2024-01-31 23:59:58`.
pub open spec fn is_time_stamp(s: Seq<char>) -> bool {
    &&& s.len() >= 19
    &&& s[s.len() - 15] == '-'
    &&& is_digit_char(s[s.len() - 14])
    &&& is_digit_char(s[s.len() - 13])
    &&& s[s.len() - 12] == '-'
    &&& is_digit_char(s[s.len() - 11])
    &&& is_digit_char(s[s.len() - 10])
    &&& s[s.len() - 9] == ' '
    &&& is_digit_char(s[s.len() - 8])
    &&& is_digit_char(s[s.len() - 7])
    &&& s[s.len() - 6] == ':'
    &&& is_digit_char(s[s.len() - 5])
    &&& is_digit_char(s[s.len() - 4])
    &&& s[s.len() - 3] == ':'
    &&& is_digit_char(s[s.len() - 2])
    &&& is_digit_char(s[s.len() - 1])
}

/// `chrono::Local::now` formatted as year, month, day, hour, minute and
/// second. The machine's clock and time zone decide the value; the format
/// gives the year at least four characters and every other number two
/// digits.
#[verifier::external_body]
pub(crate) fn local_timestamp() -> (r: String)
    ensures
        is_time_stamp(r@),
{
    chrono::Local::now().format("%Y-%m-%d %H:%M:%S").to_string()
}

/// Builds the history entry of a result, stamped with the current local time.
pub fn create_history_entry(file_name: &str, file_path: &str, result: &str) -> (r:
    AnalysisHistoryEntry)
    ensures
        r@ == entry_of_result(file_name@, file_path@, result@, r@.analyzed_at),
        is_time_stamp(r@.analyzed_at),
{
    let now = local_timestamp();
    entry_from_result(file_name, file_path, result, now.as_str())
}


/// The number of leading summary lines that the context quotes of an entry.
pub const CONTEXT_SUMMARY_LINES: usize = 3;

/// The heading of the context block.
pub open spec fn context_heading() -> Seq<char> {
    "\n\n## 過去の解析履歴（参考情報）\n"@
        + "以下は同じプロジェクトで過去に解析した書類の情報です。整合性チェック時に参照してください。\n\n"@
}

/// One bullet line for each recorded problem.
pub open spec fn issues_block(issues: Seq<Seq<char>>) -> Seq<char>
    decreases issues.len(),
{
    if issues.len() == 0 {
        seq![]
    } else {
        issues_block(issues.drop_last()) + "  - "@ + issues.last() + "\n"@
    }
}

/// The context lines for the document type, or nothing without one.
pub open spec fn type_line(document_type: Option<Seq<char>>) -> Seq<char> {
    match document_type {
        Some(t) => "- 書類タイプ: "@ + t + "\n"@,
        None => seq![],
    }
}

/// The context lines for the recorded problems, or nothing without any.
pub open spec fn issues_section(issues: Seq<Seq<char>>) -> Seq<char> {
    if issues.len() == 0 {
        seq![]
    } else {
        "- 検出された問題:\n"@ + issues_block(issues)
    }
}

/// The context paragraph of one entry: heading, type, every problem line,
/// and the first lines of the summary joined by spaces.
pub open spec fn entry_context(e: EntryView) -> Seq<char> {
    "### "@ + e.file_name + " ("@ + e.analyzed_at + ")\n"@ + type_line(e.document_type)
        + issues_section(e.issues) + "- 要約: "@ + join_spec(
        first_n(split_lines(e.summary), CONTEXT_SUMMARY_LINES as nat),
        " "@,
    ) + "\n\n"@
}

/// The paragraphs of the newest `count` entries, newest first.
pub open spec fn recent_context(entries: Seq<EntryView>, count: nat) -> Seq<char>
    decreases count,
{
    if count == 0 || entries.len() == 0 {
        seq![]
    } else {
        entry_context(entries.last()) + recent_context(entries.drop_last(), (count - 1) as nat)
    }
}

/// The context block of a history: nothing for an empty history, else the
/// heading and the newest `CONTEXT_ENTRIES` entries, newest first.
pub open spec fn history_context(entries: Seq<EntryView>) -> Seq<char> {
    if entries.len() == 0 {
        seq![]
    } else {
        context_heading() + recent_context(entries, CONTEXT_ENTRIES as nat)
    }
}

fn issues_block_text(issues: &Vec<String>) -> (r: String)
    ensures
        r@ == issues_block(strs(issues@)),
{
    let mut out = String::new();
    let mut i: usize = 0;
    while i < issues.len()
        invariant
            i <= issues@.len(),
            out@ == issues_block(strs(issues@).take(i as int)),
        decreases issues@.len() - i,
    {
        proof {
            assert(strs(issues@).take(i + 1).drop_last() =~= strs(issues@).take(i as int));
        }
        out.append("  - ");
        out.append(issues[i].as_str());
        out.append("\n");
        i += 1;
    }
    proof {
        assert(strs(issues@).take(i as int) =~= strs(issues@));
    }
    out
}

fn entry_context_text(e: &AnalysisHistoryEntry) -> (r: String)
    ensures
        r@ == entry_context(e@),
{
    let mut out = String::from_str("### ");
    out.append(e.file_name.as_str());
    out.append(" (");
    out.append(e.analyzed_at.as_str());
    out.append(")\n");
    match &e.document_type {
        Some(t) => {
            out.append("- 書類タイプ: ");
            out.append(t.as_str());
            out.append("\n");
        },
        None => {},
    }
    let ghost with_type = out@;
    proof {
        assert(with_type =~= "### "@ + e@.file_name + " ("@ + e@.analyzed_at + ")\n"@ + type_line(
            e@.document_type,
        ));
    }
    if e.issues.len() > 0 {
        out.append("- 検出された問題:\n");
        let block = issues_block_text(&e.issues);
        out.append(block.as_str());
    }
    let ghost with_issues = out@;
    proof {
        assert(with_issues =~= with_type + issues_section(e@.issues));
    }
    let all = lines(e.summary.as_str());
    let head = take_first(&all, CONTEXT_SUMMARY_LINES);
    let summary = join(&head, " ");
    out.append("- 要約: ");
    out.append(summary.as_str());
    out.append("\n\n");
    proof {
        assert(out@ =~= entry_context(e@));
    }
    out
}

/// The context block that a prompt quotes of a project's history.
pub fn build_history_context(history: &AnalysisHistory) -> (r: String)
    ensures
        r@ == history_context(history@.entries),
{
    let n = history.entries.len();
    if n == 0 {
        return String::new();
    }
    let mut out = String::from_str("\n\n## 過去の解析履歴（参考情報）\n");
    out.append(
        "以下は同じプロジェクトで過去に解析した書類の情報です。整合性チェック時に参照してください。\n\n",
    );
    let ghost all = history@.entries;
    let mut k: usize = 0;
    proof {
        assert(all.take(n as int) =~= all);
        assert(out@ + recent_context(all, CONTEXT_ENTRIES as nat) =~= history_context(all));
    }
    while k < n && k < CONTEXT_ENTRIES
        invariant
            k <= n,
            k <= CONTEXT_ENTRIES,
            n == history.entries@.len(),
            all == history@.entries,
            out@ + recent_context(all.take(n - k), (CONTEXT_ENTRIES - k) as nat)
                == history_context(all),
        decreases n - k,
    {
        let ghost before = out@;
        let ghost rest = all.take(n - k);
        let paragraph = entry_context_text(&history.entries[n - 1 - k]);
        out.append(paragraph.as_str());
        proof {
            assert(rest.last() == history.entries@[n - 1 - k]@);
            assert(rest.drop_last() =~= all.take(n - (k + 1)));
            assert(before + (entry_context(rest.last()) + recent_context(
                rest.drop_last(),
                (CONTEXT_ENTRIES - k - 1) as nat,
            )) =~= out@ + recent_context(
                all.take(n - (k + 1)),
                (CONTEXT_ENTRIES - (k + 1)) as nat,
            ));
        }
        k += 1;
    }
    proof {
        assert(out@ + Seq::<char>::empty() =~= out@);
    }
    out
}


/// `a` stands before `b` or equals it, character by character: the order of
/// time stamps written with leading zeros.
pub open spec fn lex_le(a: Seq<char>, b: Seq<char>) -> bool
    decreases a.len(),
{
    if a.len() == 0 {
        true
    } else if b.len() == 0 {
        false
    } else if a[0] as u32 != b[0] as u32 {
        (a[0] as u32) < (b[0] as u32)
    } else {
        lex_le(a.drop_first(), b.drop_first())
    }
}

/// Of two strings, one stands before the other or they are equal.
pub proof fn lemma_lex_total(a: Seq<char>, b: Seq<char>)
    ensures
        lex_le(a, b) || lex_le(b, a),
    decreases a.len(),
{
    if a.len() > 0 && b.len() > 0 && a[0] as u32 == b[0] as u32 {
        lemma_lex_total(a.drop_first(), b.drop_first());
    }
}

/// The order of strings is transitive.
pub proof fn lemma_lex_transitive(a: Seq<char>, b: Seq<char>, c: Seq<char>)
    requires
        lex_le(a, b),
        lex_le(b, c),
    ensures
        lex_le(a, c),
    decreases a.len(),
{
    if a.len() > 0 && b.len() > 0 && c.len() > 0 && a[0] as u32 == b[0] as u32 && b[0] as u32
        == c[0] as u32 {
        lemma_lex_transitive(a.drop_first(), b.drop_first(), c.drop_first());
    }
}

/// The `<=` of std on string slices: strings are ordered by their bytes,
/// which is the order of their characters' code points.
#[verifier::external_body]
fn str_le(a: &str, b: &str) -> (r: bool)
    ensures
        r == lex_le(a@, b@),
{
    a <= b
}

/// No entry stands before one with a later time stamp.
pub open spec fn newest_first(s: Seq<EntryView>) -> bool {
    forall|i: int, j: int|
        0 <= i < j < s.len() ==> lex_le((#[trigger] s[j]).analyzed_at, (#[trigger] s[i]).analyzed_at)
}

/// The entries of several histories, one history after the other.
pub open spec fn all_entries(histories: Seq<AnalysisHistory>) -> Seq<EntryView>
    decreases histories.len(),
{
    if histories.len() == 0 {
        seq![]
    } else {
        all_entries(histories.drop_last()) + histories.last()@.entries
    }
}

/// The number of leading entries that are not older than the time `at`.
pub open spec fn insert_pos(sorted: Seq<EntryView>, at: Seq<char>) -> int
    decreases sorted.len(),
{
    if sorted.len() == 0 || !lex_le(at, sorted[0].analyzed_at) {
        0
    } else {
        1 + insert_pos(sorted.drop_first(), at)
    }
}

/// The entries from the newest to the oldest: each entry, in the order
/// given, goes behind the leading entries that are not older than it, so
/// entries of one time keep the order in which they came.
pub open spec fn ordered_by_time(entries: Seq<EntryView>) -> Seq<EntryView>
    decreases entries.len(),
{
    if entries.len() == 0 {
        seq![]
    } else {
        let sorted = ordered_by_time(entries.drop_last());
        sorted.insert(insert_pos(sorted, entries.last().analyzed_at), entries.last())
    }
}

/// Puts `entry` behind every entry that is not older than it.
fn insert_by_time(sorted: &mut Vec<AnalysisHistoryEntry>, entry: AnalysisHistoryEntry)
    requires
        newest_first(entry_views(old(sorted)@)),
    ensures
        newest_first(entry_views(final(sorted)@)),
        entry_views(final(sorted)@).to_multiset() == entry_views(old(sorted)@).to_multiset().insert(
            entry@,
        ),
        entry_views(final(sorted)@) == entry_views(old(sorted)@).insert(
            insert_pos(entry_views(old(sorted)@), entry@.analyzed_at),
            entry@,
        ),
{
    let ghost before = entry_views(sorted@);
    let mut p: usize = 0;
    proof {
        assert(before.skip(0) =~= before);
    }
    while p < sorted.len() && str_le(entry.analyzed_at.as_str(), sorted[p].analyzed_at.as_str())
        invariant
            p <= sorted@.len(),
            entry_views(sorted@) == before,
            forall|k: int| 0 <= k < p ==> lex_le(entry@.analyzed_at, (#[trigger] before[k]).analyzed_at),
            insert_pos(before, entry@.analyzed_at) == p + insert_pos(
                before.skip(p as int),
                entry@.analyzed_at,
            ),
        decreases sorted@.len() - p,
    {
        proof {
            assert(before.skip(p as int)[0] == before[p as int]);
            assert(before.skip(p as int).drop_first() =~= before.skip(p + 1));
        }
        p += 1;
    }
    proof {
        if p < before.len() {
            assert(before.skip(p as int)[0] == before[p as int]);
        }
        assert(insert_pos(before, entry@.analyzed_at) == p);
        assert forall|k: int| p <= k < before.len() implies lex_le(
            (#[trigger] before[k]).analyzed_at,
            entry@.analyzed_at,
        ) by {
            lemma_lex_total(entry@.analyzed_at, before[p as int].analyzed_at);
            if k > p {
                lemma_lex_transitive(
                    before[k].analyzed_at,
                    before[p as int].analyzed_at,
                    entry@.analyzed_at,
                );
            }
        }
        vstd::seq_lib::to_multiset_insert(before, p as int, entry@);
    }
    sorted.insert(p, entry);
    proof {
        let after = entry_views(sorted@);
        assert(after =~= before.insert(p as int, entry@));
        assert forall|i: int, j: int| 0 <= i < j < after.len() implies lex_le(
            (#[trigger] after[j]).analyzed_at,
            (#[trigger] after[i]).analyzed_at,
        ) by {
            if j < p {
                assert(after[i] == before[i] && after[j] == before[j]);
            } else if j == p {
                assert(after[i] == before[i]);
            } else if i < p {
                assert(after[i] == before[i] && after[j] == before[j - 1]);
            } else if i == p {
                assert(after[j] == before[j - 1]);
            } else {
                assert(after[i] == before[i - 1] && after[j] == before[j - 1]);
            }
        }
    }
}

/// The entries ordered from the newest to the oldest by their time stamps;
/// every entry stays, as often as it occurred.
pub fn sort_newest_first(entries: &Vec<AnalysisHistoryEntry>) -> (r: Vec<AnalysisHistoryEntry>)
    ensures
        entry_views(r@) == ordered_by_time(entry_views(entries@)),
        newest_first(entry_views(r@)),
        entry_views(r@).to_multiset() == entry_views(entries@).to_multiset(),
{
    let mut out: Vec<AnalysisHistoryEntry> = Vec::new();
    let mut i: usize = 0;
    proof {
        assert(entry_views(out@) =~= entry_views(entries@).take(0));
    }
    while i < entries.len()
        invariant
            i <= entries@.len(),
            newest_first(entry_views(out@)),
            entry_views(out@).to_multiset() == entry_views(entries@).take(i as int).to_multiset(),
            entry_views(out@) == ordered_by_time(entry_views(entries@).take(i as int)),
        decreases entries@.len() - i,
    {
        proof {
            assert(entry_views(entries@).take(i + 1).drop_last() =~= entry_views(entries@).take(
                i as int,
            ));
            assert(entry_views(entries@).take(i + 1) =~= entry_views(entries@).take(
                i as int,
            ).push(entries@[i as int]@));
            vstd::seq_lib::to_multiset_build(
                entry_views(entries@).take(i as int),
                entries@[i as int]@,
            );
        }
        insert_by_time(&mut out, entries[i].duplicate());
        i += 1;
    }
    proof {
        assert(entry_views(entries@).take(i as int) =~= entry_views(entries@));
    }
    out
}

/// The entries of all histories together, from the newest to the oldest.
pub fn merge_histories(histories: &Vec<AnalysisHistory>) -> (r: Vec<AnalysisHistoryEntry>)
    ensures
        entry_views(r@) == ordered_by_time(all_entries(histories@)),
        newest_first(entry_views(r@)),
        entry_views(r@).to_multiset() == all_entries(histories@).to_multiset(),
{
    let mut all: Vec<AnalysisHistoryEntry> = Vec::new();
    let mut h: usize = 0;
    proof {
        assert(entry_views(all@) =~= all_entries(histories@.take(0)));
    }
    while h < histories.len()
        invariant
            h <= histories@.len(),
            entry_views(all@) == all_entries(histories@.take(h as int)),
        decreases histories@.len() - h,
    {
        let ghost start = entry_views(all@);
        let source = &histories[h].entries;
        let mut k: usize = 0;
        proof {
            assert(histories@.take(h + 1).drop_last() =~= histories@.take(h as int));
            assert(start + entry_views(source@).take(0) =~= start);
        }
        while k < source.len()
            invariant
                k <= source@.len(),
                entry_views(all@) == start + entry_views(source@).take(k as int),
            decreases source@.len() - k,
        {
            let ghost prev = entry_views(all@);
            all.push(source[k].duplicate());
            proof {
                assert(entry_views(all@) =~= prev.push(source@[k as int]@));
                assert(entry_views(all@) =~= start + entry_views(source@).take(k + 1));
            }
            k += 1;
        }
        proof {
            assert(entry_views(source@).take(k as int) =~= entry_views(source@));
        }
        h += 1;
    }
    proof {
        assert(histories@.take(h as int) =~= histories@);
    }
    sort_newest_first(&all)
}

} // verus!
