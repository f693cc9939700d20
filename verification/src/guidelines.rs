//! Checklist guidelines of a project folder, by document type, and the
//! detection of document types from file names.

use vstd::prelude::*;
use vstd::string::StringExecFns;
use crate::error::AppError;
use crate::pdf_embed::{DataView, PdfEmbeddedData};
use crate::text::{
    contains, first_n, is_substring, join, join_spec, lines, lowercase_of, marked_lines,
    opt_str_view, opt_view, select_marked, split_lines, strs, to_lowercase,
};

verus! {

/// The name of the guidelines file inside a project folder.
pub const GUIDELINES_FILE_NAME: &'static str = ".guidelines.json";

/// The number of guideline lines quoted of the common list and of each category.
pub const GUIDELINE_LINES: usize = 5;

/// The checklist lines of one document type.
#[derive(Clone)]
pub struct Category {
    pub name: String,
    pub items: Vec<String>,
}

/// What a category holds.
pub ghost struct CategoryView {
    pub name: Seq<char>,
    pub items: Seq<Seq<char>>,
}

impl View for Category {
    type V = CategoryView;

    open spec fn view(&self) -> CategoryView {
        CategoryView { name: self.name@, items: strs(self.items@) }
    }
}

/// The guidelines of a project folder: lines for every document and lines
/// by document type, each type named once.
#[derive(Clone)]
pub struct Guidelines {
    pub categories: Vec<Category>,
    pub common: Vec<String>,
}

/// What a set of guidelines holds.
pub ghost struct GuidelinesView {
    pub categories: Seq<CategoryView>,
    pub common: Seq<Seq<char>>,
}

/// The views of a sequence of categories.
pub open spec fn category_views(v: Seq<Category>) -> Seq<CategoryView> {
    Seq::new(v.len(), |i: int| v[i]@)
}

impl View for Guidelines {
    type V = GuidelinesView;

    open spec fn view(&self) -> GuidelinesView {
        GuidelinesView { categories: category_views(self.categories@), common: strs(self.common@) }
    }
}

/// No two categories share a name.
pub open spec fn names_unique(cats: Seq<CategoryView>) -> bool {
    forall|i: int, j: int|
        0 <= i < j < cats.len() ==> (#[trigger] cats[i]).name != (#[trigger] cats[j]).name
}

/// The lines of the category called `name`, if there is one.
pub open spec fn lookup(cats: Seq<CategoryView>, name: Seq<char>) -> Option<Seq<Seq<char>>>
    decreases cats.len(),
{
    if cats.len() == 0 {
        None
    } else if cats[0].name == name {
        Some(cats[0].items)
    } else {
        lookup(cats.drop_first(), name)
    }
}

/// The index of the first category called `name`, or the number of
/// categories if there is none.
pub open spec fn position(cats: Seq<CategoryView>, name: Seq<char>) -> int
    decreases cats.len(),
{
    if cats.len() == 0 || cats[0].name == name {
        0
    } else {
        1 + position(cats.drop_first(), name)
    }
}

impl Guidelines {
    /// Every document type is named at most once.
    pub open spec fn wf(&self) -> bool {
        names_unique(self@.categories)
    }

    /// The index of the category called `name`, if there is one.
    pub fn find(&self, name: &str) -> (r: Option<usize>)
        ensures
            match r {
                Some(i) => position(self@.categories, name@) == i,
                None => position(self@.categories, name@) == self@.categories.len(),
            },
            match r {
                Some(i) => i < self.categories@.len() && self@.categories[i as int].name == name@
                    && lookup(self@.categories, name@) == Some(self@.categories[i as int].items)
                    && forall|j: int| 0 <= j < i ==> (#[trigger] self@.categories[j]).name != name@,
                None => lookup(self@.categories, name@) is None && forall|j: int|
                    0 <= j < self@.categories.len() ==> (#[trigger] self@.categories[j]).name
                        != name@,
            },
    {
        let ghost cats = self@.categories;
        let key = String::from_str(name);
        let mut i: usize = 0;
        proof {
            assert(cats.skip(0) =~= cats);
        }
        while i < self.categories.len()
            invariant
                i <= self.categories@.len(),
                cats == self@.categories,
                key@ == name@,
                lookup(cats, name@) == lookup(cats.skip(i as int), name@),
                position(cats, name@) == i + position(cats.skip(i as int), name@),
                forall|j: int| 0 <= j < i ==> (#[trigger] cats[j]).name != name@,
            decreases self.categories@.len() - i,
        {
            proof {
                assert(cats.skip(i as int)[0] == self.categories@[i as int]@);
                assert(cats.skip(i as int).drop_first() =~= cats.skip(i + 1));
            }
            if key == self.categories[i].name {
                return Some(i);
            }
            i += 1;
        }
        None
    }

    /// Guidelines without any line.
    pub fn new() -> (r: Self)
        ensures
            r.wf(),
            r@.categories.len() == 0,
            r@.common.len() == 0,
    {
        Guidelines { categories: Vec::new(), common: Vec::new() }
    }

    /// Sets the lines of a document type: a type that is present keeps its
    /// place and gets the new lines, a new type goes last.
    pub fn set_category(&mut self, name: String, items: Vec<String>)
        requires
            old(self).wf(),
        ensures
            final(self).wf(),
            final(self)@.common == old(self)@.common,
            final(self)@.categories == (if position(old(self)@.categories, name@) < old(
                self,
            )@.categories.len() {
                old(self)@.categories.update(
                    position(old(self)@.categories, name@),
                    CategoryView { name: name@, items: strs(items@) },
                )
            } else {
                old(self)@.categories.push(CategoryView { name: name@, items: strs(items@) })
            }),
            lookup(final(self)@.categories, name@) == Some(strs(items@)),
            forall|other: Seq<char>|
                other != name@ ==> lookup(final(self)@.categories, other) == lookup(
                    old(self)@.categories,
                    other,
                ),
    {
        let found = self.find(name.as_str());
        let ghost before = self@.categories;
        let ghost entry = CategoryView { name: name@, items: strs(items@) };
        match found {
            Some(i) => {
                self.categories[i] = Category { name, items };
                proof {
                    assert(self@.categories =~= before.update(i as int, entry));
                    assert(names_unique(self@.categories));
                    lemma_lookup_update(before, i as int, entry, name@);
                    assert forall|other: Seq<char>| other != name@ implies lookup(
                        self@.categories,
                        other,
                    ) == lookup(before, other) by {
                        lemma_lookup_update(before, i as int, entry, other);
                    }
                }
            },
            None => {
                self.categories.push(Category { name, items });
                proof {
                    assert(self@.categories =~= before.push(entry));
                    lemma_lookup_push(before, entry, name@);
                    assert forall|other: Seq<char>| other != name@ implies lookup(
                        self@.categories,
                        other,
                    ) == lookup(before, other) by {
                        lemma_lookup_push(before, entry, other);
                    }
                }
            },
        }
    }
}

proof fn lemma_lookup_update(cats: Seq<CategoryView>, i: int, entry: CategoryView, other: Seq<char>)
    requires
        0 <= i < cats.len(),
        cats[i].name == entry.name,
        forall|j: int| 0 <= j < i ==> (#[trigger] cats[j]).name != entry.name,
    ensures
        lookup(cats.update(i, entry), entry.name) == Some(entry.items),
        other != entry.name ==> lookup(cats.update(i, entry), other) == lookup(cats, other),
    decreases cats.len(),
{
    let after = cats.update(i, entry);
    if i == 0 {
        assert(after.drop_first() =~= cats.drop_first());
    } else {
        assert(cats[0].name != entry.name);
        assert(after[0] == cats[0]);
        assert(after.drop_first() =~= cats.drop_first().update(i - 1, entry));
        assert forall|j: int| 0 <= j < i - 1 implies (#[trigger] cats.drop_first()[j]).name
            != entry.name by {
            assert(cats.drop_first()[j] == cats[j + 1]);
        }
        lemma_lookup_update(cats.drop_first(), i - 1, entry, other);
    }
}

proof fn lemma_lookup_push(cats: Seq<CategoryView>, entry: CategoryView, other: Seq<char>)
    requires
        forall|j: int| 0 <= j < cats.len() ==> (#[trigger] cats[j]).name != entry.name,
    ensures
        lookup(cats.push(entry), entry.name) == Some(entry.items),
        other != entry.name ==> lookup(cats.push(entry), other) == lookup(cats, other),
    decreases cats.len(),
{
    let after = cats.push(entry);
    if cats.len() == 0 {
        assert(after.drop_first() =~= cats);
    } else {
        assert(cats[0].name != entry.name);
        assert(after[0] == cats[0]);
        assert(after.drop_first() =~= cats.drop_first().push(entry));
        assert forall|j: int| 0 <= j < cats.drop_first().len() implies (
        #[trigger] cats.drop_first()[j]).name != entry.name by {
            assert(cats.drop_first()[j] == cats[j + 1]);
        }
        lemma_lookup_push(cats.drop_first(), entry, other);
    }
}

impl Default for Guidelines {
    fn default() -> (r: Self)
        ensures
            r.wf(),
            r@.categories.len() == 0,
            r@.common.len() == 0,
    {
        Guidelines::new()
    }
}

/// The type named when a condition holds, and nothing otherwise.
pub open spec fn type_if(found: bool, name: Seq<char>) -> Seq<Seq<char>> {
    if found {
        seq![name]
    } else {
        seq![]
    }
}

/// The document types that a file name suggests, in the order of the
/// keyword table; the name is compared in lower case.
pub open spec fn document_types_of(file_name: Seq<char>) -> Seq<Seq<char>> {
    let name = lowercase_of(file_name);
    type_if(is_substring("見積"@, name) || is_substring("estimate"@, name), "見積書"@) + type_if(
        is_substring("契約"@, name) || is_substring("contract"@, name),
        "契約書"@,
    ) + type_if(is_substring("請求"@, name) || is_substring("invoice"@, name), "請求書"@)
        + type_if(
        is_substring("交通誘導"@, name) || is_substring("配置"@, name) || is_substring(
            "警備"@,
            name,
        ),
        "交通誘導員"@,
    ) + type_if(
        is_substring("測量"@, name) || is_substring("横断"@, name) || is_substring("縦断"@, name),
        "測量図面"@,
    ) + type_if(is_substring("施工"@, name) || is_substring("計画"@, name), "施工計画"@)
}

/// The document types that a file name suggests.
pub fn detect_document_type(file_name: &str) -> (r: Vec<String>)
    ensures
        strs(r@) == document_types_of(file_name@),
{
    let lower = to_lowercase(file_name);
    let name = lower.as_str();
    let mut types: Vec<String> = Vec::new();
    if contains(name, "見積") || contains(name, "estimate") {
        types.push(String::from_str("見積書"));
    }
    if contains(name, "契約") || contains(name, "contract") {
        types.push(String::from_str("契約書"));
    }
    if contains(name, "請求") || contains(name, "invoice") {
        types.push(String::from_str("請求書"));
    }
    if contains(name, "交通誘導") || contains(name, "配置") || contains(name, "警備") {
        types.push(String::from_str("交通誘導員"));
    }
    if contains(name, "測量") || contains(name, "横断") || contains(name, "縦断") {
        types.push(String::from_str("測量図面"));
    }
    if contains(name, "施工") || contains(name, "計画") {
        types.push(String::from_str("施工計画"));
    }
    proof {
        assert(strs(types@) =~= document_types_of(file_name@));
    }
    types
}

/// `acc` with each of `items` appended that it does not hold yet.
pub open spec fn add_unique(acc: Seq<Seq<char>>, items: Seq<Seq<char>>) -> Seq<Seq<char>>
    decreases items.len(),
{
    if items.len() == 0 {
        acc
    } else {
        let sofar = add_unique(acc, items.drop_last());
        if sofar.contains(items.last()) {
            sofar
        } else {
            sofar.push(items.last())
        }
    }
}

/// The document types of several file names, each named once, in the order
/// in which they first occur.
pub open spec fn collected_types(names: Seq<Seq<char>>) -> Seq<Seq<char>>
    decreases names.len(),
{
    if names.len() == 0 {
        seq![]
    } else {
        add_unique(collected_types(names.drop_last()), document_types_of(names.last()))
    }
}

/// Adding without repetition keeps a sequence free of repetitions.
pub proof fn lemma_add_unique(acc: Seq<Seq<char>>, items: Seq<Seq<char>>)
    requires
        acc.no_duplicates(),
    ensures
        add_unique(acc, items).no_duplicates(),
    decreases items.len(),
{
    if items.len() > 0 {
        lemma_add_unique(acc, items.drop_last());
    }
}

/// The collected document types name no type twice.
pub proof fn lemma_collected_types_unique(names: Seq<Seq<char>>)
    ensures
        collected_types(names).no_duplicates(),
    decreases names.len(),
{
    if names.len() > 0 {
        lemma_collected_types_unique(names.drop_last());
        lemma_add_unique(collected_types(names.drop_last()), document_types_of(names.last()));
    }
}

/// Whether the list holds the string.
pub fn holds(list: &Vec<String>, item: &String) -> (r: bool)
    ensures
        r == strs(list@).contains(item@),
{
    let mut i: usize = 0;
    while i < list.len()
        invariant
            i <= list@.len(),
            forall|j: int| 0 <= j < i ==> strs(list@)[j] != item@,
        decreases list@.len() - i,
    {
        if list[i] == *item {
            assert(strs(list@)[i as int] == item@);
            return true;
        }
        i += 1;
    }
    false
}

/// Appends to `acc` each of `items` that it does not hold yet.
pub fn extend_unique(acc: &mut Vec<String>, items: &Vec<String>)
    ensures
        strs(final(acc)@) == add_unique(strs(old(acc)@), strs(items@)),
{
    let mut i: usize = 0;
    while i < items.len()
        invariant
            i <= items@.len(),
            strs(acc@) == add_unique(strs(old(acc)@), strs(items@).take(i as int)),
        decreases items@.len() - i,
    {
        proof {
            assert(strs(items@).take(i + 1).drop_last() =~= strs(items@).take(i as int));
        }
        if !holds(acc, &items[i]) {
            let ghost prev = strs(acc@);
            acc.push(items[i].clone());
            proof {
                assert(strs(acc@) =~= prev.push(items@[i as int]@));
            }
        }
        i += 1;
    }
    proof {
        assert(strs(items@).take(i as int) =~= strs(items@));
    }
}

/// The document types of several file names, each named once.
pub fn collect_document_types(names: &Vec<String>) -> (r: Vec<String>)
    ensures
        strs(r@) == collected_types(strs(names@)),
        strs(r@).no_duplicates(),
{
    let mut all: Vec<String> = Vec::new();
    let mut i: usize = 0;
    proof {
        assert(strs(all@) =~= collected_types(strs(names@).take(0)));
    }
    while i < names.len()
        invariant
            i <= names@.len(),
            strs(all@) == collected_types(strs(names@).take(i as int)),
        decreases names@.len() - i,
    {
        proof {
            assert(strs(names@).take(i + 1).drop_last() =~= strs(names@).take(i as int));
        }
        let types = detect_document_type(names[i].as_str());
        extend_unique(&mut all, &types);
        i += 1;
    }
    proof {
        assert(strs(names@).take(i as int) =~= strs(names@));
        lemma_collected_types_unique(strs(names@));
    }
    all
}

/// The heading and first lines of the common list, or nothing if it is empty.
pub open spec fn common_block(common: Seq<Seq<char>>) -> Seq<Seq<char>> {
    if common.len() == 0 {
        seq![]
    } else {
        seq!["【共通】"@] + first_n(common, GUIDELINE_LINES as nat)
    }
}

/// The heading and first lines of a document type's category, or nothing if
/// the guidelines have no such category.
pub open spec fn category_block(cats: Seq<CategoryView>, doc_type: Seq<char>) -> Seq<Seq<char>> {
    match lookup(cats, doc_type) {
        Some(items) => seq!["【"@ + doc_type + "】"@] + first_n(items, GUIDELINE_LINES as nat),
        None => seq![],
    }
}

/// The category blocks of the given document types, in their order.
pub open spec fn type_blocks(cats: Seq<CategoryView>, types: Seq<Seq<char>>) -> Seq<Seq<char>>
    decreases types.len(),
{
    if types.len() == 0 {
        seq![]
    } else {
        type_blocks(cats, types.drop_last()) + category_block(cats, types.last())
    }
}

/// The guideline lines that apply to the given document types: the common
/// block first, then one block per type that has a category.
pub open spec fn relevant_lines(g: GuidelinesView, types: Seq<Seq<char>>) -> Seq<Seq<char>> {
    common_block(g.common) + type_blocks(g.categories, types)
}

/// The guideline text for the given document types, or `None` when no line applies.
pub open spec fn relevant_text(g: GuidelinesView, types: Seq<Seq<char>>) -> Option<Seq<char>> {
    if relevant_lines(g, types).len() == 0 {
        None
    } else {
        Some(join_spec(relevant_lines(g, types), "\n"@))
    }
}

/// Appends copies of the first `n` strings of `items` to `out`.
fn push_first(out: &mut Vec<String>, items: &Vec<String>, n: usize)
    ensures
        strs(final(out)@) == strs(old(out)@) + first_n(strs(items@), n as nat),
{
    let mut i: usize = 0;
    proof {
        assert(strs(out@) =~= strs(old(out)@) + strs(items@).take(0));
    }
    while i < items.len() && i < n
        invariant
            i <= items@.len(),
            i <= n,
            strs(out@) == strs(old(out)@) + strs(items@).take(i as int),
        decreases items@.len() - i,
    {
        let ghost prev = strs(out@);
        out.push(items[i].clone());
        proof {
            assert(strs(out@) =~= prev.push(items@[i as int]@));
            assert(strs(out@) =~= strs(old(out)@) + strs(items@).take(i + 1));
        }
        i += 1;
    }
    proof {
        assert(strs(items@).take(strs(items@).len() as int) =~= strs(items@));
    }
}

/// The guideline text for the given document types.
pub fn relevant_for_types(guidelines: &Guidelines, types: &Vec<String>) -> (r: Option<String>)
    ensures
        opt_view(r) == relevant_text(guidelines@, strs(types@)),
{
    let mut relevant: Vec<String> = Vec::new();
    if guidelines.common.len() > 0 {
        relevant.push(String::from_str("【共通】"));
        proof {
            assert(strs(relevant@) =~= seq!["【共通】"@]);
        }
        push_first(&mut relevant, &guidelines.common, GUIDELINE_LINES);
    }
    proof {
        assert(strs(relevant@) =~= common_block(guidelines@.common));
        assert(strs(relevant@) + type_blocks(guidelines@.categories, strs(types@).take(0))
            =~= strs(relevant@));
    }
    let mut i: usize = 0;
    while i < types.len()
        invariant
            i <= types@.len(),
            strs(relevant@) == common_block(guidelines@.common) + type_blocks(
                guidelines@.categories,
                strs(types@).take(i as int),
            ),
        decreases types@.len() - i,
    {
        proof {
            assert(strs(types@).take(i + 1).drop_last() =~= strs(types@).take(i as int));
        }
        let ghost prev = strs(relevant@);
        match guidelines.find(types[i].as_str()) {
            Some(k) => {
                let mut heading = String::from_str("【");
                heading.append(types[i].as_str());
                heading.append("】");
                relevant.push(heading);
                proof {
                    assert(strs(relevant@) =~= prev + seq!["【"@ + types@[i as int]@ + "】"@]);
                }
                push_first(&mut relevant, &guidelines.categories[k].items, GUIDELINE_LINES);
                proof {
                    assert(strs(relevant@) =~= prev + category_block(
                        guidelines@.categories,
                        types@[i as int]@,
                    ));
                }
            },
            None => {
                proof {
                    assert(prev + category_block(guidelines@.categories, types@[i as int]@)
                        =~= prev);
                }
            },
        }
        proof {
            assert(strs(relevant@) =~= common_block(guidelines@.common) + type_blocks(
                guidelines@.categories,
                strs(types@).take(i + 1),
            ));
        }
        i += 1;
    }
    proof {
        assert(strs(types@).take(i as int) =~= strs(types@));
    }
    if relevant.len() == 0 {
        None
    } else {
        Some(join(&relevant, "\n"))
    }
}

/// The guideline text that applies to a file, by the document types that
/// its name suggests; `None` without guidelines or without an applying line.
pub fn get_relevant_guidelines(guidelines: Option<&Guidelines>, file_name: &str) -> (r: Option<
    String,
>)
    ensures
        opt_view(r) == match guidelines {
            Some(g) => relevant_text(g@, document_types_of(file_name@)),
            None => None,
        },
{
    match guidelines {
        Some(g) => {
            let types = detect_document_type(file_name);
            relevant_for_types(g, &types)
        },
        None => None,
    }
}


/// The opening of the prompt that revises the guidelines.
pub const REVISE_HEAD: &'static str = "あなたは書類チェックの専門家です。

既存のガイドラインを、新しいデータに基づいて改修してください。
既存の有用な項目は保持しつつ、新しいパターンを追加・統合してください。

## 既存のガイドライン
";

/// The heading of the newly found problems.
pub const REVISE_ISSUES: &'static str = "

## 今回検出された新しい問題・警告
";

/// The heading of the user's check points.
pub const REVISE_INSTRUCTIONS: &'static str = "

## ユーザーが重視しているチェック観点
";

/// The heading of the document types.
pub const REVISE_TYPES: &'static str = "

## 対象書類タイプ
";

/// The task and the output format of the revising prompt.
pub const REVISE_TASK: &'static str = "

## タスク
1. 既存ガイドラインの有用な項目は保持
2. 新しい問題パターンがあれば追加
3. 重複は統合、古くなった項目は更新
4. 各カテゴリ最大10項目まで（重要度順）

## 出力形式（厳守）
JSON形式のみ出力。説明文不要。
項目は具体的に（「金額確認」ではなく「税込/税抜の混在に注意」のように）。

```json
{
  \"common\": [\"間違いパターン1\", \"パターン2\"],
  \"categories\": {
    \"契約書\": [\"契約書で起きやすい間違い1\"],
    \"見積書\": [\"見積書で起きやすい間違い1\"]
  }
}
```";

/// A file of which a revision of the guidelines learns: its name and what
/// its PDF carries of an earlier analysis.
pub struct CollectedFile {
    pub file_name: String,
    pub data: PdfEmbeddedData,
}

/// What a collected file holds.
pub ghost struct CollectedView {
    pub file_name: Seq<char>,
    pub data: DataView,
}

impl View for CollectedFile {
    type V = CollectedView;

    open spec fn view(&self) -> CollectedView {
        CollectedView { file_name: self.file_name@, data: self.data@ }
    }
}

/// The views of a sequence of collected files.
pub open spec fn collected_views(v: Seq<CollectedFile>) -> Seq<CollectedView> {
    Seq::new(v.len(), |i: int| v[i]@)
}

/// The markers of a line that a revision of the guidelines learns from.
pub open spec fn guideline_markers_spec() -> Seq<Seq<char>> {
    seq!["⚠"@, "警告"@, "不整合"@, "矛盾"@, "注意"@, "確認"@]
}

/// Each line behind the name of its file in square brackets.
pub open spec fn tagged(file_name: Seq<char>, notes: Seq<Seq<char>>) -> Seq<Seq<char>> {
    Seq::new(notes.len(), |i: int| "["@ + file_name + "] "@ + notes[i])
}

/// The marked lines of every file's result, trimmed and tagged with the
/// file's name, each distinct line once, in the order of first occurrence.
pub open spec fn issue_notes(files: Seq<CollectedView>) -> Seq<Seq<char>>
    decreases files.len(),
{
    if files.len() == 0 {
        seq![]
    } else {
        add_unique(
            issue_notes(files.drop_last()),
            tagged(
                files.last().file_name,
                marked_lines(split_lines(files.last().data.result), guideline_markers_spec()),
            ),
        )
    }
}

/// The instructions that a revision takes into account: the current one if
/// it is not empty, then each file's embedded instruction, each distinct
/// instruction once.
pub open spec fn instruction_notes(current: Option<Seq<char>>, files: Seq<CollectedView>) -> Seq<
    Seq<char>,
>
    decreases files.len(),
{
    if files.len() == 0 {
        match current {
            Some(c) => if c.len() > 0 {
                seq![c]
            } else {
                seq![]
            },
            None => seq![],
        }
    } else {
        match files.last().data.instruction {
            Some(i) => add_unique(instruction_notes(current, files.drop_last()), seq![i]),
            None => instruction_notes(current, files.drop_last()),
        }
    }
}

/// The names of the collected files.
pub open spec fn collected_names(files: Seq<CollectedView>) -> Seq<Seq<char>> {
    Seq::new(files.len(), |i: int| files[i].file_name)
}

/// The lines joined, or the given words when there is no line.
pub open spec fn joined_or(notes: Seq<Seq<char>>, sep: Seq<char>, none: Seq<char>) -> Seq<char> {
    if notes.len() == 0 {
        none
    } else {
        join_spec(notes, sep)
    }
}

/// The prompt that asks the model to revise the guidelines: the present
/// guidelines, the new problems, the instructions and the document types.
pub open spec fn revise_prompt(
    files: Seq<CollectedView>,
    current: Option<Seq<char>>,
    existing: Option<Seq<char>>,
) -> Seq<char> {
    REVISE_HEAD@ + (match existing {
        Some(json) => json,
        None => "（なし - 新規作成）"@,
    }) + REVISE_ISSUES@ + joined_or(issue_notes(files), "\n"@, "（新規問題なし）"@)
        + REVISE_INSTRUCTIONS@ + joined_or(instruction_notes(current, files), "\n"@, "（なし）"@)
        + REVISE_TYPES@ + join_spec(collected_types(collected_names(files)), ", "@) + REVISE_TASK@
}

fn guideline_markers() -> (r: Vec<String>)
    ensures
        strs(r@) == guideline_markers_spec(),
{
    let mut r: Vec<String> = Vec::new();
    r.push(String::from_str("⚠"));
    r.push(String::from_str("警告"));
    r.push(String::from_str("不整合"));
    r.push(String::from_str("矛盾"));
    r.push(String::from_str("注意"));
    r.push(String::from_str("確認"));
    proof {
        assert(strs(r@) =~= guideline_markers_spec());
    }
    r
}

fn tag_lines(file_name: &str, notes: &Vec<String>) -> (r: Vec<String>)
    ensures
        strs(r@) == tagged(file_name@, strs(notes@)),
{
    let mut out: Vec<String> = Vec::new();
    let mut i: usize = 0;
    while i < notes.len()
        invariant
            i <= notes@.len(),
            strs(out@) == tagged(file_name@, strs(notes@)).take(i as int),
        decreases notes@.len() - i,
    {
        let mut line = String::from_str("[");
        line.append(file_name);
        line.append("] ");
        line.append(notes[i].as_str());
        let ghost prev = strs(out@);
        out.push(line);
        proof {
            assert(strs(out@) =~= prev.push("["@ + file_name@ + "] "@ + notes@[i as int]@));
            assert(strs(out@) =~= tagged(file_name@, strs(notes@)).take(i + 1));
        }
        i += 1;
    }
    proof {
        assert(tagged(file_name@, strs(notes@)).take(i as int) =~= tagged(
            file_name@,
            strs(notes@),
        ));
    }
    out
}

/// The tagged problem lines of the collected files, each distinct line once.
pub fn collect_issue_notes(files: &Vec<CollectedFile>) -> (r: Vec<String>)
    ensures
        strs(r@) == issue_notes(collected_views(files@)),
{
    let markers = guideline_markers();
    let mut all: Vec<String> = Vec::new();
    let mut i: usize = 0;
    proof {
        assert(strs(all@) =~= issue_notes(collected_views(files@).take(0)));
    }
    while i < files.len()
        invariant
            i <= files@.len(),
            strs(markers@) == guideline_markers_spec(),
            strs(all@) == issue_notes(collected_views(files@).take(i as int)),
        decreases files@.len() - i,
    {
        proof {
            assert(collected_views(files@).take(i + 1).drop_last() =~= collected_views(
                files@,
            ).take(i as int));
        }
        let every = lines(files[i].data.result.as_str());
        let marked = select_marked(&every, &markers);
        let notes = tag_lines(files[i].file_name.as_str(), &marked);
        extend_unique(&mut all, &notes);
        i += 1;
    }
    proof {
        assert(collected_views(files@).take(i as int) =~= collected_views(files@));
    }
    all
}

/// The instructions that a revision takes into account.
pub fn collect_instruction_notes(current: Option<&str>, files: &Vec<CollectedFile>) -> (r: Vec<
    String,
>)
    ensures
        strs(r@) == instruction_notes(
            opt_str_view(current),
            collected_views(files@),
        ),
{
    let ghost cur = opt_str_view(current);
    let mut all: Vec<String> = Vec::new();
    match current {
        Some(c) => {
            if c.unicode_len() > 0 {
                all.push(String::from_str(c));
            }
        },
        None => {},
    }
    let mut i: usize = 0;
    proof {
        assert(strs(all@) =~= instruction_notes(cur, collected_views(files@).take(0)));
    }
    while i < files.len()
        invariant
            i <= files@.len(),
            strs(all@) == instruction_notes(cur, collected_views(files@).take(i as int)),
        decreases files@.len() - i,
    {
        proof {
            assert(collected_views(files@).take(i + 1).drop_last() =~= collected_views(
                files@,
            ).take(i as int));
        }
        match &files[i].data.instruction {
            Some(instruction) => {
                let ghost prev = strs(all@);
                if !holds(&all, instruction) {
                    all.push(instruction.clone());
                    proof {
                        assert(strs(all@) =~= prev.push(instruction@));
                    }
                }
                proof {
                    let one = seq![instruction@];
                    assert(one.drop_last() =~= Seq::<Seq<char>>::empty());
                    assert(add_unique(prev, one.drop_last()) == prev);
                    assert(one.last() == instruction@);
                }
            },
            None => {},
        }
        i += 1;
    }
    proof {
        assert(collected_views(files@).take(i as int) =~= collected_views(files@));
    }
    all
}

fn joined_lines(notes: &Vec<String>, sep: &str, none: &str) -> (r: String)
    ensures
        r@ == joined_or(strs(notes@), sep@, none@),
{
    if notes.len() == 0 {
        String::from_str(none)
    } else {
        join(notes, sep)
    }
}

/// Builds the prompt that asks the model to revise the guidelines; refused
/// as invalid input when no file carries an analysis.
pub fn build_guideline_prompt(
    files: &Vec<CollectedFile>,
    custom_instruction: Option<&str>,
    existing_json: Option<&str>,
) -> (r: Result<String, AppError>)
    ensures
        r is Err <==> files@.len() == 0,
        r is Err ==> r->Err_0 is InvalidInput && r->Err_0.detail()
            == "選択ファイルに解析データがありません"@,
        r is Ok ==> r->Ok_0@ == revise_prompt(
            collected_views(files@),
            opt_str_view(custom_instruction),
            opt_str_view(existing_json),
        ),
{
    if files.len() == 0 {
        return Err(
            AppError::InvalidInput(String::from_str("選択ファイルに解析データがありません")),
        );
    }
    let issues = collect_issue_notes(files);
    let instructions = collect_instruction_notes(custom_instruction, files);
    let mut names: Vec<String> = Vec::new();
    let mut i: usize = 0;
    while i < files.len()
        invariant
            i <= files@.len(),
            strs(names@) == collected_names(collected_views(files@)).take(i as int),
        decreases files@.len() - i,
    {
        let ghost prev = strs(names@);
        names.push(files[i].file_name.clone());
        proof {
            assert(strs(names@) =~= prev.push(files@[i as int].file_name@));
            assert(strs(names@) =~= collected_names(collected_views(files@)).take(i + 1));
        }
        i += 1;
    }
    proof {
        assert(collected_names(collected_views(files@)).take(i as int) =~= collected_names(
            collected_views(files@),
        ));
    }
    let types = collect_document_types(&names);
    let mut out = String::from_str(REVISE_HEAD);
    match existing_json {
        Some(json) => out.append(json),
        None => out.append("（なし - 新規作成）"),
    }
    out.append(REVISE_ISSUES);
    out.append(joined_lines(&issues, "\n", "（新規問題なし）").as_str());
    out.append(REVISE_INSTRUCTIONS);
    out.append(joined_lines(&instructions, "\n", "（なし）").as_str());
    out.append(REVISE_TYPES);
    out.append(join(&types, ", ").as_str());
    out.append(REVISE_TASK);
    Ok(out)
}

/// One bullet line for each item.
pub open spec fn bullet_lines(items: Seq<Seq<char>>) -> Seq<char>
    decreases items.len(),
{
    if items.len() == 0 {
        seq![]
    } else {
        bullet_lines(items.drop_last()) + "- "@ + items.last() + "\n"@
    }
}

/// The summary sections of the categories, in their order.
pub open spec fn category_sections(cats: Seq<CategoryView>) -> Seq<char>
    decreases cats.len(),
{
    if cats.len() == 0 {
        seq![]
    } else {
        category_sections(cats.drop_last()) + "\n### "@ + cats.last().name + "\n"@ + bullet_lines(
            cats.last().items,
        )
    }
}

/// The readable summary of guidelines: the common lines, if any, then each category.
pub open spec fn summary_text(g: GuidelinesView) -> Seq<char> {
    "## ガイドライン\n\n"@ + (if g.common.len() == 0 {
        seq![]
    } else {
        "### 共通\n"@ + bullet_lines(g.common)
    }) + category_sections(g.categories)
}

/// The number of lines in all categories together.
pub open spec fn category_items(cats: Seq<CategoryView>) -> nat
    decreases cats.len(),
{
    if cats.len() == 0 {
        0
    } else {
        category_items(cats.drop_last()) + cats.last().items.len()
    }
}

fn bullets(items: &Vec<String>) -> (r: String)
    ensures
        r@ == bullet_lines(strs(items@)),
{
    let mut out = String::new();
    let mut i: usize = 0;
    while i < items.len()
        invariant
            i <= items@.len(),
            out@ == bullet_lines(strs(items@).take(i as int)),
        decreases items@.len() - i,
    {
        proof {
            assert(strs(items@).take(i + 1).drop_last() =~= strs(items@).take(i as int));
        }
        out.append("- ");
        out.append(items[i].as_str());
        out.append("\n");
        i += 1;
    }
    proof {
        assert(strs(items@).take(i as int) =~= strs(items@));
    }
    out
}

/// The readable summary of guidelines.
pub fn guidelines_summary(guidelines: &Guidelines) -> (r: String)
    ensures
        r@ == summary_text(guidelines@),
{
    let mut out = String::from_str("## ガイドライン\n\n");
    if guidelines.common.len() > 0 {
        out.append("### 共通\n");
        out.append(bullets(&guidelines.common).as_str());
    }
    let ghost head = out@;
    let mut i: usize = 0;
    proof {
        assert(head + category_sections(guidelines@.categories.take(0)) =~= head);
    }
    while i < guidelines.categories.len()
        invariant
            i <= guidelines.categories@.len(),
            out@ == head + category_sections(guidelines@.categories.take(i as int)),
        decreases guidelines.categories@.len() - i,
    {
        proof {
            assert(guidelines@.categories.take(i + 1).drop_last() =~= guidelines@.categories.take(
                i as int,
            ));
        }
        out.append("\n### ");
        out.append(guidelines.categories[i].name.as_str());
        out.append("\n");
        out.append(bullets(&guidelines.categories[i].items).as_str());
        proof {
            assert(out@ =~= head + category_sections(guidelines@.categories.take(i + 1)));
        }
        i += 1;
    }
    proof {
        assert(guidelines@.categories.take(i as int) =~= guidelines@.categories);
    }
    out
}

/// The number of guideline lines, common and by category; `None` when the
/// count does not fit the machine's word.
pub fn guideline_count(guidelines: &Guidelines) -> (r: Option<usize>)
    ensures
        r is Some ==> r.unwrap() == guidelines@.common.len() + category_items(
            guidelines@.categories,
        ),
        r is None ==> guidelines@.common.len() + category_items(guidelines@.categories)
            > usize::MAX,
{
    let mut count: usize = guidelines.common.len();
    let mut i: usize = 0;
    while i < guidelines.categories.len()
        invariant
            i <= guidelines.categories@.len(),
            count == guidelines@.common.len() + category_items(
                guidelines@.categories.take(i as int),
            ),
        decreases guidelines.categories@.len() - i,
    {
        proof {
            assert(guidelines@.categories.take(i + 1).drop_last() =~= guidelines@.categories.take(
                i as int,
            ));
            lemma_category_items_grow(guidelines@.categories, i + 1);
        }
        let n = guidelines.categories[i].items.len();
        if n > usize::MAX - count {
            return None;
        }
        count += n;
        i += 1;
    }
    proof {
        assert(guidelines@.categories.take(i as int) =~= guidelines@.categories);
    }
    Some(count)
}

proof fn lemma_category_items_grow(cats: Seq<CategoryView>, k: int)
    requires
        0 <= k <= cats.len(),
    ensures
        category_items(cats.take(k)) <= category_items(cats),
    decreases cats.len() - k,
{
    if k < cats.len() {
        assert(cats.take(k + 1).drop_last() =~= cats.take(k));
        lemma_category_items_grow(cats, k + 1);
    } else {
        assert(cats.take(k) =~= cats);
    }
}

} // verus!
