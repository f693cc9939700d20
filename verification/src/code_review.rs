//! The code-review watcher's decisions: which files are reviewed, how
//! often, on what text and with what prompt.

use vstd::prelude::*;
use vstd::string::StringExecFns;
use crate::text::{lowercase_of, opt_str_view, to_lowercase, trim, trimmed_of};

verus! {

/// The time in milliseconds within which a path is not reviewed again.
pub const CODE_REVIEW_DEBOUNCE_MS: u64 = 500;

/// The name of the review log inside a watched folder.
pub const REVIEW_LOG_NAME: &'static str = ".code-reviews.log";

/// The opening of the review prompt, up to the file's name.
pub const REVIEW_HEAD: &'static str = "以下のコード変更をアーキテクチャの観点からレビューしてください。

ファイル: ";

/// What stands between the file's name and the reviewed text.
pub const REVIEW_OPEN: &'static str = "

```
";

/// The review criteria and the output format, after the reviewed text.
pub const REVIEW_RULES: &'static str = "
```

## レビュー観点（優先度順）
1. 設計・アーキテクチャ
   - この変更はこのファイルにあるべきか（責務の分離）
   - 関数/モジュールの肥大化につながっていないか
   - 適切な抽象化がされているか
2. コード品質
   - 関数が長すぎないか（50行超えは要注意）
   - 重複コードはないか
   - 命名は適切か
3. バグ・セキュリティ（明らかな問題のみ）

## 出力形式
- 問題がある場合は「⚠」で具体的に指摘
- 設計改善の提案があれば「💡」で提案
- 問題がない場合は「✓ 問題なし」
- 簡潔に（5行以内）";

/// The extensions of the files that are reviewed, in lower case.
pub open spec fn code_extensions() -> Seq<Seq<char>> {
    seq!["rs"@, "ts"@, "tsx"@, "js"@, "py"@]
}

/// Whether a file with this extension is reviewed: the extension, in lower
/// case, is one of the code extensions; a file without one is not.
pub open spec fn is_code_extension(extension: Option<Seq<char>>) -> bool {
    match extension {
        Some(e) => code_extensions().contains(lowercase_of(e)),
        None => false,
    }
}

/// Whether a file with this extension is reviewed.
pub fn is_code_file(extension: Option<&str>) -> (r: bool)
    ensures
        r == is_code_extension(opt_str_view(extension)),
{
    match extension {
        Some(e) => {
            let lower = to_lowercase(e);
            let r = lower == String::from_str("rs") || lower == String::from_str("ts") || lower
                == String::from_str("tsx") || lower == String::from_str("js") || lower
                == String::from_str("py");
            proof {
                let exts = code_extensions();
                assert(exts[0] == "rs"@ && exts[1] == "ts"@ && exts[2] == "tsx"@ && exts[3]
                    == "js"@ && exts[4] == "py"@);
            }
            r
        },
        None => false,
    }
}

/// When a path was last accepted for review.
pub struct ReviewStamp {
    pub path: String,
    pub at_ms: u64,
}

/// The last accepted review of each path, each path once.
pub struct ReviewDebounce {
    pub stamps: Vec<ReviewStamp>,
}

/// The time of the last accepted review of `path`, if there was one.
pub open spec fn last_review(stamps: Seq<ReviewStamp>, path: Seq<char>) -> Option<u64>
    decreases stamps.len(),
{
    if stamps.len() == 0 {
        None
    } else if stamps[0].path@ == path {
        Some(stamps[0].at_ms)
    } else {
        last_review(stamps.drop_first(), path)
    }
}

/// Whether a trigger at `now_ms` is accepted after a last review at `last`:
/// always without one, else when the window has passed; a clock that went
/// back counts as no time passed.
pub open spec fn accepts(last: Option<u64>, now_ms: u64) -> bool {
    match last {
        Some(t) => now_ms >= t && now_ms - t >= CODE_REVIEW_DEBOUNCE_MS,
        None => true,
    }
}

proof fn lemma_last_review_update(stamps: Seq<ReviewStamp>, i: int, stamp: ReviewStamp, other: Seq<char>)
    requires
        0 <= i < stamps.len(),
        stamps[i].path@ == stamp.path@,
        forall|j: int| 0 <= j < i ==> (#[trigger] stamps[j]).path@ != stamp.path@,
    ensures
        last_review(stamps.update(i, stamp), stamp.path@) == Some(stamp.at_ms),
        other != stamp.path@ ==> last_review(stamps.update(i, stamp), other) == last_review(
            stamps,
            other,
        ),
    decreases stamps.len(),
{
    let after = stamps.update(i, stamp);
    if i == 0 {
        assert(after.drop_first() =~= stamps.drop_first());
    } else {
        assert(stamps[0].path@ != stamp.path@);
        assert(after[0] == stamps[0]);
        assert(after.drop_first() =~= stamps.drop_first().update(i - 1, stamp));
        assert forall|j: int| 0 <= j < i - 1 implies (#[trigger] stamps.drop_first()[j]).path@
            != stamp.path@ by {
            assert(stamps.drop_first()[j] == stamps[j + 1]);
        }
        lemma_last_review_update(stamps.drop_first(), i - 1, stamp, other);
    }
}

proof fn lemma_last_review_push(stamps: Seq<ReviewStamp>, stamp: ReviewStamp, other: Seq<char>)
    requires
        forall|j: int| 0 <= j < stamps.len() ==> (#[trigger] stamps[j]).path@ != stamp.path@,
    ensures
        last_review(stamps.push(stamp), stamp.path@) == Some(stamp.at_ms),
        other != stamp.path@ ==> last_review(stamps.push(stamp), other) == last_review(
            stamps,
            other,
        ),
    decreases stamps.len(),
{
    let after = stamps.push(stamp);
    if stamps.len() == 0 {
        assert(after.drop_first() =~= stamps);
    } else {
        assert(stamps[0].path@ != stamp.path@);
        assert(after[0] == stamps[0]);
        assert(after.drop_first() =~= stamps.drop_first().push(stamp));
        assert forall|j: int| 0 <= j < stamps.drop_first().len() implies (
        #[trigger] stamps.drop_first()[j]).path@ != stamp.path@ by {
            assert(stamps.drop_first()[j] == stamps[j + 1]);
        }
        lemma_last_review_push(stamps.drop_first(), stamp, other);
    }
}

impl ReviewDebounce {
    /// No path occurs twice.
    pub open spec fn wf(&self) -> bool {
        forall|i: int, j: int|
            0 <= i < j < self.stamps@.len() ==> (#[trigger] self.stamps@[i]).path@ != (
            #[trigger] self.stamps@[j]).path@
    }

    /// The time of the last accepted review of `path`, if there was one.
    pub open spec fn last(&self, path: Seq<char>) -> Option<u64> {
        last_review(self.stamps@, path)
    }

    /// A state without any review.
    pub fn new() -> (r: Self)
        ensures
            r.wf(),
            forall|path: Seq<char>| r.last(path) is None,
    {
        ReviewDebounce { stamps: Vec::new() }
    }

    fn find(&self, path: &str) -> (r: Option<usize>)
        ensures
            match r {
                Some(i) => i < self.stamps@.len() && self.stamps@[i as int].path@ == path@
                    && self.last(path@) == Some(self.stamps@[i as int].at_ms) && forall|j: int|
                    0 <= j < i ==> (#[trigger] self.stamps@[j]).path@ != path@,
                None => self.last(path@) is None && forall|j: int|
                    0 <= j < self.stamps@.len() ==> (#[trigger] self.stamps@[j]).path@ != path@,
            },
    {
        let key = String::from_str(path);
        let mut i: usize = 0;
        proof {
            assert(self.stamps@.skip(0) =~= self.stamps@);
        }
        while i < self.stamps.len()
            invariant
                i <= self.stamps@.len(),
                key@ == path@,
                last_review(self.stamps@, path@) == last_review(self.stamps@.skip(i as int), path@),
                forall|j: int| 0 <= j < i ==> (#[trigger] self.stamps@[j]).path@ != path@,
            decreases self.stamps@.len() - i,
        {
            proof {
                assert(self.stamps@.skip(i as int)[0] == self.stamps@[i as int]);
                assert(self.stamps@.skip(i as int).drop_first() =~= self.stamps@.skip(i + 1));
            }
            if key == self.stamps[i].path {
                return Some(i);
            }
            i += 1;
        }
        None
    }

    /// Decides on a trigger for `path` at `now_ms`: a trigger within the
    /// window after the path's last accepted one is rejected and changes
    /// nothing; any other is accepted and becomes the path's last.
    pub fn should_review(&mut self, path: &str, now_ms: u64) -> (r: bool)
        requires
            old(self).wf(),
        ensures
            final(self).wf(),
            r == accepts(old(self).last(path@), now_ms),
            final(self).last(path@) == if r {
                Some(now_ms)
            } else {
                old(self).last(path@)
            },
            forall|other: Seq<char>|
                other != path@ ==> final(self).last(other) == old(self).last(other),
    {
        let ghost before = self.stamps@;
        match self.find(path) {
            Some(i) => {
                let last = self.stamps[i].at_ms;
                if now_ms >= last && now_ms - last >= CODE_REVIEW_DEBOUNCE_MS {
                    let stamp = ReviewStamp { path: String::from_str(path), at_ms: now_ms };
                    self.stamps[i] = stamp;
                    proof {
                        assert(self.stamps@ =~= before.update(i as int, stamp));
                        lemma_last_review_update(before, i as int, stamp, path@);
                        assert forall|other: Seq<char>| other != path@ implies self.last(other)
                            == last_review(before, other) by {
                            lemma_last_review_update(before, i as int, stamp, other);
                        }
                    }
                    true
                } else {
                    false
                }
            },
            None => {
                let stamp = ReviewStamp { path: String::from_str(path), at_ms: now_ms };
                self.stamps.push(stamp);
                proof {
                    assert(self.stamps@ =~= before.push(stamp));
                    lemma_last_review_push(before, stamp, path@);
                    assert forall|other: Seq<char>| other != path@ implies self.last(other)
                        == last_review(before, other) by {
                        lemma_last_review_push(before, stamp, other);
                    }
                }
                true
            },
        }
    }
}

/// The text of a command's output, if the command succeeded and printed
/// more than white space.
pub fn usable_output(succeeded: bool, text: &str) -> (r: Option<String>)
    ensures
        r is Some <==> succeeded && trimmed_of(text@).len() > 0,
        r is Some ==> r.unwrap()@ == text@,
{
    if succeeded && trim(text).as_str().unicode_len() > 0 {
        Some(String::from_str(text))
    } else {
        None
    }
}

/// The text to review: the diff if there is one, else the file's content;
/// nothing if what there is holds only white space.
pub fn review_content(diff: Option<String>, file: Option<String>) -> (r: Option<String>)
    ensures
        match (diff, file) {
            (Some(d), _) => r == if trimmed_of(d@).len() > 0 {
                Some(d)
            } else {
                None
            },
            (None, Some(f)) => r == if trimmed_of(f@).len() > 0 {
                Some(f)
            } else {
                None
            },
            (None, None) => r is None,
        },
{
    let content = match diff {
        Some(d) => Some(d),
        None => file,
    };
    match content {
        Some(c) => {
            if trim(c.as_str()).as_str().unicode_len() > 0 {
                Some(c)
            } else {
                None
            }
        },
        None => None,
    }
}

/// The prompt that asks for a review of a change to the named file.
pub open spec fn review_prompt(file_name: Seq<char>, content: Seq<char>) -> Seq<char> {
    REVIEW_HEAD@ + file_name + REVIEW_OPEN@ + content + REVIEW_RULES@
}

/// Builds the prompt that asks for a review.
pub fn build_review_prompt(file_name: &str, content: &str) -> (r: String)
    ensures
        r@ == review_prompt(file_name@, content@),
{
    let mut out = String::from_str(REVIEW_HEAD);
    out.append(file_name);
    out.append(REVIEW_OPEN);
    out.append(content);
    out.append(REVIEW_RULES);
    out
}

} // verus!
