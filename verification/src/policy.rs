//! The policy that decides whether a detected file is analysed by itself.

use vstd::prelude::*;
use vstd::string::StringExecFns;
use crate::text::{contains, is_substring, lowercase_of, strs, to_lowercase};

verus! {

/// A file that the watcher has seen and that waits for its analysis.
#[derive(Clone)]
pub struct PendingFile {
    pub path: String,
    pub name: String,
    pub detected_at: String,
    pub size_bytes: u64,
}

/// The conditions under which a detected file is queued by itself.
#[derive(Clone)]
pub struct AnalyzePolicy {
    pub auto_analyze: bool,
    pub include_patterns: Vec<String>,
    pub exclude_patterns: Vec<String>,
    pub min_size_bytes: u64,
    pub max_size_bytes: u64,
}

/// The name holds the pattern, both taken in lower case.
pub open spec fn matches_pattern(name: Seq<char>, pattern: Seq<char>) -> bool {
    is_substring(lowercase_of(pattern), lowercase_of(name))
}

/// The name holds one of the patterns, case aside.
pub open spec fn matches_any(name: Seq<char>, patterns: Seq<Seq<char>>) -> bool {
    exists|k: int| 0 <= k < patterns.len() && matches_pattern(name, #[trigger] patterns[k])
}

/// Whether the policy queues the file: automatic analysis is on, the size
/// lies within the bounds, no exclude pattern matches the name, and an
/// include pattern matches it or there is none.
pub open spec fn auto_analyzed(policy: AnalyzePolicy, file: PendingFile) -> bool {
    &&& policy.auto_analyze
    &&& policy.min_size_bytes <= file.size_bytes <= policy.max_size_bytes
    &&& !matches_any(file.name@, strs(policy.exclude_patterns@))
    &&& (policy.include_patterns@.len() == 0 || matches_any(
        file.name@,
        strs(policy.include_patterns@),
    ))
}

/// Whether the name holds one of the patterns, case aside.
pub fn name_matches_any(name: &str, patterns: &Vec<String>) -> (r: bool)
    ensures
        r == matches_any(name@, strs(patterns@)),
{
    let lower = to_lowercase(name);
    let mut k: usize = 0;
    while k < patterns.len()
        invariant
            k <= patterns@.len(),
            lower@ == lowercase_of(name@),
            forall|j: int| 0 <= j < k ==> !matches_pattern(name@, #[trigger] strs(patterns@)[j]),
        decreases patterns@.len() - k,
    {
        let pattern = to_lowercase(patterns[k].as_str());
        if contains(lower.as_str(), pattern.as_str()) {
            assert(matches_pattern(name@, strs(patterns@)[k as int]));
            return true;
        }
        k += 1;
    }
    false
}

/// Whether the policy queues the file for analysis by itself.
pub fn should_auto_analyze(policy: &AnalyzePolicy, file: &PendingFile) -> (r: bool)
    ensures
        r == auto_analyzed(*policy, *file),
        !policy.auto_analyze ==> !r,
        file.size_bytes < policy.min_size_bytes || file.size_bytes > policy.max_size_bytes ==> !r,
        matches_any(file.name@, strs(policy.exclude_patterns@)) ==> !r,
{
    if !policy.auto_analyze {
        return false;
    }
    if file.size_bytes < policy.min_size_bytes || file.size_bytes > policy.max_size_bytes {
        return false;
    }
    if name_matches_any(file.name.as_str(), &policy.exclude_patterns) {
        return false;
    }
    if policy.include_patterns.len() == 0 {
        return true;
    }
    name_matches_any(file.name.as_str(), &policy.include_patterns)
}


/// The files that wait for their analysis, in the order of detection.
pub struct PendingList {
    pub files: Vec<PendingFile>,
}

/// The paths of a sequence of pending files.
pub open spec fn paths_of(files: Seq<PendingFile>) -> Seq<Seq<char>> {
    Seq::new(files.len(), |i: int| files[i].path@)
}

/// The files whose path is not `path`, in their order.
pub open spec fn without_path(files: Seq<PendingFile>, path: Seq<char>) -> Seq<PendingFile>
    decreases files.len(),
{
    if files.len() == 0 {
        seq![]
    } else if files.last().path@ == path {
        without_path(files.drop_last(), path)
    } else {
        without_path(files.drop_last(), path).push(files.last())
    }
}

/// Removing a path leaves no file of that path.
pub proof fn lemma_without_path(files: Seq<PendingFile>, path: Seq<char>)
    ensures
        without_path(files, path).len() <= files.len(),
        !paths_of(without_path(files, path)).contains(path),
    decreases files.len(),
{
    if files.len() > 0 {
        lemma_without_path(files.drop_last(), path);
        let rest = without_path(files.drop_last(), path);
        if files.last().path@ != path {
            let all = rest.push(files.last());
            assert forall|i: int| 0 <= i < all.len() implies paths_of(all)[i] != path by {
                if i < rest.len() {
                    assert(paths_of(rest)[i] == rest[i].path@);
                    assert(paths_of(rest).contains(paths_of(rest)[i]));
                }
            }
        }
    }
}

impl PendingList {
    /// A list without files.
    pub fn new() -> (r: Self)
        ensures
            r.files@.len() == 0,
    {
        PendingList { files: Vec::new() }
    }

    /// Puts a detected file at the end of the list.
    pub fn add(&mut self, file: PendingFile)
        ensures
            final(self).files@ == old(self).files@.push(file),
    {
        self.files.push(file);
    }

    /// Takes every file of the given path out of the list, when its
    /// analysis is requested or the user dismisses it; returns how many
    /// files left the list.
    pub fn remove(&mut self, path: &str) -> (removed: usize)
        ensures
            final(self).files@ == without_path(old(self).files@, path@),
            removed == old(self).files@.len() - final(self).files@.len(),
            !paths_of(final(self).files@).contains(path@),
    {
        let ghost before = self.files@;
        let total = self.files.len();
        let key = String::from_str(path);
        let mut i: usize = 0;
        let mut removed: usize = 0;
        proof {
            assert(before.take(0) =~= Seq::<PendingFile>::empty());
            assert(before.skip(0) =~= before);
            assert(without_path(before.take(0), path@) + before =~= before);
        }
        while i < self.files.len()
            invariant
                i <= self.files@.len(),
                key@ == path@,
                total == before.len(),
                removed + self.files@.len() == before.len(),
                self.files@ == without_path(before.take(i + removed), path@) + before.skip(
                    i + removed,
                ),
                i == without_path(before.take(i + removed), path@).len(),
            decreases self.files@.len() - i,
        {
            let ghost done = without_path(before.take(i + removed), path@);
            proof {
                assert(self.files@[i as int] == before[i + removed]);
                assert(before.take(i + removed + 1).drop_last() =~= before.take(i + removed));
                assert(before.take(i + removed + 1).last() == before[i + removed]);
            }
            if self.files[i].path == key {
                self.files.remove(i);
                removed += 1;
                proof {
                    assert(self.files@ =~= done + before.skip(i + removed));
                }
            } else {
                proof {
                    assert(self.files@ =~= done.push(before[i + removed]) + before.skip(
                        i + removed + 1,
                    ));
                }
                i += 1;
            }
        }
        proof {
            assert(before.take(before.len() as int) =~= before);
            assert(self.files@ =~= without_path(before, path@));
            lemma_without_path(before, path@);
        }
        removed
    }
}

} // verus!
