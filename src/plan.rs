use vstd::prelude::*;

use crate::error::ProcessError;
use crate::rules::{texts, Rules};

verus! {

/// One node found by the walk of the input tree.
pub struct Entry {
    pub path: String,
    pub is_dir: bool,
}

/// What to do with one file of the input tree.
pub struct FileTask {
    pub source: String,
    pub dest: String,
    /// Watermark the file (and carry its metadata over), rather than copy it.
    pub watermark: bool,
}

/// The work of a run: directories to create first, then files to handle.
pub struct Plan {
    pub dirs: Vec<String>,
    pub files: Vec<FileTask>,
}

/// The path and kind of each entry.
pub open spec fn entry_views(es: Seq<Entry>) -> Seq<(Seq<char>, bool)> {
    es.map_values(|e: Entry| (e.path@, e.is_dir))
}

/// Source, destination and decision of each file task.
pub open spec fn task_views(ts: Seq<FileTask>) -> Seq<(Seq<char>, Seq<char>, bool)> {
    ts.map_values(|t: FileTask| (t.source@, t.dest@, t.watermark))
}

/// `p` lies in the tree rooted at `root`: it starts with `root`, and the match ends
/// on a segment boundary.
pub open spec fn under_root(root: Seq<char>, p: Seq<char>) -> bool {
    &&& root.is_prefix_of(p)
    &&& (p.len() == root.len() || root.len() == 0 || root.last() == '/' || p[root.len() as int]
        == '/')
}

/// First position at or after `i` that is not a separator.
pub open spec fn skip_seps(p: Seq<char>, i: nat) -> nat
    decreases p.len() - i,
{
    if i < p.len() && p[i as int] == '/' {
        skip_seps(p, i + 1)
    } else {
        i
    }
}

/// `p` relative to `root`.
pub open spec fn relative(root: Seq<char>, p: Seq<char>) -> Seq<char> {
    p.subrange(skip_seps(p, root.len()) as int, p.len() as int)
}

/// `rel` placed under `base`.
pub open spec fn joined(base: Seq<char>, rel: Seq<char>) -> Seq<char> {
    if rel.len() == 0 {
        base
    } else if base.len() == 0 || base.last() == '/' {
        base + rel
    } else {
        base + seq!['/'] + rel
    }
}

/// Where `p`, found under `root`, goes under `target`.
pub open spec fn mirrored(root: Seq<char>, target: Seq<char>, p: Seq<char>) -> Seq<char> {
    joined(target, relative(root, p))
}

/// The directories to create for the entries `es`, in order.
pub open spec fn dir_plan(root: Seq<char>, target: Seq<char>, es: Seq<(Seq<char>, bool)>) -> Seq<
    Seq<char>,
>
    decreases es.len(),
{
    if es.len() == 0 {
        seq![]
    } else {
        let prev = dir_plan(root, target, es.drop_last());
        if es.last().1 {
            prev.push(mirrored(root, target, es.last().0))
        } else {
            prev
        }
    }
}

/// The file tasks for the entries `es`, in order.
pub open spec fn file_plan(
    rules: Rules,
    root: Seq<char>,
    target: Seq<char>,
    es: Seq<(Seq<char>, bool)>,
) -> Seq<(Seq<char>, Seq<char>, bool)>
    decreases es.len(),
{
    if es.len() == 0 {
        seq![]
    } else {
        let prev = file_plan(rules, root, target, es.drop_last());
        let e = es.last();
        if e.1 {
            prev
        } else {
            prev.push((e.0, mirrored(root, target, e.0), rules.eligible(e.0)))
        }
    }
}

/// Where `path`, found under `root`, goes under `target`; `None` when `path` is not
/// under `root`.
pub fn mirror_path(root: &str, target: &str, path: &str) -> (r: Option<String>)
    ensures
        r is Some <==> under_root(root@, path@),
        r is Some ==> r->0@ == mirrored(root@, target@, path@),
{
    let n = path.unicode_len();
    let m = root.unicode_len();
    if m > n {
        return None;
    }
    let mut i: usize = 0;
    while i < m
        invariant
            m == root@.len() <= n == path@.len(),
            i <= m,
            forall|j: int| 0 <= j < i ==> root@[j] == path@[j],
        decreases m - i,
    {
        if root.get_char(i) != path.get_char(i) {
            return None;
        }
        i = i + 1;
    }
    assert(root@ =~= path@.subrange(0, m as int));
    if !(n == m || m == 0 || root.get_char(m - 1) == '/' || path.get_char(m) == '/') {
        return None;
    }
    let mut k: usize = m;
    while k < n && path.get_char(k) == '/'
        invariant
            m <= k <= n == path@.len(),
            skip_seps(path@, m as nat) == skip_seps(path@, k as nat),
        decreases n - k,
    {
        k = k + 1;
    }
    let rel = path.substring_char(k, n);
    let mut out = String::from_str(target);
    if rel.unicode_len() > 0 {
        let t = target.unicode_len();
        if t > 0 && target.get_char(t - 1) != '/' {
            out.append("/");
        }
        out.append(rel);
    }
    proof {
        reveal_strlit("/");
        if rel@.len() > 0 && target@.len() > 0 && target@.last() != '/' {
            assert(out@ =~= target@ + seq!['/'] + rel@);
        }
    }
    Some(out)
}

/// Splits the walk of the tree rooted at `root` into the directories to create and
/// the files to watermark or copy, mirrored under `target`. Fails on the first entry
/// that is not under `root`.
pub fn plan_entries(rules: &Rules, root: &str, target: &str, entries: &Vec<Entry>) -> (r: Result<
    Plan,
    ProcessError,
>)
    ensures
        r is Ok <==> forall|i: int| 0 <= i < entries@.len() ==> under_root(root@, #[trigger] entries@[i].path@),
        r matches Ok(plan) ==> texts(plan.dirs@) == dir_plan(root@, target@, entry_views(entries@))
            && task_views(plan.files@) == file_plan(*rules, root@, target@, entry_views(entries@)),
        r matches Err(ProcessError::FsError(m)) ==> exists|i: int|
            0 <= i < entries@.len() && !under_root(root@, #[trigger] entries@[i].path@) && m@ == entries@[i].path@,
        !(r matches Err(ProcessError::MetadataError(_))),
{
    let mut dirs: Vec<String> = Vec::new();
    let mut files: Vec<FileTask> = Vec::new();
    let mut i: usize = 0;
    while i < entries.len()
        invariant
            i <= entries@.len(),
            forall|j: int| 0 <= j < i ==> under_root(root@, #[trigger] entries@[j].path@),
            texts(dirs@) == dir_plan(root@, target@, entry_views(entries@).take(i as int)),
            task_views(files@) == file_plan(*rules, root@, target@, entry_views(entries@).take(i as int)),
        decreases entries@.len() - i,
    {
        let e = &entries[i];
        let ghost es = entry_views(entries@);
        assert(es.take(i + 1).drop_last() =~= es.take(i as int));
        assert(es.take(i + 1).last() == es[i as int]);
        match mirror_path(root, target, e.path.as_str()) {
            None => {
                return Err(ProcessError::FsError(e.path.clone()));
            },
            Some(dest) => {
                if e.is_dir {
                    dirs.push(dest);
                } else {
                    let w = rules.is_file_qualified(e.path.as_str());
                    files.push(FileTask { source: e.path.clone(), dest, watermark: w });
                }
            },
        }
        proof {
            assert(texts(dirs@) =~= dir_plan(root@, target@, es.take(i + 1)));
            assert(task_views(files@) =~= file_plan(*rules, root@, target@, es.take(i + 1)));
        }
        i = i + 1;
    }
    assert(entry_views(entries@).take(i as int) =~= entry_views(entries@));
    Ok(Plan { dirs, files })
}

/// Every directory found in the input tree has a directory to create at the same
/// relative path under the target.
pub proof fn lemma_directories_mirrored(root: Seq<char>, target: Seq<char>, es: Seq<(Seq<char>, bool)>)
    ensures
        forall|i: int|
            0 <= i < es.len() && (#[trigger] es[i]).1 ==> dir_plan(root, target, es).contains(
                mirrored(root, target, es[i].0),
            ),
    decreases es.len(),
{
    if es.len() > 0 {
        let prev = es.drop_last();
        lemma_directories_mirrored(root, target, prev);
        assert forall|i: int|
            0 <= i < es.len() && (#[trigger] es[i]).1 implies dir_plan(root, target, es).contains(
            mirrored(root, target, es[i].0),
        ) by {
            let d = dir_plan(root, target, es);
            let dp = dir_plan(root, target, prev);
            if i == es.len() - 1 {
                assert(d.last() == mirrored(root, target, es[i].0));
                assert(d[d.len() - 1] == mirrored(root, target, es[i].0));
            } else {
                assert(prev[i] == es[i]);
                let k = choose|k: int| 0 <= k < dp.len() && dp[k] == mirrored(root, target, es[i].0);
                assert(d[k] == dp[k]);
            }
        }
    }
}

/// Every file found in the input tree has a task that reads it and writes the same
/// relative path under the target, and that watermarks it exactly when the rules
/// deem it eligible.
pub proof fn lemma_files_mirrored(
    rules: Rules,
    root: Seq<char>,
    target: Seq<char>,
    es: Seq<(Seq<char>, bool)>,
)
    ensures
        forall|i: int|
            0 <= i < es.len() && !(#[trigger] es[i]).1 ==> file_plan(rules, root, target, es).contains(
                (es[i].0, mirrored(root, target, es[i].0), rules.eligible(es[i].0)),
            ),
    decreases es.len(),
{
    if es.len() > 0 {
        let prev = es.drop_last();
        lemma_files_mirrored(rules, root, target, prev);
        assert forall|i: int|
            0 <= i < es.len() && !(#[trigger] es[i]).1 implies file_plan(
            rules,
            root,
            target,
            es,
        ).contains((es[i].0, mirrored(root, target, es[i].0), rules.eligible(es[i].0))) by {
            let t = (es[i].0, mirrored(root, target, es[i].0), rules.eligible(es[i].0));
            let d = file_plan(rules, root, target, es);
            let dp = file_plan(rules, root, target, prev);
            if i == es.len() - 1 {
                assert(d[d.len() - 1] == t);
            } else {
                assert(prev[i] == es[i]);
                let k = choose|k: int| 0 <= k < dp.len() && dp[k] == t;
                assert(d[k] == dp[k]);
            }
        }
    }
}

/// A file that the rules deem ineligible is copied, not watermarked, to the same
/// relative path under the target.
pub proof fn lemma_ineligible_files_copied(
    rules: Rules,
    root: Seq<char>,
    target: Seq<char>,
    es: Seq<(Seq<char>, bool)>,
)
    ensures
        forall|i: int|
            0 <= i < es.len() && !(#[trigger] es[i]).1 && !rules.eligible(es[i].0) ==> file_plan(
                rules,
                root,
                target,
                es,
            ).contains((es[i].0, mirrored(root, target, es[i].0), false)),
{
    lemma_files_mirrored(rules, root, target, es);
}

} // verus!
