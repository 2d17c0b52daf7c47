//! The deduplication decision of the downloader: whether a remote file is
//! already archived in a folder, and where it is or is to be written.

use vstd::prelude::*;
use crate::text::{contains, contains_exec, last_segment, last_segment_exec, occurs_at, views};

verus! {

/// What a download comes to.
pub enum DownloadPlan {
    /// A local copy exists at this path: no request is made.
    Existing(String),
    /// The file is to be fetched and written to this path.
    Transfer(String),
}

/// Mathematical view of a [`DownloadPlan`].
pub enum PlanView {
    Existing(Seq<char>),
    Transfer(Seq<char>),
}

impl View for DownloadPlan {
    type V = PlanView;

    open spec fn view(&self) -> PlanView {
        match self {
            DownloadPlan::Existing(p) => PlanView::Existing(p@),
            DownloadPlan::Transfer(p) => PlanView::Transfer(p@),
        }
    }
}

/// `a` + "/" + `b`.
pub open spec fn join_path(a: Seq<char>, b: Seq<char>) -> Seq<char> {
    a + "/"@ + b
}

/// Index of the first of `names`, from `i` on, that contains `pat`, or the
/// length of `names` where none does.
pub open spec fn first_holding(names: Seq<Seq<char>>, pat: Seq<char>, i: int) -> int
    decreases names.len() - i,
{
    if i < 0 || i >= names.len() {
        names.len() as int
    } else if contains(names[i], pat) {
        i
    } else {
        first_holding(names, pat, i + 1)
    }
}

/// The plan for `url` in the folder `folder_path` whose entries are named
/// `names`: the first entry whose name contains the URL's final segment is
/// taken as its local copy; where none does, the file is fetched under that
/// segment's name.
pub open spec fn plan_of(folder_path: Seq<char>, url: Seq<char>, names: Seq<Seq<char>>) -> PlanView {
    let name = last_segment(url);
    let k = first_holding(names, name, 0);
    if k < names.len() {
        PlanView::Existing(join_path(folder_path, names[k]))
    } else {
        PlanView::Transfer(join_path(folder_path, name))
    }
}

/// The entry names of the folder after a download planned as `plan` for
/// `url`, where a transfer succeeded and wrote its file.
pub open spec fn names_after(plan: PlanView, url: Seq<char>, names: Seq<Seq<char>>) -> Seq<Seq<char>> {
    match plan {
        PlanView::Existing(_) => names,
        PlanView::Transfer(_) => names.push(last_segment(url)),
    }
}

/// The path a plan leads to.
pub open spec fn plan_path(plan: PlanView) -> Seq<char> {
    match plan {
        PlanView::Existing(p) => p,
        PlanView::Transfer(p) => p,
    }
}

proof fn lemma_first_holding_bounds(names: Seq<Seq<char>>, pat: Seq<char>, i: int)
    requires
        0 <= i <= names.len(),
    ensures
        i <= first_holding(names, pat, i) <= names.len(),
        first_holding(names, pat, i) < names.len() ==> contains(names[first_holding(names, pat, i)], pat),
        forall|j: int| i <= j < first_holding(names, pat, i) ==> !contains(names[j], pat),
    decreases names.len() - i,
{
    if i < names.len() && !contains(names[i], pat) {
        lemma_first_holding_bounds(names, pat, i + 1);
    }
}

proof fn lemma_first_holding_none(names: Seq<Seq<char>>, pat: Seq<char>, i: int)
    requires
        0 <= i <= names.len(),
        forall|j: int| i <= j < names.len() ==> !contains(#[trigger] names[j], pat),
    ensures
        first_holding(names, pat, i) == names.len(),
    decreases names.len() - i,
{
    if i < names.len() {
        lemma_first_holding_none(names, pat, i + 1);
    }
}

proof fn lemma_first_holding_push(names: Seq<Seq<char>>, pat: Seq<char>, extra: Seq<char>, i: int)
    requires
        0 <= i <= names.len(),
        forall|j: int| i <= j < names.len() ==> !contains(#[trigger] names[j], pat),
        contains(extra, pat),
    ensures
        first_holding(names.push(extra), pat, i) == names.len(),
    decreases names.len() - i,
{
    let grown = names.push(extra);
    if i < names.len() {
        assert(grown[i] == names[i]);
        lemma_first_holding_push(names, pat, extra, i + 1);
    } else {
        assert(grown[i] == extra);
    }
}

/// Decides how to obtain `url` in `directory`/`folder`, given the names of
/// the entries that folder holds now.
pub fn plan_download(directory: &str, folder: &str, url: &str, entries: &Vec<String>) -> (r: DownloadPlan)
    ensures
        r@ == plan_of(join_path(directory@, folder@), url@, views(entries@)),
{
    let ghost names = views(entries@);
    let mut folder_path = String::from_str(directory);
    folder_path.append("/");
    folder_path.append(folder);
    let name = last_segment_exec(url);
    assert(folder_path@ =~= join_path(directory@, folder@));
    let mut i: usize = 0;
    while i < entries.len()
        invariant
            names == views(entries@),
            i <= entries@.len(),
            forall|j: int| 0 <= j < i ==> !contains(#[trigger] names[j], name@),
            folder_path@ == join_path(directory@, folder@),
            name@ == last_segment(url@),
        decreases entries@.len() - i,
    {
        if contains_exec(entries[i].as_str(), name.as_str()) {
            proof {
                assert(names[i as int] == entries@[i as int]@);
                lemma_first_holding_found(names, name@, 0, i as int);
            }
            let mut p = folder_path;
            p.append("/");
            p.append(entries[i].as_str());
            assert(p@ =~= join_path(join_path(directory@, folder@), names[i as int]));
            return DownloadPlan::Existing(p);
        }
        i = i + 1;
    }
    proof {
        lemma_first_holding_none(names, name@, 0);
    }
    let mut p = folder_path;
    p.append("/");
    p.append(name.as_str());
    assert(p@ =~= join_path(join_path(directory@, folder@), name@));
    DownloadPlan::Transfer(p)
}

proof fn lemma_first_holding_found(names: Seq<Seq<char>>, pat: Seq<char>, i: int, k: int)
    requires
        0 <= i <= k < names.len(),
        forall|j: int| i <= j < k ==> !contains(#[trigger] names[j], pat),
        contains(names[k], pat),
    ensures
        first_holding(names, pat, i) == k,
    decreases k - i,
{
    if i < k {
        lemma_first_holding_found(names, pat, i + 1, k);
    }
}

/// Downloading the same URL into the same folder twice, the second time
/// with the folder as the first left it, makes at most one transfer: the
/// second call finds a local copy, at the very path the first one gave.
pub proof fn lemma_download_twice(folder_path: Seq<char>, url: Seq<char>, names: Seq<Seq<char>>)
    ensures
        plan_of(folder_path, url, names_after(plan_of(folder_path, url, names), url, names))
            == PlanView::Existing(plan_path(plan_of(folder_path, url, names))),
{
    let name = last_segment(url);
    lemma_first_holding_bounds(names, name, 0);
    if first_holding(names, name, 0) >= names.len() {
        assert(name.subrange(0, name.len() as int) =~= name);
        assert(occurs_at(name, 0, name));
        lemma_first_holding_push(names, name, name, 0);
        assert(names.push(name)[names.len() as int] == name);
    }
}

} // verus!
