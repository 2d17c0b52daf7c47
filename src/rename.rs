//! The reverse renaming pass: downloaded files get a chronological index,
//! counted from the least recently liked post.

use vstd::prelude::*;
use crate::text::{decimal, decimal_string, last_segment, lemma_segment_start_bounds, parent_prefix, segment_start_exec};

verus! {

/// One rename: the file at `from` is to be moved to `to`.
pub struct Rename {
    pub from: String,
    pub to: String,
}

/// The path `p` with its file name prefixed by `"{index} - "`.
pub open spec fn indexed_path(p: Seq<char>, index: nat) -> Seq<char> {
    parent_prefix(p) + decimal(index) + " - "@ + last_segment(p)
}

/// The renames of one post's files, in order, under the index `index`;
/// files that were not obtained are skipped.
pub open spec fn group_renames(g: Seq<Option<String>>, index: nat) -> Seq<(Seq<char>, Seq<char>)>
    decreases g.len(),
{
    if g.len() == 0 {
        Seq::empty()
    } else {
        group_renames(g.drop_last(), index) + match g.last() {
            Some(p) => seq![(p@, indexed_path(p@, index))],
            None => Seq::empty(),
        }
    }
}

/// The renames of the last `k` groups of `files`, walked from the last
/// group (index 1) backwards.
pub open spec fn renames_upto(files: Seq<Vec<Option<String>>>, k: nat) -> Seq<(Seq<char>, Seq<char>)>
    decreases k,
{
    if k == 0 || k > files.len() {
        Seq::empty()
    } else {
        renames_upto(files, (k - 1) as nat) + group_renames(files[files.len() - k]@, k)
    }
}

/// The renames of all of `files`, which are in arrival order, newest-liked
/// first: the last group gets index 1, the first the number of groups.
pub open spec fn renames_of(files: Seq<Vec<Option<String>>>) -> Seq<(Seq<char>, Seq<char>)> {
    renames_upto(files, files.len())
}

/// Views of a sequence of renames.
pub open spec fn rename_views(v: Seq<Rename>) -> Seq<(Seq<char>, Seq<char>)> {
    v.map_values(|r: Rename| (r.from@, r.to@))
}

/// The path `p` with its file name prefixed by `"{index} - "`.
pub fn indexed_path_exec(p: &str, index: u64) -> (r: String)
    ensures
        r@ == indexed_path(p@, index as nat),
{
    proof {
        lemma_segment_start_bounds(p@);
    }
    let start = segment_start_exec(p);
    let n = p.unicode_len();
    let mut r = String::from_str(p.substring_char(0, start));
    let num = decimal_string(index);
    r.append(num.as_str());
    r.append(" - ");
    r.append(p.substring_char(start, n));
    r
}

fn push_group_renames(g: &Vec<Option<String>>, index: u64, out: &mut Vec<Rename>)
    ensures
        rename_views(final(out)@) == rename_views(old(out)@) + group_renames(g@, index as nat),
{
    let ghost start = rename_views(out@);
    let mut i: usize = 0;
    while i < g.len()
        invariant
            i <= g@.len(),
            rename_views(out@) == start + group_renames(g@.take(i as int), index as nat),
        decreases g@.len() - i,
    {
        let ghost before = out@;
        let ghost t = g@.take(i as int + 1);
        assert(t.drop_last() =~= g@.take(i as int));
        match &g[i] {
            Some(p) => {
                let to = indexed_path_exec(p.as_str(), index);
                out.push(Rename { from: p.clone(), to });
                proof {
                    assert(rename_views(out@) =~= rename_views(before) + seq![(p@, indexed_path(p@, index as nat))]);
                }
            },
            None => {},
        }
        i = i + 1;
        proof {
            assert(rename_views(out@) =~= start + group_renames(g@.take(i as int), index as nat));
        }
    }
    assert(g@.take(i as int) =~= g@);
}

/// The renames that restore like order: groups are in arrival order,
/// newest-liked first; walking them from the last, the group met k-th
/// gives each of its files the index k.
pub fn rename_plan(files: &Vec<Vec<Option<String>>>) -> (r: Vec<Rename>)
    ensures
        rename_views(r@) == renames_of(files@),
{
    let n = files.len();
    let mut out: Vec<Rename> = Vec::new();
    let mut k: usize = 0;
    assert(rename_views(out@) =~= Seq::<(Seq<char>, Seq<char>)>::empty());
    while k < n
        invariant
            n == files@.len(),
            k <= n,
            rename_views(out@) == renames_upto(files@, k as nat),
        decreases n - k,
    {
        push_group_renames(&files[n - 1 - k], (k + 1) as u64, &mut out);
        k = k + 1;
    }
    out
}

/// The file of the post met k-th from the end, in arrival order.
pub open spec fn only_file(files: Seq<Vec<Option<String>>>, k: int) -> Seq<char> {
    files[files.len() - k]@[0]->Some_0@
}

proof fn lemma_upto_single(files: Seq<Vec<Option<String>>>, k: nat)
    requires
        k <= files.len(),
        forall|i: int| 0 <= i < files.len() ==> (#[trigger] files[i]@).len() == 1 && files[i]@[0] is Some,
    ensures
        renames_upto(files, k).len() == k,
        forall|j: int| 0 <= j < k ==> #[trigger] renames_upto(files, k)[j]
            == (only_file(files, j + 1), indexed_path(only_file(files, j + 1), (j + 1) as nat)),
    decreases k,
{
    if k > 0 {
        lemma_upto_single(files, (k - 1) as nat);
        let g = files[files.len() - k]@;
        assert(g.len() == 1);
        assert(g.drop_last() =~= Seq::<Option<String>>::empty());
        assert(group_renames(g.drop_last(), k) =~= Seq::empty());
    }
}

/// Where every post has exactly one file, the renames go from the least
/// recently liked post (the last to arrive) to the newest, and the j-th of
/// them (from 0) gives its file the index j + 1.
pub proof fn lemma_one_file_per_post(files: Seq<Vec<Option<String>>>)
    requires
        forall|i: int| 0 <= i < files.len() ==> (#[trigger] files[i]@).len() == 1 && files[i]@[0] is Some,
    ensures
        renames_of(files).len() == files.len(),
        forall|j: int| 0 <= j < files.len() ==> #[trigger] renames_of(files)[j]
            == (only_file(files, j + 1), indexed_path(only_file(files, j + 1), (j + 1) as nat)),
{
    lemma_upto_single(files, files.len());
}

} // verus!
