//! Picking entries of a list by position.

use vstd::prelude::*;

use crate::manifest::{all_confined, confined, ContentFile, ContentFileView};
use crate::plan::unique_paths;

verus! {

/// The entries whose position is marked, in their order.
pub open spec fn pick(entries: Seq<ContentFileView>, marked: spec_fn(int) -> bool) -> Seq<
    ContentFileView,
>
    decreases entries.len(),
{
    if entries.len() == 0 {
        entries
    } else if marked(entries.len() - 1) {
        pick(entries.drop_last(), marked).push(entries.last())
    } else {
        pick(entries.drop_last(), marked)
    }
}

/// Some position of the list is marked.
pub open spec fn any_marked(len: nat, marked: spec_fn(int) -> bool) -> bool {
    exists|i: int| 0 <= i < len && #[trigger] marked(i)
}

/// What is picked are the marked entries and no others; nothing is picked
/// exactly when nothing is marked.
pub proof fn lemma_pick_members(entries: Seq<ContentFileView>, marked: spec_fn(int) -> bool)
    ensures
        pick(entries, marked).len() <= entries.len(),
        forall|i: int|
            0 <= i < entries.len() && #[trigger] marked(i) ==> pick(entries, marked).contains(
                entries[i],
            ),
        forall|k: int|
            0 <= k < pick(entries, marked).len() ==> exists|i: int|
                0 <= i < entries.len() && #[trigger] marked(i) && entries[i] == #[trigger] pick(
                    entries,
                    marked,
                )[k],
        pick(entries, marked).len() == 0 <==> !any_marked(entries.len(), marked),
    decreases entries.len(),
{
    let out = pick(entries, marked);
    if entries.len() > 0 {
        let front = entries.drop_last();
        let kept = pick(front, marked);
        let last = entries.len() - 1;
        lemma_pick_members(front, marked);
        assert forall|i: int| 0 <= i < entries.len() && #[trigger] marked(i) implies out.contains(
            entries[i],
        ) by {
            if i < last {
                assert(kept.contains(front[i]));
                let k = choose|k: int| 0 <= k < kept.len() && kept[k] == front[i];
                assert(out[k] == entries[i]);
            } else {
                assert(out[out.len() - 1] == entries[i]);
            }
        }
        assert forall|k: int| 0 <= k < out.len() implies exists|i: int|
            0 <= i < entries.len() && #[trigger] marked(i) && entries[i] == #[trigger] out[k] by {
            if k < kept.len() {
                let i = choose|i: int| 0 <= i < front.len() && #[trigger] marked(i) && front[i] == kept[k];
                assert(marked(i) && entries[i] == out[k]);
            } else {
                assert(marked(last) && entries[last] == out[k]);
            }
        }
        if any_marked(entries.len(), marked) {
            let i = choose|i: int| 0 <= i < entries.len() && #[trigger] marked(i);
            assert(out.contains(entries[i]));
        }
        if out.len() > 0 {
            let i = choose|i: int|
                0 <= i < entries.len() && #[trigger] marked(i) && entries[i] == out[0];
            assert(marked(i));
        }
    }
}

/// Picking from a list without repeated paths gives a list without repeated
/// paths, and confined paths stay confined.
pub proof fn lemma_pick_keeps_shape(entries: Seq<ContentFileView>, marked: spec_fn(int) -> bool)
    ensures
        unique_paths(entries) ==> unique_paths(pick(entries, marked)),
        all_confined(entries) ==> all_confined(pick(entries, marked)),
        forall|k: int|
            0 <= k < pick(entries, marked).len() ==> entries.contains(
                #[trigger] pick(entries, marked)[k],
            ),
    decreases entries.len(),
{
    let out = pick(entries, marked);
    if entries.len() > 0 {
        let front = entries.drop_last();
        let kept = pick(front, marked);
        lemma_pick_keeps_shape(front, marked);
        assert forall|k: int| 0 <= k < out.len() implies entries.contains(#[trigger] out[k]) by {
            if k < kept.len() {
                assert(front.contains(kept[k]));
                let i = choose|i: int| 0 <= i < front.len() && front[i] == kept[k];
                assert(entries[i] == out[k]);
            } else {
                assert(entries[entries.len() - 1] == out[k]);
            }
        }
        if unique_paths(entries) {
            assert forall|i: int, j: int| 0 <= i < j < front.len() implies (
            #[trigger] front[i]).file_path != (#[trigger] front[j]).file_path by {
                assert(entries[i].file_path != entries[j].file_path);
            }
            assert forall|i: int, j: int| 0 <= i < j < out.len() implies (#[trigger] out[i]).file_path
                != (#[trigger] out[j]).file_path by {
                if j < kept.len() {
                    assert(kept[i].file_path != kept[j].file_path);
                } else {
                    assert(front.contains(kept[i]));
                    let a = choose|a: int| 0 <= a < front.len() && front[a] == kept[i];
                    assert(entries[a].file_path != entries[entries.len() - 1].file_path);
                }
            }
        }
        if all_confined(entries) {
            assert forall|k: int| 0 <= k < out.len() implies confined(
                (#[trigger] out[k]).file_path,
            ) by {
                assert(entries.contains(out[k]));
                let i = choose|i: int| 0 <= i < entries.len() && entries[i] == out[k];
                assert(confined(entries[i].file_path));
            }
        }
    }
}

/// Copies the files whose position is marked `true`; a position without a
/// mark counts as unmarked.
pub fn pick_files(files: &Vec<ContentFile>, marks: &Vec<bool>) -> (picked: Vec<ContentFile>)
    ensures
        picked.deep_view() == pick(
            files.deep_view(),
            |i: int| 0 <= i < marks@.len() && marks@[i],
        ),
{
    let ghost all = files.deep_view();
    let ghost marked = |i: int| 0 <= i < marks@.len() && marks@[i];
    let mut picked: Vec<ContentFile> = Vec::new();
    proof {
        assert(all.take(0) =~= Seq::<ContentFileView>::empty());
    }
    for i in 0..files.len()
        invariant
            all == files.deep_view(),
            marked == (|i: int| 0 <= i < marks@.len() && marks@[i]),
            picked.deep_view() == pick(all.take(i as int), marked),
    {
        proof {
            assert(all.take(i + 1).drop_last() =~= all.take(i as int));
        }
        if i < marks.len() && marks[i] {
            let ghost before = picked.deep_view();
            picked.push(files[i].clone());
            assert(picked.deep_view() =~= before.push(all[i as int]));
        }
    }
    proof {
        assert(all.take(files.len() as int) =~= all);
    }
    picked
}

} // verus!
