//! Planning: from a manifest and a game to the files to reconcile.

use vstd::prelude::*;

use crate::game::Game;
use crate::manifest::{
    all_confined, confined, ContentFile, ContentFileView, ContentFiles, ContentFilesView,
};

verus! {

/// The bucket that belongs to the game alone.
pub open spec fn selected(manifest: ContentFilesView, game: Game) -> Seq<ContentFileView> {
    match game {
        Game::ETS2 => manifest.ets2,
        Game::ATS => manifest.ats,
    }
}

/// Some entry names the path.
pub open spec fn has_path(entries: Seq<ContentFileView>, path: Seq<char>) -> bool {
    exists|i: int| 0 <= i < entries.len() && (#[trigger] entries[i]).file_path == path
}

/// No two entries name the same path.
pub open spec fn unique_paths(entries: Seq<ContentFileView>) -> bool {
    forall|i: int, j: int|
        0 <= i < j < entries.len() ==> (#[trigger] entries[i]).file_path != (
        #[trigger] entries[j]).file_path
}

/// The entry at `at` is the first one that names its path.
pub open spec fn first_of_its_path(entries: Seq<ContentFileView>, at: int) -> bool {
    &&& 0 <= at < entries.len()
    &&& !has_path(entries.take(at), entries[at].file_path)
}

/// The entries in their order, without those whose path an earlier entry
/// names already.
pub open spec fn dedup_by_path(entries: Seq<ContentFileView>) -> Seq<ContentFileView>
    decreases entries.len(),
{
    if entries.len() == 0 {
        entries
    } else if has_path(entries.drop_last(), entries.last().file_path) {
        dedup_by_path(entries.drop_last())
    } else {
        dedup_by_path(entries.drop_last()).push(entries.last())
    }
}

/// The files to reconcile for a game: the shared bucket, then the game's
/// own bucket, each path once.
pub open spec fn working_set(manifest: ContentFilesView, game: Game) -> Seq<ContentFileView> {
    dedup_by_path(manifest.shared + selected(manifest, game))
}

/// Removing repeated paths keeps the set of paths, leaves no path twice and
/// keeps only entries of the input.
pub proof fn lemma_dedup_paths(entries: Seq<ContentFileView>)
    ensures
        forall|path: Seq<char>|
            has_path(dedup_by_path(entries), path) <==> has_path(entries, path),
        unique_paths(dedup_by_path(entries)),
        forall|i: int|
            0 <= i < dedup_by_path(entries).len() ==> entries.contains(
                #[trigger] dedup_by_path(entries)[i],
            ),
        dedup_by_path(entries).len() <= entries.len(),
    decreases entries.len(),
{
    let out = dedup_by_path(entries);
    if entries.len() > 0 {
        let front = entries.drop_last();
        let last = entries.last();
        let kept = dedup_by_path(front);
        lemma_dedup_paths(front);
        assert forall|path: Seq<char>| has_path(out, path) <==> has_path(entries, path) by {
            if has_path(entries, path) {
                let i = choose|i: int| 0 <= i < entries.len() && entries[i].file_path == path;
                if i < front.len() {
                    assert(front[i].file_path == path);
                    assert(has_path(front, path));
                    assert(has_path(kept, path));
                    let k = choose|k: int| 0 <= k < kept.len() && kept[k].file_path == path;
                    assert(out[k].file_path == path);
                } else if !has_path(front, last.file_path) {
                    assert(out[kept.len() as int].file_path == path);
                } else {
                    assert(has_path(front, path));
                    assert(has_path(kept, path));
                    let k = choose|k: int| 0 <= k < kept.len() && kept[k].file_path == path;
                    assert(out[k].file_path == path);
                }
            }
            if has_path(out, path) {
                let k = choose|k: int| 0 <= k < out.len() && out[k].file_path == path;
                if k < kept.len() {
                    assert(kept[k].file_path == path);
                    assert(has_path(kept, path));
                    assert(has_path(front, path));
                    let i = choose|i: int| 0 <= i < front.len() && front[i].file_path == path;
                    assert(entries[i].file_path == path);
                } else {
                    assert(entries[entries.len() - 1].file_path == path);
                }
            }
        }
        assert forall|i: int| 0 <= i < out.len() implies entries.contains(#[trigger] out[i]) by {
            if i < kept.len() {
                assert(front.contains(kept[i]));
                let j = choose|j: int| 0 <= j < front.len() && front[j] == kept[i];
                assert(entries[j] == out[i]);
            } else {
                assert(entries[entries.len() - 1] == out[i]);
            }
        }
        assert forall|i: int, j: int| 0 <= i < j < out.len() implies (#[trigger] out[i]).file_path
            != (#[trigger] out[j]).file_path by {
            if j < kept.len() {
                assert(kept[i].file_path != kept[j].file_path);
            } else {
                assert(kept[i].file_path == out[i].file_path);
                if out[i].file_path == out[j].file_path {
                    assert(has_path(kept, last.file_path));
                }
            }
        }
    }
}

/// A list that names no path twice is left as it is.
pub proof fn lemma_dedup_of_unique(entries: Seq<ContentFileView>)
    requires
        unique_paths(entries),
    ensures
        dedup_by_path(entries) == entries,
    decreases entries.len(),
{
    if entries.len() > 0 {
        let front = entries.drop_last();
        assert forall|i: int, j: int| 0 <= i < j < front.len() implies (#[trigger] front[i]).file_path
            != (#[trigger] front[j]).file_path by {
            assert(entries[i].file_path != entries[j].file_path);
        }
        lemma_dedup_of_unique(front);
        if has_path(front, entries.last().file_path) {
            let i = choose|i: int|
                0 <= i < front.len() && front[i].file_path == entries.last().file_path;
            assert(entries[i].file_path != entries[entries.len() - 1].file_path);
        }
        assert(front.push(entries.last()) =~= entries);
    }
}

/// Removing repeated paths a second time changes nothing.
pub proof fn lemma_dedup_idempotent(entries: Seq<ContentFileView>)
    ensures
        dedup_by_path(dedup_by_path(entries)) == dedup_by_path(entries),
{
    lemma_dedup_paths(entries);
    lemma_dedup_of_unique(dedup_by_path(entries));
}

/// What is kept of a list stays in front when more entries follow.
pub proof fn lemma_dedup_prefix(first: Seq<ContentFileView>, second: Seq<ContentFileView>)
    ensures
        dedup_by_path(first) == dedup_by_path(first + second).take(
            dedup_by_path(first).len() as int,
        ),
        dedup_by_path(first).len() <= dedup_by_path(first + second).len(),
    decreases second.len(),
{
    if second.len() == 0 {
        assert(first + second =~= first);
        assert(dedup_by_path(first).take(dedup_by_path(first).len() as int) =~= dedup_by_path(
            first,
        ));
    } else {
        let all = first + second;
        assert(all.drop_last() =~= first + second.drop_last());
        lemma_dedup_prefix(first, second.drop_last());
        let kept = dedup_by_path(all.drop_last());
        let n = dedup_by_path(first).len() as int;
        assert(dedup_by_path(all).take(n) =~= kept.take(n));
    }
}

/// The first entry that names a path is kept; where an entry is not the
/// first to name its path, an entry kept from before it names that path.
pub proof fn lemma_dedup_keeps_first(entries: Seq<ContentFileView>, at: int)
    requires
        0 <= at < entries.len(),
    ensures
        first_of_its_path(entries, at) ==> dedup_by_path(entries).contains(entries[at]),
        !first_of_its_path(entries, at) ==> has_path(
            dedup_by_path(entries.take(at)),
            entries[at].file_path,
        ),
    decreases entries.len(),
{
    let front = entries.drop_last();
    if at == entries.len() - 1 {
        assert(entries.take(at) =~= front);
        if first_of_its_path(entries, at) {
            let out = dedup_by_path(entries);
            assert(out[out.len() - 1] == entries[at]);
        } else {
            lemma_dedup_paths(front);
        }
    } else {
        assert(front.take(at) =~= entries.take(at));
        lemma_dedup_keeps_first(front, at);
        if first_of_its_path(entries, at) {
            let kept = dedup_by_path(front);
            assert(kept.contains(front[at]));
            let k = choose|k: int| 0 <= k < kept.len() && kept[k] == front[at];
            assert(dedup_by_path(entries)[k] == entries[at]);
        }
    }
}

/// Where in the input the entry stands that is kept at position `k`.
pub open spec fn kept_position(entries: Seq<ContentFileView>, k: int) -> int
    decreases entries.len(),
{
    if entries.len() == 0 {
        -1
    } else if k < dedup_by_path(entries.drop_last()).len() {
        kept_position(entries.drop_last(), k)
    } else {
        entries.len() - 1
    }
}

/// What is kept stands in the order of the input: each kept entry is the
/// input's first entry for its path, and of two kept entries the earlier
/// one comes from the earlier position.
pub proof fn lemma_dedup_in_order(entries: Seq<ContentFileView>)
    ensures
        forall|k: int|
            0 <= k < dedup_by_path(entries).len() ==> {
                &&& first_of_its_path(entries, #[trigger] kept_position(entries, k))
                &&& entries[kept_position(entries, k)] == dedup_by_path(entries)[k]
            },
        forall|j: int, k: int|
            0 <= j < k < dedup_by_path(entries).len() ==> #[trigger] kept_position(entries, j)
                < #[trigger] kept_position(entries, k),
    decreases entries.len(),
{
    if entries.len() > 0 {
        let front = entries.drop_last();
        let kept = dedup_by_path(front);
        let out = dedup_by_path(entries);
        lemma_dedup_in_order(front);
        lemma_dedup_paths(front);
        assert forall|k: int| 0 <= k < out.len() implies {
            &&& first_of_its_path(entries, #[trigger] kept_position(entries, k))
            &&& entries[kept_position(entries, k)] == out[k]
        } by {
            if k < kept.len() {
                let at = kept_position(front, k);
                assert(first_of_its_path(front, at));
                assert(front.take(at) =~= entries.take(at));
            } else {
                assert(entries.take(entries.len() - 1) =~= front);
            }
        }
        assert forall|j: int, k: int| 0 <= j < k < out.len() implies #[trigger] kept_position(
            entries,
            j,
        ) < #[trigger] kept_position(entries, k) by {
            assert(j < kept.len());
            assert(kept_position(entries, j) == kept_position(front, j));
            assert(first_of_its_path(front, kept_position(front, j)));
            if k < kept.len() {
                assert(kept_position(entries, k) == kept_position(front, k));
                assert(kept_position(front, j) < kept_position(front, k));
            } else {
                assert(kept_position(entries, k) == entries.len() - 1);
            }
        }
    }
}

/// Removing repeated paths keeps every path confined.
pub proof fn lemma_dedup_confined(entries: Seq<ContentFileView>)
    requires
        all_confined(entries),
    ensures
        all_confined(dedup_by_path(entries)),
{
    lemma_dedup_paths(entries);
    let out = dedup_by_path(entries);
    assert forall|i: int| 0 <= i < out.len() implies confined((#[trigger] out[i]).file_path) by {
        assert(entries.contains(out[i]));
        let j = choose|j: int| 0 <= j < entries.len() && entries[j] == out[i];
        assert(confined(entries[j].file_path));
    }
}

/// The path is named by exactly one entry.
pub open spec fn lists_once(entries: Seq<ContentFileView>, path: Seq<char>) -> bool {
    exists|i: int|
        0 <= i < entries.len() && (#[trigger] entries[i]).file_path == path && forall|j: int|
            0 <= j < entries.len() && (#[trigger] entries[j]).file_path == path ==> j == i
}

/// Planning depends on nothing but the manifest and the game: two plans
/// made from the same manifest for the same game are the same list, in
/// membership and in order.
pub proof fn lemma_plan_deterministic(
    manifest: ContentFilesView,
    game: Game,
    first: Seq<ContentFileView>,
    second: Seq<ContentFileView>,
)
    requires
        first == working_set(manifest, game),
        second == working_set(manifest, game),
    ensures
        first == second,
{
}

/// Planning over a plan changes nothing: a working set names no path twice,
/// so removing repeated paths from it gives it back.
pub proof fn lemma_plan_idempotent(manifest: ContentFilesView, game: Game)
    ensures
        dedup_by_path(working_set(manifest, game)) == working_set(manifest, game),
{
    lemma_dedup_idempotent(manifest.shared + selected(manifest, game));
}

/// Every path that the shared bucket or the game's bucket names, and so also
/// one that both name, is named by exactly one entry of the working set.
pub proof fn lemma_working_set_lists_once(manifest: ContentFilesView, game: Game, path: Seq<char>)
    requires
        has_path(manifest.shared, path) || has_path(selected(manifest, game), path),
    ensures
        lists_once(working_set(manifest, game), path),
{
    let all = manifest.shared + selected(manifest, game);
    let out = working_set(manifest, game);
    lemma_dedup_paths(all);
    if has_path(manifest.shared, path) {
        let i = choose|i: int|
            0 <= i < manifest.shared.len() && manifest.shared[i].file_path == path;
        assert(all[i].file_path == path);
    } else {
        let i = choose|i: int|
            0 <= i < selected(manifest, game).len() && selected(manifest, game)[i].file_path
                == path;
        assert(all[manifest.shared.len() + i].file_path == path);
    }
    assert(has_path(all, path));
    assert(has_path(out, path));
    let k = choose|k: int| 0 <= k < out.len() && out[k].file_path == path;
    assert forall|j: int| 0 <= j < out.len() && (#[trigger] out[j]).file_path == path implies j
        == k by {
        if j < k {
            assert(out[j].file_path != out[k].file_path);
        } else if k < j {
            assert(out[k].file_path != out[j].file_path);
        }
    }
}

/// The shared bucket comes first and wins ties: what is kept of the shared
/// bucket alone is the front of the working set, so a path that the shared
/// bucket names is represented by a shared entry.
pub proof fn lemma_shared_entries_first(manifest: ContentFilesView, game: Game)
    ensures
        dedup_by_path(manifest.shared).len() <= working_set(manifest, game).len(),
        working_set(manifest, game).take(dedup_by_path(manifest.shared).len() as int)
            == dedup_by_path(manifest.shared),
        forall|path: Seq<char>| #[trigger]
            has_path(manifest.shared, path) ==> has_path(
                working_set(manifest, game).take(dedup_by_path(manifest.shared).len() as int),
                path,
            ),
{
    lemma_dedup_prefix(manifest.shared, selected(manifest, game));
    lemma_dedup_paths(manifest.shared);
}

fn names_path(files: &Vec<ContentFile>, file: &ContentFile) -> (found: bool)
    ensures
        found == has_path(files.deep_view(), file@.file_path),
{
    for i in 0..files.len()
        invariant
            forall|k: int|
                0 <= k < i ==> (#[trigger] files.deep_view()[k]).file_path != file@.file_path,
    {
        if files[i].same_path(file) {
            assert(files.deep_view()[i as int].file_path == file@.file_path);
            return true;
        }
    }
    false
}

fn extend_unseen(
    files: &mut Vec<ContentFile>,
    more: &Vec<ContentFile>,
    Ghost(before): Ghost<Seq<ContentFileView>>,
)
    requires
        old(files).deep_view() == dedup_by_path(before),
    ensures
        final(files).deep_view() == dedup_by_path(before + more.deep_view()),
{
    let ghost extra = more.deep_view();
    proof {
        assert(before + extra.take(0) =~= before);
    }
    for i in 0..more.len()
        invariant
            extra == more.deep_view(),
            files.deep_view() == dedup_by_path(before + extra.take(i as int)),
    {
        let ghost seen = before + extra.take(i as int);
        let ghost next = before + extra.take(i + 1);
        proof {
            lemma_dedup_paths(seen);
            assert(next.drop_last() =~= seen);
            assert(next.last() == more[i as int]@);
        }
        if !names_path(files, &more[i]) {
            let ghost kept = files.deep_view();
            files.push(more[i].clone());
            assert(files.deep_view() =~= kept.push(more[i as int]@));
        }
    }
    proof {
        assert(extra.take(more.len() as int) =~= extra);
    }
}

/// Computes the files to reconcile for a game: the shared bucket first,
/// then the game's own bucket, in manifest order, and each path once, the
/// earliest entry standing for it.
pub fn plan(manifest: &ContentFiles, game: Game) -> (files: Vec<ContentFile>)
    ensures
        files.deep_view() == working_set(manifest@, game),
        unique_paths(files.deep_view()),
        all_confined(files.deep_view()),
{
    let mut files: Vec<ContentFile> = Vec::new();
    let shared = manifest.shared();
    let own = match game {
        Game::ETS2 => manifest.ets2(),
        Game::ATS => manifest.ats(),
    };
    proof {
        assert(files.deep_view() =~= dedup_by_path(Seq::<ContentFileView>::empty()));
        assert(Seq::<ContentFileView>::empty() + shared.deep_view() =~= shared.deep_view());
    }
    extend_unseen(&mut files, shared, Ghost(Seq::empty()));
    extend_unseen(&mut files, own, Ghost(shared.deep_view()));
    proof {
        let all = manifest@.shared + selected(manifest@, game);
        lemma_dedup_paths(all);
        lemma_dedup_confined(all);
    }
    files
}

} // verus!
