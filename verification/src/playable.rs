//! Which files of a download a playback session may open: the finished, selected
//! video files, largest first, and the stored media records of the download, largest
//! first.

use vstd::prelude::*;
use crate::remote_media::{dotted_extension, extension, RemoteMediaError};
use crate::text::{chars_eq, chars_of, last_segment, plain_path};

verus! {

/// What the session reads of a file of a download task; `complete` is whether its
/// progress reached the whole file.
#[derive(Debug, Clone)]
pub struct TaskFileFacts {
    pub index: i64,
    pub name: String,
    pub size: i64,
    pub selected: bool,
    pub complete: bool,
}

/// The position before which an item of size `s` goes in a list ordered by
/// decreasing size: before the first smaller item, so that equal sizes keep their
/// order.
pub open spec fn desc_insert_index(order: Seq<int>, sizes: Seq<i64>, s: i64) -> int
    decreases order.len(),
{
    if order.len() == 0 {
        0
    } else if sizes[order[0]] < s {
        0
    } else {
        1 + desc_insert_index(order.subrange(1, order.len() as int), sizes, s)
    }
}

/// The picked positions ordered by decreasing size, stably (a sort by the reversed size).
pub open spec fn size_desc_order(sizes: Seq<i64>, picks: Seq<int>) -> Seq<int>
    decreases picks.len(),
{
    if picks.len() == 0 {
        Seq::empty()
    } else {
        let rest = size_desc_order(sizes, picks.drop_last());
        rest.insert(desc_insert_index(rest, sizes, sizes[picks.last()]), picks.last())
    }
}

proof fn lemma_desc_insert_index_bounds(order: Seq<int>, sizes: Seq<i64>, s: i64)
    ensures
        0 <= desc_insert_index(order, sizes, s) <= order.len(),
    decreases order.len(),
{
    if order.len() > 0 {
        lemma_desc_insert_index_bounds(order.subrange(1, order.len() as int), sizes, s);
    }
}

fn find_desc_insert_index(order: &Vec<usize>, sizes: &Vec<i64>, s: i64) -> (r: usize)
    requires
        forall|k: int| 0 <= k < order@.len() ==> (#[trigger] order@[k]) < sizes@.len(),
    ensures
        r == desc_insert_index(order@.map_values(|p: usize| p as int), sizes@, s),
        r <= order@.len(),
{
    let ghost view = order@.map_values(|p: usize| p as int);
    let n = order.len();
    let mut i: usize = 0;
    assert(view.subrange(0, n as int) =~= view);
    while i < n
        invariant
            n == order@.len(),
            i <= n,
            view == order@.map_values(|p: usize| p as int),
            forall|k: int| 0 <= k < order@.len() ==> (#[trigger] order@[k]) < sizes@.len(),
            desc_insert_index(view, sizes@, s) == i + desc_insert_index(view.subrange(i as int, n as int), sizes@, s),
        decreases n - i,
    {
        let ghost rest = view.subrange(i as int, n as int);
        assert(rest[0] == order@[i as int] as int);
        assert(rest.subrange(1, rest.len() as int) =~= view.subrange(i + 1, n as int));
        if sizes[order[i]] < s {
            return i;
        }
        i = i + 1;
    }
    i
}

/// Orders picked positions by decreasing size, stably.
pub fn order_by_size_desc(sizes: &Vec<i64>, picks: &Vec<usize>) -> (r: Vec<usize>)
    requires
        forall|k: int| 0 <= k < picks@.len() ==> (#[trigger] picks@[k]) < sizes@.len(),
    ensures
        r@.map_values(|p: usize| p as int) == size_desc_order(sizes@, picks@.map_values(|p: usize| p as int)),
        forall|k: int| 0 <= k < r@.len() ==> (#[trigger] r@[k]) < sizes@.len(),
{
    let ghost all = picks@.map_values(|p: usize| p as int);
    let mut out: Vec<usize> = Vec::new();
    let mut i: usize = 0;
    while i < picks.len()
        invariant
            i <= picks@.len(),
            all == picks@.map_values(|p: usize| p as int),
            forall|k: int| 0 <= k < picks@.len() ==> (#[trigger] picks@[k]) < sizes@.len(),
            forall|k: int| 0 <= k < out@.len() ==> (#[trigger] out@[k]) < sizes@.len(),
            out@.map_values(|p: usize| p as int) == size_desc_order(sizes@, all.subrange(0, i as int)),
        decreases picks@.len() - i,
    {
        let p = picks[i];
        let k = find_desc_insert_index(&out, sizes, sizes[p]);
        let ghost before = out@.map_values(|q: usize| q as int);
        proof {
            lemma_desc_insert_index_bounds(before, sizes@, sizes@[p as int]);
            assert(all.subrange(0, i + 1).drop_last() =~= all.subrange(0, i as int));
            assert(all.subrange(0, i + 1).last() == p as int);
        }
        out.insert(k, p);
        proof {
            assert(out@.map_values(|q: usize| q as int) =~= before.insert(k as int, p as int));
        }
        i = i + 1;
    }
    assert(all.subrange(0, picks@.len() as int) =~= all);
    out
}


/// Whether positions come in order of nonincreasing size.
pub open spec fn nonincreasing_sizes(sizes: Seq<i64>, order: Seq<int>) -> bool {
    forall|a: int, b: int| 0 <= a < b < order.len() ==> sizes[#[trigger] order[a]] >= sizes[#[trigger] order[b]]
}

proof fn lemma_desc_insert_position(order: Seq<int>, sizes: Seq<i64>, s: i64)
    requires
        nonincreasing_sizes(sizes, order),
    ensures
        0 <= desc_insert_index(order, sizes, s) <= order.len(),
        forall|a: int| 0 <= a < desc_insert_index(order, sizes, s) ==> sizes[#[trigger] order[a]] >= s,
        forall|a: int| desc_insert_index(order, sizes, s) <= a < order.len() ==> sizes[#[trigger] order[a]] < s,
    decreases order.len(),
{
    if order.len() > 0 {
        let tail = order.subrange(1, order.len() as int);
        assert(nonincreasing_sizes(sizes, tail)) by {
            assert forall|a: int, b: int| 0 <= a < b < tail.len() implies sizes[#[trigger] tail[a]] >= sizes[#[trigger] tail[b]] by {
                assert(tail[a] == order[a + 1] && tail[b] == order[b + 1]);
            }
        }
        lemma_desc_insert_position(tail, sizes, s);
        if sizes[order[0]] < s {
            assert forall|a: int| 0 <= a < order.len() implies sizes[#[trigger] order[a]] < s by {
                if a > 0 {
                    assert(sizes[order[0]] >= sizes[order[a]]);
                }
            }
        } else {
            assert forall|a: int| 1 <= a < order.len() implies (#[trigger] order[a]) == tail[a - 1] by {}
        }
    }
}

/// Ordering by size puts the largest first and keeps every pick: the result holds the
/// same positions, each as often as before, in nonincreasing order of size.
pub proof fn lemma_size_order_is_sorted_permutation(sizes: Seq<i64>, picks: Seq<int>)
    ensures
        nonincreasing_sizes(sizes, size_desc_order(sizes, picks)),
        size_desc_order(sizes, picks).to_multiset() == picks.to_multiset(),
    decreases picks.len(),
{
    if picks.len() > 0 {
        let rest = size_desc_order(sizes, picks.drop_last());
        lemma_size_order_is_sorted_permutation(sizes, picks.drop_last());
        let x = picks.last();
        let k = desc_insert_index(rest, sizes, sizes[x]);
        lemma_desc_insert_position(rest, sizes, sizes[x]);
        let out = rest.insert(k, x);
        assert forall|a: int, b: int| 0 <= a < b < out.len() implies sizes[#[trigger] out[a]] >= sizes[#[trigger] out[b]] by {
            if b < k {
                assert(out[a] == rest[a] && out[b] == rest[b]);
            } else if b == k {
                assert(out[a] == rest[a] && out[b] == x);
            } else if a < k {
                assert(out[a] == rest[a] && out[b] == rest[b - 1]);
            } else if a == k {
                assert(out[a] == x && out[b] == rest[b - 1]);
            } else {
                assert(out[a] == rest[a - 1] && out[b] == rest[b - 1]);
            }
        }
        vstd::seq_lib::to_multiset_insert(rest, k, x);
        vstd::seq_lib::to_multiset_build(picks.drop_last(), x);
        assert(out.to_multiset() == rest.to_multiset().insert(x));
        assert(picks.drop_last().push(x) =~= picks);
        assert(picks.to_multiset() == picks.drop_last().to_multiset().insert(x));
        assert(size_desc_order(sizes, picks) == out);
    } else {
        assert(picks =~= Seq::<int>::empty());
    }
}

/// Whether an extension is among the listed ones.
pub open spec fn listed_extension(extensions: Seq<String>, ext: Seq<char>) -> bool {
    exists|j: int| 0 <= j < extensions.len() && (#[trigger] extensions[j])@ == ext
}

/// The positions of the files a session may play, before ordering: selected, complete,
/// and with an extension among the video extensions, in task order. For a file whose
/// name every platform splits alike, it is taken exactly when its dotted extension is
/// listed.
pub fn video_file_positions(files: &Vec<TaskFileFacts>, extensions: &Vec<String>) -> (r: Vec<usize>)
    ensures
        forall|k: int| 0 <= k < r@.len() ==> (#[trigger] r@[k]) < files@.len() && files@[r@[k] as int].selected
            && files@[r@[k] as int].complete,
        forall|a: int, b: int| 0 <= a < b < r@.len() ==> #[trigger] r@[a] < #[trigger] r@[b],
        forall|i: int| 0 <= i < files@.len() && (#[trigger] files@[i]).selected && files@[i].complete
            && plain_path(files@[i].name@) ==> (r@.contains(i as usize) <==> listed_extension(extensions@,
            dotted_extension(last_segment(files@[i].name@)))),
{
    let mut out: Vec<usize> = Vec::new();
    let mut i: usize = 0;
    while i < files.len()
        invariant
            i <= files@.len(),
            forall|k: int| 0 <= k < out@.len() ==> (#[trigger] out@[k]) < i && files@[out@[k] as int].selected
                && files@[out@[k] as int].complete,
            forall|a: int, b: int| 0 <= a < b < out@.len() ==> #[trigger] out@[a] < #[trigger] out@[b],
            forall|i2: int| 0 <= i2 < i && (#[trigger] files@[i2]).selected && files@[i2].complete
                && plain_path(files@[i2].name@) ==> (out@.contains(i2 as usize) <==> listed_extension(extensions@,
                dotted_extension(last_segment(files@[i2].name@)))),
        decreases files@.len() - i,
    {
        let ghost before = out@;
        let f = &files[i];
        if f.selected && f.complete {
            let ext = chars_of(extension(f.name.as_str()).as_str());
            let mut known = false;
            let mut j: usize = 0;
            while j < extensions.len()
                invariant
                    j <= extensions@.len(),
                    known <==> exists|j2: int| 0 <= j2 < j && (#[trigger] extensions@[j2])@ == ext@,
                decreases extensions@.len() - j,
            {
                if chars_eq(chars_of(extensions[j].as_str()).as_slice(), ext.as_slice()) {
                    known = true;
                }
                j = j + 1;
            }
            if known {
                out.push(i);
                proof {
                    assert(out@[before.len() as int] == i);
                    assert forall|i2: int| 0 <= i2 < i implies (#[trigger] out@.contains(i2 as usize) <==> before.contains(i2 as usize)) by {
                        if out@.contains(i2 as usize) {
                            let k = choose|k: int| 0 <= k < out@.len() && out@[k] == i2 as usize;
                            if k < before.len() {
                                assert(before[k] == i2 as usize);
                            }
                        }
                        if before.contains(i2 as usize) {
                            let k = choose|k: int| 0 <= k < before.len() && before[k] == i2 as usize;
                            assert(out@[k] == i2 as usize);
                        }
                    }
                }
            } else {
                proof {
                    assert(!out@.contains(i)) by {
                        if out@.contains(i) {
                            let k = choose|k: int| 0 <= k < out@.len() && out@[k] == i;
                            assert(out@[k] < i);
                        }
                    }
                }
            }
        }
        i = i + 1;
    }
    out
}

/// The files a session may play, largest first (equal sizes in task order). For a
/// selected, complete file whose name every platform splits alike, it is among them
/// exactly when its dotted extension is listed.
pub fn playable_files(files: &Vec<TaskFileFacts>, extensions: &Vec<String>) -> (r: Vec<usize>)
    ensures
        forall|k: int| 0 <= k < r@.len() ==> (#[trigger] r@[k]) < files@.len() && files@[r@[k] as int].selected
            && files@[r@[k] as int].complete,
        nonincreasing_sizes(files@.map_values(|f: TaskFileFacts| f.size), r@.map_values(|p: usize| p as int)),
        forall|i: int| 0 <= i < files@.len() && (#[trigger] files@[i]).selected && files@[i].complete
            && plain_path(files@[i].name@) ==> (r@.contains(i as usize) <==> listed_extension(extensions@,
            dotted_extension(last_segment(files@[i].name@)))),
{
    let picks = video_file_positions(files, extensions);
    let mut sizes: Vec<i64> = Vec::new();
    let mut i: usize = 0;
    while i < files.len()
        invariant
            i <= files@.len(),
            sizes@ == files@.subrange(0, i as int).map_values(|f: TaskFileFacts| f.size),
        decreases files@.len() - i,
    {
        sizes.push(files[i].size);
        assert(sizes@ =~= files@.subrange(0, i + 1).map_values(|f: TaskFileFacts| f.size));
        i = i + 1;
    }
    assert(files@.subrange(0, files@.len() as int) =~= files@);
    let ordered = order_by_size_desc(&sizes, &picks);
    proof {
        lemma_size_order_is_sorted_permutation(sizes@, picks@.map_values(|p: usize| p as int));
        let picked = picks@.map_values(|p: usize| p as int);
        let out = ordered@.map_values(|p: usize| p as int);
        assert forall|k: int| 0 <= k < ordered@.len() implies (#[trigger] ordered@[k]) < files@.len()
            && files@[ordered@[k] as int].selected && files@[ordered@[k] as int].complete by {
            vstd::seq_lib::to_multiset_contains(out, out[k]);
            vstd::seq_lib::to_multiset_contains(picked, out[k]);
            assert(out.contains(out[k]));
            assert(picked.contains(out[k]));
            let j = choose|j: int| 0 <= j < picked.len() && picked[j] == out[k];
            assert(picks@[j] as int == out[k]);
        }
        assert forall|i: int| 0 <= i < files@.len() implies (#[trigger] ordered@.contains(i as usize)
            <==> picks@.contains(i as usize)) by {
            if ordered@.contains(i as usize) {
                let k = choose|k: int| 0 <= k < ordered@.len() && ordered@[k] == i as usize;
                assert(out[k] == i);
                vstd::seq_lib::to_multiset_contains(out, i);
                vstd::seq_lib::to_multiset_contains(picked, i);
                let j = choose|j: int| 0 <= j < picked.len() && picked[j] == i;
                assert(picks@[j] == i as usize);
            }
            if picks@.contains(i as usize) {
                let j = choose|j: int| 0 <= j < picks@.len() && picks@[j] == i as usize;
                assert(picked[j] == i);
                vstd::seq_lib::to_multiset_contains(picked, i);
                vstd::seq_lib::to_multiset_contains(out, i);
                let k = choose|k: int| 0 <= k < out.len() && out[k] == i;
                assert(ordered@[k] == i as usize);
            }
        }
    }
    ordered
}

/// Checks a requested file index against the playable files; on success gives the
/// position (among the playable ones) of the first with that index.
pub fn requested_file(files: &Vec<TaskFileFacts>, playable: &Vec<usize>, requested: Option<i64>) -> (r: Result<Option<usize>, RemoteMediaError>)
    requires
        forall|k: int| 0 <= k < playable@.len() ==> (#[trigger] playable@[k]) < files@.len(),
    ensures
        match r {
            Ok(None) => requested is None,
            Ok(Some(k)) => requested matches Some(i) && k < playable@.len() && files@[playable@[k as int] as int].index == i
                && forall|m: int| 0 <= m < k ==> files@[(#[trigger] playable@[m]) as int].index != i,
            Err(e) => e.status == 409 && e.code@ == "MEDIA_FILE_UNAVAILABLE"@ && e.message@ == "指定媒体文件不存在或尚未写入完成"@
                && (requested matches Some(i) && forall|m: int| 0 <= m < playable@.len() ==> files@[(#[trigger] playable@[m]) as int].index != i),
        },
{
    match requested {
        None => Ok(None),
        Some(i) => {
            let mut k: usize = 0;
            while k < playable.len()
                invariant
                    k <= playable@.len(),
                    requested == Some(i),
                    forall|m: int| 0 <= m < playable@.len() ==> (#[trigger] playable@[m]) < files@.len(),
                    forall|m: int| 0 <= m < k ==> files@[(#[trigger] playable@[m]) as int].index != i,
                decreases playable@.len() - k,
            {
                if files[playable[k]].index == i {
                    return Ok(Some(k));
                }
                k = k + 1;
            }
            Err(RemoteMediaError::new(409, "MEDIA_FILE_UNAVAILABLE", String::from_str("指定媒体文件不存在或尚未写入完成")))
        },
    }
}


/// The positions of the stored media records that belong to a download task, in order.
pub open spec fn task_media_positions(task_ids: Seq<Option<String>>, task_id: Seq<char>) -> Seq<int>
    decreases task_ids.len(),
{
    if task_ids.len() == 0 {
        Seq::empty()
    } else {
        let rest = task_media_positions(task_ids.drop_last(), task_id);
        if task_ids.last() matches Some(t) && t@ == task_id {
            rest.push(task_ids.len() - 1)
        } else {
            rest
        }
    }
}

proof fn lemma_task_media_positions_bounds(task_ids: Seq<Option<String>>, task_id: Seq<char>)
    ensures
        forall|k: int| 0 <= k < task_media_positions(task_ids, task_id).len() ==> 0 <= #[trigger] task_media_positions(task_ids, task_id)[k] < task_ids.len(),
    decreases task_ids.len(),
{
    if task_ids.len() > 0 {
        lemma_task_media_positions_bounds(task_ids.drop_last(), task_id);
        let rest = task_media_positions(task_ids.drop_last(), task_id);
        let out = task_media_positions(task_ids, task_id);
        assert forall|k: int| 0 <= k < out.len() implies 0 <= #[trigger] out[k] < task_ids.len() by {
            if k < rest.len() {
                assert(out[k] == rest[k]);
            }
        }
    }
}

/// The stored media records of a download task, largest first (equal sizes in stored
/// order), given each record's task and size.
pub fn registered_media_order(task_id: &str, task_ids: &Vec<Option<String>>, sizes: &Vec<i64>) -> (r: Vec<usize>)
    requires
        task_ids@.len() == sizes@.len(),
    ensures
        r@.map_values(|p: usize| p as int) == size_desc_order(sizes@, task_media_positions(task_ids@, task_id@)),
{
    let key = chars_of(task_id);
    let mut picks: Vec<usize> = Vec::new();
    let mut i: usize = 0;
    while i < task_ids.len()
        invariant
            i <= task_ids@.len(),
            key@ == task_id@,
            picks@.map_values(|p: usize| p as int) == task_media_positions(task_ids@.subrange(0, i as int), task_id@),
        decreases task_ids@.len() - i,
    {
        assert(task_ids@.subrange(0, i + 1).drop_last() =~= task_ids@.subrange(0, i as int));
        assert(task_ids@.subrange(0, i + 1).last() == task_ids@[i as int]);
        let hit = match &task_ids[i] {
            Some(t) => chars_eq(chars_of(t.as_str()).as_slice(), key.as_slice()),
            None => false,
        };
        if hit {
            let ghost before = picks@;
            picks.push(i);
            assert(picks@.map_values(|p: usize| p as int) =~= before.map_values(|p: usize| p as int).push(i as int));
        }
        i = i + 1;
    }
    assert(task_ids@.subrange(0, task_ids@.len() as int) =~= task_ids@);
    proof {
        lemma_task_media_positions_bounds(task_ids@, task_id@);
        assert forall|k: int| 0 <= k < picks@.len() implies (#[trigger] picks@[k]) < sizes@.len() by {
            assert(picks@.map_values(|p: usize| p as int)[k] == picks@[k] as int);
        }
    }
    order_by_size_desc(sizes, &picks)
}

} // verus!
