//! What the manifests say, what counts as staged or sound, and what the plan of an update lists.

use vstd::prelude::*;

use crate::download;
use crate::error::ErrorView;
use crate::manifest;
use crate::manifest::{FetchJobView, FileProbe};
use crate::order;
use crate::predownload;
use crate::predownload::{PendingGroupView, PlanProbes};
use crate::progress::ProgressEventView;
use crate::text;
use crate::types::{
    ChunkInfoView, FileRefView, GroupInfoView, PatchConfig, PatchIndexView, ResourceItemView,
};

verus! {

/// Whether a character is a letter of the extension of a patch, small or capital.
pub open spec fn is_letter(c: char, small: char, capital: char) -> bool {
    c == small || c == capital
}

/// A patch is what ends in `.krpdiff`, in small or capital letters, and nothing else is.
pub proof fn law_patches_are_told_by_their_ending(dest: Seq<char>)
    ensures
        manifest::is_patch(dest) <==> {
            let n = dest.len() - 8;
            &&& n >= 0
            &&& dest[n] == '.'
            &&& is_letter(dest[n + 1], 'k', 'K')
            &&& is_letter(dest[n + 2], 'r', 'R')
            &&& is_letter(dest[n + 3], 'p', 'P')
            &&& is_letter(dest[n + 4], 'd', 'D')
            &&& is_letter(dest[n + 5], 'i', 'I')
            &&& is_letter(dest[n + 6], 'f', 'F')
            &&& is_letter(dest[n + 7], 'f', 'F')
        },
{
    reveal_strlit(".krpdiff");
    let want = ".krpdiff"@;
    let low = crate::text::lowered(dest);
    let n = dest.len() - 8;
    if n >= 0 {
        let tail = low.subrange(n, low.len() as int);
        assert forall|i: int| 0 <= i < 8 implies #[trigger] tail[i] == crate::text::lower(
            dest[n + i],
        ) by {}
        if manifest::is_patch(dest) {
            assert(tail == want);
            assert(tail[0] == '.' && tail[1] == 'k' && tail[2] == 'r' && tail[3] == 'p' && tail[4]
                == 'd' && tail[5] == 'i' && tail[6] == 'f' && tail[7] == 'f');
        }
        if dest[n] == '.' && is_letter(dest[n + 1], 'k', 'K') && is_letter(dest[n + 2], 'r', 'R')
            && is_letter(dest[n + 3], 'p', 'P') && is_letter(dest[n + 4], 'd', 'D') && is_letter(
            dest[n + 5],
            'i',
            'I',
        ) && is_letter(dest[n + 6], 'f', 'F') && is_letter(dest[n + 7], 'f', 'F') {
            assert(tail[0] == '.' && tail[1] == 'k' && tail[2] == 'r' && tail[3] == 'p' && tail[4]
                == 'd' && tail[5] == 'i' && tail[6] == 'f' && tail[7] == 'f');
            assert(tail =~= want);
        }
    }
}

/// The entry of a manifest for a path is the last one with that path; there is none exactly where no
/// entry has it.
pub proof fn law_last_entry_counts(list: Seq<ResourceItemView>, dest: Seq<char>)
    ensures
        match manifest::entry_for(list, dest) {
            Some(item) => exists|i: int|
                0 <= i < list.len() && #[trigger] list[i] == item && item.dest == dest && forall|
                    j: int,
                | i < j < list.len() ==> (#[trigger] list[j]).dest != dest,
            None => forall|i: int| 0 <= i < list.len() ==> (#[trigger] list[i]).dest != dest,
        },
    decreases list.len(),
{
    if list.len() > 0 {
        let rest = list.drop_last();
        law_last_entry_counts(rest, dest);
        manifest::lemma_entry_at(rest, dest);
        if list.last().dest == dest {
            let i = list.len() - 1;
            assert(list[i] == list.last());
        } else if manifest::entry_for(rest, dest) is Some {
            let item = manifest::entry_for(rest, dest)->0;
            let i = choose|i: int|
                0 <= i < rest.len() && #[trigger] rest[i] == item && item.dest == dest && forall|
                    j: int,
                | i < j < rest.len() ==> (#[trigger] rest[j]).dest != dest;
            assert(list[i] == item);
            assert forall|j: int| i < j < list.len() implies (#[trigger] list[j]).dest != dest by {
                if j < rest.len() {
                    assert(rest[j] == list[j]);
                }
            }
        } else {
            assert forall|i: int| 0 <= i < list.len() implies (#[trigger] list[i]).dest != dest by {
                if i < rest.len() {
                    assert(rest[i] == list[i]);
                }
            }
        }
    }
}

/// A file is the one that a manifest describes only where it has that size and, where the manifest
/// gives a digest, that digest; a file of the right size with another digest, or with none, is not.
pub proof fn law_intact_means_size_and_digest(
    found_size: Option<u64>,
    found_md5: Option<Seq<char>>,
    size: u64,
    md5: Seq<char>,
)
    ensures
        found_size is None ==> !manifest::is_intact(found_size, found_md5, size, md5),
        found_size is Some && found_size->0 != size ==> !manifest::is_intact(
            found_size,
            found_md5,
            size,
            md5,
        ),
        md5.len() > 0 && found_md5 is None ==> !manifest::is_intact(found_size, found_md5, size, md5),
        md5.len() > 0 && found_md5 is Some && found_md5->0 != md5 ==> !manifest::is_intact(
            found_size,
            found_md5,
            size,
            md5,
        ),
        found_size == Some(size) && (md5.len() == 0 || found_md5 == Some(md5))
            ==> manifest::is_intact(found_size, found_md5, size, md5),
{
}

/// A group was applied already where it produces something and each file that it produces is there
/// at its size; one file that is missing or has another size is enough that it was not.
pub proof fn law_group_is_applied_when_all_files_are(group: GroupInfoView, sizes: Seq<Option<u64>>)
    requires
        sizes.len() == group.dst_files.len(),
    ensures
        group.dst_files.len() == 0 ==> !manifest::at_target(group, sizes),
        !manifest::at_target(group, sizes.push(None)),
        forall|i: int|
            0 <= i < sizes.len() && (#[trigger] sizes[i] is None || sizes[i]->0
                != group.dst_files[i].size) ==> !manifest::at_target(group, sizes),
        group.dst_files.len() > 0 && (forall|i: int|
            0 <= i < sizes.len() ==> #[trigger] sizes[i] == Some(group.dst_files[i].size))
            ==> manifest::at_target(group, sizes),
{
}

/// The update that starts from a version is the first one that does.
pub proof fn law_first_update_counts(configs: Seq<PatchConfig>, version: Seq<char>, i: int, j: int)
    requires
        manifest::update_from(configs, version, i),
        0 <= j < configs.len(),
        configs[j].version@ == version,
    ensures
        configs[i].version@ == version,
        i <= j,
{
}

/// Whether an entry of a manifest is a full file that an update may fetch.
pub open spec fn is_full_file(item: ResourceItemView) -> bool {
    !manifest::is_patch(item.dest) && item.from_folder is Some
}

/// What a plan says of a file: its name and its size.
pub open spec fn named(p: PendingGroupView) -> (Seq<char>, u64) {
    (p.name, p.size)
}

/// The full files of a plan are all entries that are no patches and name a folder, each once, in the
/// order of the manifest, with their sizes; and nothing else.
pub proof fn law_plan_lists_every_full_file(index: PatchIndexView, probes: PlanProbes, n: int)
    requires
        0 <= n <= index.resource.len(),
    ensures
        predownload::planned_files(index, probes, n).map_values(|p: PendingGroupView| named(p))
            == index.resource.take(n).filter(|r: ResourceItemView| is_full_file(r)).map_values(
            |r: ResourceItemView| (r.dest, r.size),
        ),
    decreases n,
{
    reveal(Seq::filter);
    let keep = |r: ResourceItemView| is_full_file(r);
    let pair = |r: ResourceItemView| (r.dest, r.size);
    let told = |p: PendingGroupView| named(p);
    if n == 0 {
        assert(index.resource.take(0).filter(keep).map_values(pair) =~= Seq::empty());
        assert(predownload::planned_files(index, probes, 0).map_values(told) =~= Seq::empty());
    } else {
        law_plan_lists_every_full_file(index, probes, n - 1);
        let taken = index.resource.take(n);
        let item = index.resource[n - 1];
        assert(taken.drop_last() =~= index.resource.take(n - 1));
        assert(taken.last() == item);
        let before = predownload::planned_files(index, probes, n - 1);
        let rest = index.resource.take(n - 1).filter(keep);
        if is_full_file(item) {
            assert(taken.filter(keep) == rest.push(item));
            assert(rest.push(item).map_values(pair) =~= rest.map_values(pair).push(pair(item)));
            let now = predownload::planned_files(index, probes, n);
            assert(now.map_values(told) =~= before.map_values(told).push((item.dest, item.size)));
        }
    }
}

/// The full files of a plan, as the manifest has them.
pub(crate) proof fn lemma_full_files_listed(index: PatchIndexView, probes: PlanProbes)
    ensures
        predownload::planned_files(index, probes, index.resource.len() as int).map_values(
            |p: PendingGroupView| (p.name, p.size),
        ) == index.resource.filter(
            |item: ResourceItemView| !manifest::is_patch(item.dest) && item.from_folder is Some,
        ).map_values(|item: ResourceItemView| (item.dest, item.size)),
{
    let n = index.resource.len() as int;
    law_plan_lists_every_full_file(index, probes, n);
    assert(index.resource.take(n) =~= index.resource);
    assert((|item: ResourceItemView| !manifest::is_patch(item.dest) && item.from_folder is Some)
        =~= (|r: ResourceItemView| is_full_file(r)));
    assert((|p: PendingGroupView| (p.name, p.size)) =~= (|p: PendingGroupView| named(p)));
}

/// A full file of a plan counts as staged exactly where its staged file has the size of its entry and
/// its digest, where the entry gives one.
pub proof fn law_full_file_is_ready_when_staged(
    index: PatchIndexView,
    probes: PlanProbes,
    n: int,
    i: int,
)
    requires
        0 <= i < n <= index.resource.len(),
        is_full_file(index.resource[i]),
    ensures
        exists|k: int|
            0 <= k < predownload::planned_files(index, probes, n).len() && ({
                let p = #[trigger] predownload::planned_files(index, probes, n)[k];
                let item = index.resource[i];
                let found = probes.files@[i];
                &&& p.name == item.dest
                &&& p.size == item.size
                &&& p.local_ready <==> found.size == Some(item.size) && (item.md5.len() == 0
                    || found.md5.deep_view() == Some(item.md5))
            }),
    decreases n,
{
    let now = predownload::planned_files(index, probes, n);
    let before = predownload::planned_files(index, probes, n - 1);
    if i < n - 1 {
        law_full_file_is_ready_when_staged(index, probes, n - 1, i);
        let k = choose|k: int|
            0 <= k < before.len() && ({
                let p = #[trigger] before[k];
                let item = index.resource[i];
                let found = probes.files@[i];
                &&& p.name == item.dest
                &&& p.size == item.size
                &&& p.local_ready <==> found.size == Some(item.size) && (item.md5.len() == 0
                    || found.md5.deep_view() == Some(item.md5))
            });
        assert(now[k] == before[k]);
    } else {
        assert(now[before.len() as int].name == index.resource[i].dest);
    }
}

/// The groups with what was found of the files that they produce.
pub open spec fn groups_found(index: PatchIndexView, probes: PlanProbes, n: int) -> Seq<
    (GroupInfoView, Seq<Option<u64>>),
> {
    Seq::new(n as nat, |i: int| (index.group_infos[i], probes.group_sizes@[i]@))
}

/// The patches of a plan are those of all groups that were not applied already, each once, in the
/// order of the manifest; and nothing else.
pub proof fn law_plan_lists_every_patch(index: PatchIndexView, probes: PlanProbes, n: int)
    requires
        0 <= n <= index.group_infos.len(),
    ensures
        predownload::planned_patches(index, probes, n).map_values(|p: PendingGroupView| p.name)
            == groups_found(index, probes, n).filter(
            |g: (GroupInfoView, Seq<Option<u64>>)| !manifest::at_target(g.0, g.1),
        ).map_values(|g: (GroupInfoView, Seq<Option<u64>>)| g.0.dest),
    decreases n,
{
    reveal(Seq::filter);
    let keep = |g: (GroupInfoView, Seq<Option<u64>>)| !manifest::at_target(g.0, g.1);
    let name = |g: (GroupInfoView, Seq<Option<u64>>)| g.0.dest;
    let told = |p: PendingGroupView| p.name;
    let all = groups_found(index, probes, n);
    if n == 0 {
        assert(all.filter(keep).map_values(name) =~= Seq::empty());
        assert(predownload::planned_patches(index, probes, 0).map_values(told) =~= Seq::empty());
    } else {
        law_plan_lists_every_patch(index, probes, n - 1);
        assert(all.drop_last() =~= groups_found(index, probes, n - 1));
        let before = predownload::planned_patches(index, probes, n - 1);
        let rest = groups_found(index, probes, n - 1).filter(keep);
        let last = all.last();
        if keep(last) {
            assert(all.filter(keep) == rest.push(last));
            assert(rest.push(last).map_values(name) =~= rest.map_values(name).push(last.0.dest));
            let now = predownload::planned_patches(index, probes, n);
            assert(now.map_values(told) =~= before.map_values(told).push(last.0.dest));
        }
    }
}

/// Where a file that a manifest describes counts as staged.
pub open spec fn is_staged(found: FileProbe, size: u64, md5: Seq<char>) -> bool {
    &&& found.size is Some
    &&& found.size->0 == size
    &&& md5.len() == 0 || (found.md5 is Some && found.md5->0@ == md5)
}

/// The entries with what was found of their staged files.
pub open spec fn entries_found(index: PatchIndexView, probes: PlanProbes, n: int) -> Seq<
    (ResourceItemView, FileProbe),
> {
    Seq::new(n as nat, |i: int| (index.resource[i], probes.files@[i]))
}

/// The full files of a plan are the full files of the manifest, each with its own finding.
pub proof fn law_full_files_are_planned(index: PatchIndexView, probes: PlanProbes, n: int)
    requires
        0 <= n <= index.resource.len(),
    ensures
        predownload::planned_files(index, probes, n) == entries_found(index, probes, n).filter(
            |e: (ResourceItemView, FileProbe)| is_full_file(e.0),
        ).map_values(
            |e: (ResourceItemView, FileProbe)|
                PendingGroupView {
                    name: e.0.dest,
                    size: e.0.size,
                    local_ready: is_staged(e.1, e.0.size, e.0.md5),
                },
        ),
    decreases n,
{
    reveal(Seq::filter);
    let keep = |e: (ResourceItemView, FileProbe)| is_full_file(e.0);
    let to = |e: (ResourceItemView, FileProbe)|
        PendingGroupView {
            name: e.0.dest,
            size: e.0.size,
            local_ready: is_staged(e.1, e.0.size, e.0.md5),
        };
    let all = entries_found(index, probes, n);
    if n == 0 {
        assert(all.filter(keep).map_values(to) =~= Seq::empty());
    } else {
        law_full_files_are_planned(index, probes, n - 1);
        assert(all.drop_last() =~= entries_found(index, probes, n - 1));
        let rest = entries_found(index, probes, n - 1).filter(keep);
        let last = all.last();
        if keep(last) {
            assert(all.filter(keep) == rest.push(last));
            assert(rest.push(last).map_values(to) =~= rest.map_values(to).push(to(last)));
        }
    }
}

/// The groups with what was found of their staged patches.
pub open spec fn patches_found(index: PatchIndexView, probes: PlanProbes, n: int) -> Seq<
    (GroupInfoView, Seq<Option<u64>>, FileProbe),
> {
    Seq::new(
        n as nat,
        |i: int| (index.group_infos[i], probes.group_sizes@[i]@, probes.patches@[i]),
    )
}

/// The patches of a plan are those of the groups that were not applied already, each with its own
/// finding.
pub proof fn law_patches_are_planned(index: PatchIndexView, probes: PlanProbes, n: int)
    requires
        0 <= n <= index.group_infos.len(),
    ensures
        predownload::planned_patches(index, probes, n) == patches_found(index, probes, n).filter(
            |g: (GroupInfoView, Seq<Option<u64>>, FileProbe)| !manifest::at_target(g.0, g.1),
        ).map_values(
            |g: (GroupInfoView, Seq<Option<u64>>, FileProbe)|
                predownload::pending_patch(g.0.dest, index.resource, g.2),
        ),
    decreases n,
{
    reveal(Seq::filter);
    let keep = |g: (GroupInfoView, Seq<Option<u64>>, FileProbe)| !manifest::at_target(g.0, g.1);
    let to = |g: (GroupInfoView, Seq<Option<u64>>, FileProbe)|
        predownload::pending_patch(g.0.dest, index.resource, g.2);
    let all = patches_found(index, probes, n);
    if n == 0 {
        assert(all.filter(keep).map_values(to) =~= Seq::empty());
    } else {
        law_patches_are_planned(index, probes, n - 1);
        assert(all.drop_last() =~= patches_found(index, probes, n - 1));
        let rest = patches_found(index, probes, n - 1).filter(keep);
        let last = all.last();
        if keep(last) {
            assert(all.filter(keep) == rest.push(last));
            assert(rest.push(last).map_values(to) =~= rest.map_values(to).push(to(last)));
        }
    }
}

/// A patch of a plan has the size that the manifest gives for its name, and counts as staged exactly
/// where its staged file has that size and the digest of the manifest, where that gives one.
pub proof fn law_patch_is_ready_when_staged(
    name: Seq<char>,
    list: Seq<ResourceItemView>,
    found: FileProbe,
    i: int,
)
    requires
        0 <= i < list.len(),
        list[i].dest == name,
        forall|j: int| i < j < list.len() ==> (#[trigger] list[j]).dest != name,
    ensures
        ({
            let p = predownload::pending_patch(name, list, found);
            &&& p.name == name
            &&& p.size == list[i].size
            &&& p.local_ready <==> found.size == Some(list[i].size) && (list[i].md5.len() == 0
                || found.md5.deep_view() == Some(list[i].md5))
        }),
{
    law_last_entry_counts(list, name);
    assert(list[i].dest == name);
    let item = manifest::entry_for(list, name)->0;
    let k = choose|k: int|
        0 <= k < list.len() && #[trigger] list[k] == item && item.dest == name && forall|j: int|
            k < j < list.len() ==> (#[trigger] list[j]).dest != name;
    assert(list[k].dest == name);
    assert(k == i);
}

/// The missing bytes of two lists add up; one file that is staged has none, one that is not has all
/// of its own.
pub proof fn law_missing_bytes_add_up(a: Seq<PendingGroupView>, b: Seq<PendingGroupView>)
    ensures
        predownload::missing_bytes(a + b) == predownload::missing_bytes(a)
            + predownload::missing_bytes(b),
        a.len() == 0 ==> predownload::missing_bytes(a) == 0,
        a.len() == 1 && a[0].local_ready ==> predownload::missing_bytes(a) == 0,
        a.len() == 1 && !a[0].local_ready ==> predownload::missing_bytes(a) == a[0].size,
    decreases b.len(),
{
    reveal_with_fuel(predownload::missing_bytes, 2);
    if b.len() == 0 {
        assert(a + b =~= a);
    } else {
        law_missing_bytes_add_up(a, b.drop_last());
        assert((a + b).drop_last() =~= a + b.drop_last());
    }
}

/// The bytes of some files add up.
pub proof fn law_group_bytes_add_up(a: Seq<FileRefView>, b: Seq<FileRefView>)
    ensures
        order::size_sum(a + b) == order::size_sum(a) + order::size_sum(b),
        a.len() == 0 ==> order::size_sum(a) == 0,
        a.len() == 1 ==> order::size_sum(a) == a[0].size,
    decreases b.len(),
{
    reveal_with_fuel(order::size_sum, 2);
    if b.len() == 0 {
        assert(a + b =~= a);
    } else {
        law_group_bytes_add_up(a, b.drop_last());
        assert((a + b).drop_last() =~= a + b.drop_last());
    }
}

/// The groups are merged largest first; of groups of one size the one that is listed first goes
/// first. No group is merged twice, and as many are merged as there are.
pub proof fn law_largest_groups_go_first(
    groups: Seq<GroupInfoView>,
    merged: Seq<usize>,
    i: int,
    j: int,
)
    requires
        order::is_merge_order(groups, merged),
        0 <= i < j < merged.len(),
    ensures
        merged.len() == groups.len(),
        merged[i] < groups.len(),
        merged[j] < groups.len(),
        merged[i] != merged[j],
        order::size_sum(groups[merged[i] as int].dst_files) >= order::size_sum(
            groups[merged[j] as int].dst_files,
        ),
        order::size_sum(groups[merged[i] as int].dst_files) == order::size_sum(
            groups[merged[j] as int].dst_files,
        ) ==> merged[i] < merged[j],
{
    assert(order::comes_before(groups, merged[i], merged[j]));
}

/// A finished file passes exactly where it has the size and the digest that are expected of it, each
/// as far as something is expected.
pub proof fn law_download_is_judged(
    path: Seq<char>,
    size: Option<u64>,
    md5: Option<Seq<char>>,
    actual_size: u64,
    actual_md5: Seq<char>,
)
    ensures
        size is Some && size->0 != actual_size ==> download::flaw(
            path,
            size,
            md5,
            actual_size,
            actual_md5,
        ) == Some(
            ErrorView::ChecksumMismatch {
                path,
                expected: text::decimal(size->0 as nat),
                actual: text::decimal(actual_size as nat),
            },
        ),
        md5 is Some && md5->0.len() > 0 && md5->0 != actual_md5 ==> download::flaw(
            path,
            size,
            md5,
            actual_size,
            actual_md5,
        ) is Some,
        (size is None || size->0 == actual_size) && (md5 is None || md5->0.len() == 0 || md5->0
            == actual_md5) ==> download::flaw(path, size, md5, actual_size, actual_md5) is None,
        download::flaw(path, size, md5, actual_size, actual_md5) is Some ==> ({
            let e = download::flaw(path, size, md5, actual_size, actual_md5)->0;
            e is ChecksumMismatch && e->ChecksumMismatch_path == path
        }),
        (size is None || size->0 == actual_size) && md5 is Some && md5->0.len() > 0 && md5->0
            != actual_md5 ==> download::flaw(path, size, md5, actual_size, actual_md5) == Some(
            ErrorView::ChecksumMismatch { path, expected: md5->0, actual: actual_md5 },
        ),
{
}

/// A finished file is hashed wherever its digest may decide.
pub proof fn law_hash_where_it_decides(
    path: Seq<char>,
    size: Option<u64>,
    md5: Option<Seq<char>>,
    actual_size: u64,
    a: Seq<char>,
    b: Seq<char>,
)
    requires
        download::flaw(path, size, md5, actual_size, a) is None,
        download::flaw(path, size, md5, actual_size, b) is Some,
    ensures
        download::must_hash(size, md5, actual_size),
{
}

/// The bytes of a range pass exactly where they have the digest that the range gives, or it gives
/// none.
pub proof fn law_range_is_judged(url: Seq<char>, chunk: ChunkInfoView, md5: Seq<char>)
    ensures
        download::chunk_flaw(url, chunk, md5) is None <==> chunk.md5.len() == 0 || chunk.md5 == md5,
{
}

/// A file is fetched in the ranges that the manifest gives; without any, a small one comes in one
/// stream and a large one in ranges that are made for it.
pub proof fn law_ranges_to_fetch(size: u64, own: Seq<ChunkInfoView>)
    ensures
        own.len() > 0 ==> download::fetch_ranges(size, own) == own,
        own.len() == 0 && size <= 4194304 ==> download::fetch_ranges(size, own).len() == 0,
        own.len() == 0 && size > 4194304 ==> {
            let made = download::fetch_ranges(size, own);
            &&& made.len() > 1
            &&& made[0].start == 0
            &&& made[made.len() - 1].end == size - 1
            &&& forall|i: int| #![trigger made[i]]
                0 <= i < made.len() - 1 ==> made[i + 1].start == made[i].end + 1 && made[i].end
                    - made[i].start == 4194303
            &&& forall|i: int| 0 <= i < made.len() ==> (#[trigger] made[i]).md5.len() == 0
        },
{
    if own.len() == 0 && size > 4194304 {
        download::law_synth_chunks_tile(size);
        let made = download::synth_chunks(size);
        assert(made.len() == download::synth_count(size));
        assert forall|i: int| #![trigger made[i]] 0 <= i < made.len() - 1 implies made[i].end
            - made[i].start == 4194303 by {
            let end = (i + 1) * 4194304 - 1;
            assert((made.len() - 1) * 4194304 < size);
            assert(i + 1 <= made.len() - 1);
            assert((i + 1) * 4194304 <= (made.len() - 1) * 4194304);
        }
    }
}

/// The size that is announced for a download in one stream is the one that is expected, else the one
/// that the server tells, else none.
pub proof fn law_announced_size(expected: Option<u64>, told: Option<u64>)
    ensures
        expected is Some ==> download::announced(expected, told) == expected->0,
        expected is None && told is Some ==> download::announced(expected, told) == told->0,
        expected is None && told is None ==> download::announced(expected, told) == 0,
        download::REPORT_STEP == 1024 * 1024,
{
}

/// A patch that the manifest does not list counts as empty.
pub proof fn law_unlisted_patch_is_empty(
    name: Seq<char>,
    list: Seq<ResourceItemView>,
    found: FileProbe,
)
    requires
        forall|j: int| 0 <= j < list.len() ==> (#[trigger] list[j]).dest != name,
    ensures
        ({
            let p = predownload::pending_patch(name, list, found);
            &&& p.name == name
            &&& p.size == 0
            &&& p.local_ready <==> found.size == Some(0u64)
        }),
        predownload::patch_digest(list, name) is None,
{
    law_last_entry_counts(list, name);
}

/// A patch is fetched under its own name with the size of the plan. It must have the digest of its
/// last entry, where that gives one.
pub proof fn law_patch_must_have_the_listed_digest(
    game_folder: Seq<char>,
    cdn: Seq<char>,
    base_url: Seq<char>,
    list: Seq<ResourceItemView>,
    p: PendingGroupView,
    i: int,
)
    requires
        0 <= i < list.len(),
        list[i].dest == p.name,
        forall|j: int| i < j < list.len() ==> (#[trigger] list[j]).dest != p.name,
    ensures
        ({
            let job = predownload::patch_job(game_folder, cdn, base_url, list, p);
            &&& job.name == p.name
            &&& job.size == Some(p.size)
            &&& list[i].md5.len() > 0 ==> job.md5 == Some(list[i].md5)
            &&& list[i].md5.len() == 0 ==> job.md5 is None
            &&& job.chunks.len() == 0
        }),
{
    lemma_last_entry(list, p.name, i);
}

proof fn lemma_last_entry(list: Seq<ResourceItemView>, name: Seq<char>, i: int)
    requires
        0 <= i < list.len(),
        list[i].dest == name,
        forall|j: int| i < j < list.len() ==> (#[trigger] list[j]).dest != name,
    ensures
        manifest::entry_for(list, name) == Some(list[i]),
{
    law_last_entry_counts(list, name);
    assert(list[i].dest == name);
    let item = manifest::entry_for(list, name)->0;
    let k = choose|k: int|
        0 <= k < list.len() && #[trigger] list[k] == item && item.dest == name && forall|j: int|
            k < j < list.len() ==> (#[trigger] list[j]).dest != name;
    assert(list[k].dest == name);
    assert(k == i);
}

/// A full file is fetched as its last entry describes it, where that names a folder; one that no
/// entry describes, or whose entry names no folder, is not fetched.
pub proof fn law_full_file_is_fetched_as_listed(
    game_folder: Seq<char>,
    cdn: Seq<char>,
    list: Seq<ResourceItemView>,
    name: Seq<char>,
    i: int,
)
    requires
        0 <= i < list.len(),
        list[i].dest == name,
        forall|j: int| i < j < list.len() ==> (#[trigger] list[j]).dest != name,
    ensures
        ({
            let r = predownload::file_job(game_folder, cdn, list, name);
            &&& r is Ok <==> list[i].from_folder is Some
            &&& r is Err ==> r->Err_0 == ErrorView::MissingField("fromFolder"@)
            &&& r is Ok ==> {
                let job = r->Ok_0;
                &&& job.name == name
                &&& job.size == Some(list[i].size)
                &&& job.md5 == Some(list[i].md5)
                &&& list[i].chunk_infos.len() > 0 ==> job.chunks == list[i].chunk_infos
                &&& list[i].chunk_infos.len() == 0 && list[i].size <= 4194304
                    ==> job.chunks.len() == 0
            }
        }),
{
    lemma_last_entry(list, name, i);
    law_ranges_to_fetch(list[i].size, list[i].chunk_infos);
}

/// A full file that no entry describes is not fetched.
pub proof fn law_unlisted_file_is_not_fetched(
    game_folder: Seq<char>,
    cdn: Seq<char>,
    list: Seq<ResourceItemView>,
    name: Seq<char>,
)
    requires
        forall|j: int| 0 <= j < list.len() ==> (#[trigger] list[j]).dest != name,
    ensures
        predownload::file_job(game_folder, cdn, list, name) == Err::<FetchJobView, _>(
            ErrorView::MissingField("resource entry"@),
        ),
{
    law_last_entry_counts(list, name);
}

/// A file is announced by its name, with nothing of its bytes fetched yet; when it is done, all of
/// them are.
pub proof fn law_fetch_is_announced_and_reported(p: PendingGroupView)
    ensures
        predownload::announcement(p).len() == 2,
        predownload::announcement(p)[0] == (ProgressEventView::GroupStart { name: p.name }),
        predownload::announcement(p)[1] == (ProgressEventView::FileProgress {
            name: p.name,
            bytes: 0,
            total: p.size,
        }),
        predownload::completion(p) == (ProgressEventView::GroupDone { name: p.name, bytes: p.size }),
{
}

}
