//! What a repair leaves behind, and what the next one finds.

use vstd::prelude::*;

use crate::atomic;
use crate::atomic::{Disk, SwapStage};
use crate::digest;
use crate::download;
use crate::manifest::FetchJobView;
use crate::paths;
use crate::sweep;
use crate::sync;
use crate::sync::{Repair, SyncRun};
use crate::types::{ChunkInfoView, ResourceItemView};

verus! {

/// Where a file of a manifest lies.
pub open spec fn path_of(game_folder: Seq<char>, item: ResourceItemView) -> Seq<char> {
    paths::inside(game_folder, item.dest)
}

/// The size of a file of a disk, if it is there.
pub open spec fn found_size(disk: Disk, path: Seq<char>) -> Option<u64> {
    if disk.contains_key(path) {
        Some(disk[path].len() as u64)
    } else {
        None
    }
}

/// The digest of a file of a disk, if it is there.
pub open spec fn found_md5(disk: Disk, path: Seq<char>) -> Option<Seq<char>> {
    if disk.contains_key(path) {
        Some(digest::md5_hex(disk[path]))
    } else {
        None
    }
}

/// Which files of a manifest are sound on a disk.
pub open spec fn checks_on(disk: Disk, game_folder: Seq<char>, items: Seq<ResourceItemView>) -> Seq<
    bool,
> {
    Seq::new(
        items.len(),
        |i: int|
            {
                let path = path_of(game_folder, items[i]);
                sync::is_sound(items[i], found_size(disk, path), found_md5(disk, path))
            },
    )
}

/// The positions of the files that are damaged on a disk.
pub open spec fn damaged_on(disk: Disk, game_folder: Seq<char>, items: Seq<ResourceItemView>) -> Seq<
    usize,
> {
    sync::damaged(checks_on(disk, game_folder, items), items.len() as int)
}

/// Whether ranges end with a file of this size.
pub open spec fn end_at(chunks: Seq<ChunkInfoView>, size: u64) -> bool {
    &&& forall|i: int| 0 <= i < chunks.len() ==> (#[trigger] chunks[i]).end < size
    &&& exists|i: int| 0 <= i < chunks.len() && (#[trigger] chunks[i]).end == size - 1
}

/// Whether the ranges of an entry, where it has some, end with its file.
pub open spec fn is_consistent(item: ResourceItemView) -> bool {
    item.chunk_infos.len() > 0 ==> end_at(item.chunk_infos, item.size)
}

/// Whether a job fetched this: it has the size that the job asks for (where the file comes in
/// ranges, they end with it) and its digest.
pub open spec fn is_fetched(job: FetchJobView, content: Seq<u8>) -> bool {
    exists|size: u64|
        (if job.chunks.len() == 0 {
            job.size == Some(size)
        } else {
            end_at(job.chunks, size)
        }) && #[trigger] download::flaw(
            job.tmp,
            Some(size),
            job.md5,
            content.len() as u64,
            digest::md5_hex(content),
        ) is None
}

/// A disk after a fetched file replaced a damaged one.
pub open spec fn mended(disk: Disk, job: FetchJobView, content: Seq<u8>) -> Disk {
    disk.remove(job.tmp).remove(atomic::backup_of(job.target)).insert(job.target, content)
}

/// A disk after fetched files replaced damaged ones, one after the other.
pub open spec fn all_mended(disk: Disk, jobs: Seq<FetchJobView>, contents: Seq<Seq<u8>>) -> Disk
    decreases jobs.len(),
{
    if jobs.len() == 0 {
        disk
    } else {
        mended(
            all_mended(disk, jobs.drop_last(), contents),
            jobs.last(),
            contents[jobs.len() - 1],
        )
    }
}

/// Whether a path is that of one of some files of a folder.
pub open spec fn is_one_of(game_folder: Seq<char>, files: Seq<Seq<char>>, path: Seq<char>) -> bool {
    exists|i: int| 0 <= i < files.len() && path == paths::joined(game_folder, #[trigger] files[i])
}

/// A disk without some files of a folder.
pub open spec fn swept(disk: Disk, game_folder: Seq<char>, gone: Seq<Seq<char>>) -> Disk {
    disk.restrict(disk.dom().filter(|p: Seq<char>| !is_one_of(game_folder, gone, p)))
}

/// How the damaged files of a disk are fetched.
pub open spec fn jobs_on(
    disk: Disk,
    game_folder: Seq<char>,
    cdn: Seq<char>,
    base_url: Seq<char>,
    items: Seq<ResourceItemView>,
) -> Seq<FetchJobView> {
    let queue = damaged_on(disk, game_folder, items);
    Seq::new(
        queue.len(),
        |k: int| sync::repair_job(game_folder, cdn, base_url, items[queue[k] as int]),
    )
}

/// Whether the files of a manifest, and what lies beside them while they are repaired, have paths of
/// their own.
pub open spec fn are_apart(game_folder: Seq<char>, items: Seq<ResourceItemView>) -> bool {
    &&& forall|i: int, j: int|
        0 <= i < items.len() && 0 <= j < items.len() ==> #[trigger] path_of(game_folder, items[i])
            != paths::with_ext(#[trigger] path_of(game_folder, items[j]), "sync.tmp"@)
    &&& forall|i: int, j: int|
        0 <= i < items.len() && 0 <= j < items.len() ==> #[trigger] path_of(game_folder, items[i])
            != atomic::backup_of(#[trigger] path_of(game_folder, items[j]))
    &&& forall|i: int, j: int|
        0 <= i < j < items.len() ==> #[trigger] path_of(game_folder, items[i]) != #[trigger] path_of(
            game_folder,
            items[j],
        )
}

/// The swap of a fetched file into the place of a damaged one takes at most four steps and leaves
/// the disk as [`mended`] says.
pub proof fn law_repair_mends(disk: Disk, job: FetchJobView, content: Seq<u8>)
    requires
        job.tmp != job.target,
        job.tmp != atomic::backup_of(job.target),
    ensures
        atomic::swap_after(disk.insert(job.tmp, content), job.tmp, job.target, 4) == (
            mended(disk, job, content),
            SwapStage::Done,
        ),
{
    let with = disk.insert(job.tmp, content);
    atomic::law_swap_completes(with, job.tmp, job.target, 4);
    assert(with.remove(job.tmp) =~= disk.remove(job.tmp));
}

/// A file that was fetched for an entry whose ranges end with it has the size and the digest of the
/// entry.
proof fn lemma_fetched_is_sound(
    game_folder: Seq<char>,
    cdn: Seq<char>,
    base_url: Seq<char>,
    item: ResourceItemView,
    content: Seq<u8>,
)
    requires
        is_consistent(item),
        is_fetched(sync::repair_job(game_folder, cdn, base_url, item), content),
    ensures
        sync::is_sound(item, Some(content.len() as u64), Some(digest::md5_hex(content))),
{
    let job = sync::repair_job(game_folder, cdn, base_url, item);
    let size = choose|size: u64|
        (if job.chunks.len() == 0 {
            job.size == Some(size)
        } else {
            end_at(job.chunks, size)
        }) && #[trigger] download::flaw(
            job.tmp,
            Some(size),
            job.md5,
            content.len() as u64,
            digest::md5_hex(content),
        ) is None;
    if job.chunks.len() > 0 {
        if item.chunk_infos.len() == 0 {
            download::law_synth_chunks_tile(item.size);
            let c = download::synth_chunks(item.size);
            assert(c[c.len() - 1].end == item.size - 1);
            assert forall|i: int| 0 <= i < c.len() implies (#[trigger] c[i]).end < item.size by {}
        }
        assert(end_at(job.chunks, item.size));
        let i = choose|i: int| 0 <= i < job.chunks.len() && (#[trigger] job.chunks[i]).end == size - 1;
        let j = choose|j: int|
            0 <= j < job.chunks.len() && (#[trigger] job.chunks[j]).end == item.size - 1;
        assert(job.chunks[i].end < item.size);
        assert(job.chunks[j].end < size);
        assert(size == item.size);
    }
    sync::law_verified_file_is_sound(
        item,
        job.tmp,
        content.len() as u64,
        digest::md5_hex(content),
    );
}

/// The positions of damaged files are positions of the list, each once.
proof fn lemma_damaged_once(checks: Seq<bool>, n: int)
    requires
        0 <= n <= checks.len() <= usize::MAX,
    ensures
        forall|k: int|
            0 <= k < sync::damaged(checks, n).len() ==> (#[trigger] sync::damaged(checks, n)[k]) < n,
        forall|k: int, l: int|
            0 <= k < l < sync::damaged(checks, n).len() ==> (#[trigger] sync::damaged(checks, n)[k])
                < (#[trigger] sync::damaged(checks, n)[l]),
        forall|i: int|
            0 <= i < n && !checks[i] ==> #[trigger] sync::damaged(checks, n).contains(i as usize),
    decreases n,
{
    if n > 0 {
        lemma_damaged_once(checks, n - 1);
        let before = sync::damaged(checks, n - 1);
        let now = sync::damaged(checks, n);
        assert forall|i: int| 0 <= i < n && !checks[i] implies #[trigger] now.contains(
            i as usize,
        ) by {
            if i < n - 1 {
                assert(before.contains(i as usize));
                let k = choose|k: int| 0 <= k < before.len() && before[k] == i as usize;
                assert(now[k] == i as usize);
            } else {
                assert(now[before.len() as int] == i as usize);
            }
        }
    }
}

/// What the first `n` repairs leave at the path of an entry: what was fetched for it where it is one
/// of them, else what was there.
proof fn lemma_mended_at(
    disk: Disk,
    jobs: Seq<FetchJobView>,
    contents: Seq<Seq<u8>>,
    path: Seq<char>,
    k: int,
)
    requires
        jobs.len() <= contents.len(),
        forall|l: int|
            0 <= l < jobs.len() ==> path != (#[trigger] jobs[l]).tmp && path != atomic::backup_of(
                jobs[l].target,
            ),
        forall|l: int| 0 <= l < jobs.len() && l != k ==> path != (#[trigger] jobs[l]).target,
        0 <= k < jobs.len() ==> path == jobs[k].target,
    ensures
        ({
            let after = all_mended(disk, jobs, contents);
            if 0 <= k < jobs.len() {
                after.contains_key(path) && after[path] == contents[k]
            } else {
                (after.contains_key(path) <==> disk.contains_key(path)) && (disk.contains_key(path)
                    ==> after[path] == disk[path])
            }
        }),
    decreases jobs.len(),
{
    if jobs.len() > 0 {
        let rest = jobs.drop_last();
        assert forall|l: int| 0 <= l < rest.len() implies path != (#[trigger] rest[l]).tmp && path
            != atomic::backup_of(rest[l].target) && (l != k ==> path != rest[l].target) by {
            assert(rest[l] == jobs[l]);
        }
        lemma_mended_at(disk, rest, contents, path, k);
        let last = jobs[jobs.len() - 1];
        assert(path != last.tmp && path != atomic::backup_of(last.target));
    }
}

/// Two relative paths seen from one folder are the same only where they are the same.
proof fn lemma_joined_differ(base: Seq<char>, a: Seq<char>, b: Seq<char>)
    requires
        a.len() == 0 || a[0] != '/',
        b.len() == 0 || b[0] != '/',
        paths::joined(base, a) == paths::joined(base, b),
    ensures
        a == b,
{
    let front = if base.len() == 0 || base.last() == '/' {
        base
    } else {
        base + "/"@
    };
    let whole = paths::joined(base, a);
    assert(whole == front + a);
    assert(whole == front + b);
    assert(a =~= whole.skip(front.len() as int));
    assert(b =~= whole.skip(front.len() as int));
}

/// A repair after which nothing has failed leaves every file of the manifest sound: the next one
/// finds none damaged, and so asks for no file. (The manifest gives each file a path of its own, and
/// ranges, where it has some, that end with the file.)
pub proof fn law_second_sync_asks_for_nothing(
    disk: Disk,
    game_folder: Seq<char>,
    cdn: Seq<char>,
    base_url: Seq<char>,
    items: Seq<ResourceItemView>,
    contents: Seq<Seq<u8>>,
    files: Seq<Seq<char>>,
)
    requires
        items.len() <= usize::MAX,
        are_apart(game_folder, items),
        forall|i: int| 0 <= i < items.len() ==> is_consistent(#[trigger] items[i]),
        contents.len() == jobs_on(disk, game_folder, cdn, base_url, items).len(),
        forall|k: int|
            0 <= k < contents.len() ==> is_fetched(
                jobs_on(disk, game_folder, cdn, base_url, items)[k],
                #[trigger] contents[k],
            ),
        forall|i: int| 0 <= i < files.len() ==> (#[trigger] files[i]).len() == 0 || files[i][0] != '/',
    ensures
        ({
            let jobs = jobs_on(disk, game_folder, cdn, base_url, items);
            let after = swept(
                all_mended(disk, jobs, contents),
                game_folder,
                sweep::orphans(items, files),
            );
            &&& forall|i: int|
                0 <= i < items.len() ==> #[trigger] checks_on(after, game_folder, items)[i]
            &&& damaged_on(after, game_folder, items).len() == 0
        }),
{
    let jobs = jobs_on(disk, game_folder, cdn, base_url, items);
    let checks = checks_on(disk, game_folder, items);
    let queue = damaged_on(disk, game_folder, items);
    let repaired = all_mended(disk, jobs, contents);
    let gone = sweep::orphans(items, files);
    let after = swept(repaired, game_folder, gone);
    lemma_damaged_once(checks, items.len() as int);
    assert forall|i: int| 0 <= i < items.len() implies #[trigger] checks_on(
        after,
        game_folder,
        items,
    )[i] by {
        let path = path_of(game_folder, items[i]);
        let k = if checks[i] {
            -1
        } else {
            assert(queue.contains(i as usize));
            choose|k: int| 0 <= k < queue.len() && queue[k] == i as usize
        };
        assert forall|l: int| 0 <= l < jobs.len() implies path != (#[trigger] jobs[l]).tmp && path
            != atomic::backup_of(jobs[l].target) && (l != k ==> path != jobs[l].target) by {
            let j = queue[l] as int;
            assert(jobs[l].target == path_of(game_folder, items[j]));
            if l != k {
                if checks[i] {
                    lemma_damaged_is_damaged(checks, items.len() as int, l);
                }
                assert(j != i);
                assert(path_of(game_folder, items[i]) != path_of(game_folder, items[j]));
            }
        }
        lemma_mended_at(disk, jobs, contents, path, k);
        if k >= 0 {
            assert(is_fetched(jobs[k], contents[k]));
            lemma_fetched_is_sound(game_folder, cdn, base_url, items[i], contents[k]);
        }
        assert(!is_one_of(game_folder, gone, path)) by {
            if is_one_of(game_folder, gone, path) {
                let g = choose|g: int|
                    0 <= g < gone.len() && path == paths::joined(game_folder, #[trigger] gone[g]);
                sweep::law_sweep_removes_exactly_orphans(items, files, gone[g]);
                assert(gone.contains(gone[g]));
                let f = choose|f: int| 0 <= f < files.len() && files[f] == gone[g];
                paths::lemma_relative(items[i].dest);
                lemma_joined_differ(game_folder, files[f], paths::relative(items[i].dest));
                sweep::law_listed_files_stay(items, i);
            }
        }
        assert(checks_on(repaired, game_folder, items)[i]);
    }
    let again = checks_on(after, game_folder, items);
    if sync::damaged(again, items.len() as int).len() > 0 {
        lemma_damaged_once(again, items.len() as int);
        lemma_damaged_is_damaged(again, items.len() as int, 0);
    }
}

proof fn lemma_damaged_is_damaged(checks: Seq<bool>, n: int, k: int)
    requires
        0 <= n <= checks.len() <= usize::MAX,
        0 <= k < sync::damaged(checks, n).len(),
    ensures
        sync::damaged(checks, n)[k] < n,
        !checks[sync::damaged(checks, n)[k] as int],
    decreases n,
{
    if n > 0 {
        if k < sync::damaged(checks, n - 1).len() {
            lemma_damaged_is_damaged(checks, n - 1, k);
        }
    }
}

/// Where no file is damaged, nothing is repaired, and the report says that all files are sound.
pub proof fn law_sound_files_are_left_alone(run: SyncRun)
    requires
        run.wf(),
        run.queue@.len() == 0,
    ensures
        run.report.ok == run.report.checked,
        run.report.repaired == 0,
        run.report.repaired_bytes == 0,
        run.report.failed@.len() == 0,
        run.total == 0,
{
}

/// Once the orphans are swept away, the next sweep finds none.
pub proof fn law_second_sweep_finds_nothing(
    items: Seq<ResourceItemView>,
    files: Seq<Seq<char>>,
    left: Seq<Seq<char>>,
)
    requires
        forall|i: int|
            0 <= i < left.len() ==> files.contains(#[trigger] left[i]) && !sweep::orphans(
                items,
                files,
            ).contains(left[i]),
    ensures
        sweep::orphans(items, left).len() == 0,
{
    let again = sweep::orphans(items, left);
    if again.len() > 0 {
        sweep::law_sweep_removes_exactly_orphans(items, left, again[0]);
        assert(again.contains(again[0]));
        let i = choose|i: int| 0 <= i < left.len() && left[i] == again[0];
        sweep::law_sweep_removes_exactly_orphans(items, files, left[i]);
    }
}

/// A file that is missing, that has another size than its manifest says, or that has the size but
/// not the digest, is queued for repair; one that has both is not.
pub proof fn law_corrupt_file_is_queued(
    item: ResourceItemView,
    found_size: Option<u64>,
    found_md5: Option<Seq<char>>,
    checks: Seq<bool>,
    i: int,
)
    requires
        0 <= i < checks.len() <= usize::MAX,
        checks[i] == sync::is_sound(item, found_size, found_md5),
    ensures
        found_size is None ==> sync::damaged(checks, checks.len() as int).contains(i as usize),
        found_size is Some && found_size->0 != item.size ==> sync::damaged(
            checks,
            checks.len() as int,
        ).contains(i as usize),
        item.md5.len() > 0 && found_md5 is None ==> sync::damaged(
            checks,
            checks.len() as int,
        ).contains(i as usize),
        item.md5.len() > 0 && found_md5 is Some && found_md5->0 != item.md5 ==> sync::damaged(
            checks,
            checks.len() as int,
        ).contains(i as usize),
        found_size is Some && found_size->0 == item.size && (item.md5.len() == 0 || (found_md5
            is Some && found_md5->0 == item.md5)) ==> !sync::damaged(
            checks,
            checks.len() as int,
        ).contains(i as usize),
{
    sync::law_only_damaged_files_are_repaired(checks, i);
}

/// The files that are counted as sound are those whose check said so.
pub proof fn law_sound_files_are_counted(checks: Seq<bool>, n: int)
    requires
        0 <= n <= checks.len(),
    ensures
        sync::sound_count(checks, n) == checks.take(n).filter(|c: bool| c).len(),
    decreases n,
{
    reveal(Seq::filter);
    if n > 0 {
        law_sound_files_are_counted(checks, n - 1);
        assert(checks.take(n).drop_last() =~= checks.take(n - 1));
        assert(checks.take(n).last() == checks[n - 1]);
    }
}

/// The repairs that came out in one way are counted one by one.
pub proof fn law_repairs_are_counted(repairs: Seq<Repair>, what: Repair)
    ensures
        sync::count_of(repairs, what) == repairs.filter(|r: Repair| r == what).len(),
    decreases repairs.len(),
{
    reveal(Seq::filter);
    if repairs.len() > 0 {
        law_repairs_are_counted(repairs.drop_last(), what);
    }
}

/// The sizes of the files at some positions add up.
pub proof fn law_sizes_of_items_add_up(
    items: Seq<ResourceItemView>,
    a: Seq<usize>,
    b: Seq<usize>,
)
    ensures
        sync::size_of_items(items, a + b) == sync::size_of_items(items, a) + sync::size_of_items(
            items,
            b,
        ),
        a.len() == 0 ==> sync::size_of_items(items, a) == 0,
        a.len() == 1 ==> sync::size_of_items(items, a) == items[a[0] as int].size,
    decreases b.len(),
{
    reveal_with_fuel(sync::size_of_items, 2);
    if b.len() == 0 {
        assert(a + b =~= a);
    } else {
        law_sizes_of_items_add_up(items, a, b.drop_last());
        assert((a + b).drop_last() =~= a + b.drop_last());
    }
}

/// A damaged file is fetched whole, under its own name, with the size and the digest of its entry.
pub proof fn law_repair_fetches_the_entry(
    game_folder: Seq<char>,
    cdn: Seq<char>,
    base_url: Seq<char>,
    item: ResourceItemView,
)
    ensures
        ({
            let job = sync::repair_job(game_folder, cdn, base_url, item);
            &&& job.name == item.dest
            &&& job.size is Some && job.size->0 == item.size
            &&& job.md5 is Some && job.md5->0 == item.md5
            &&& item.chunk_infos.len() > 0 ==> job.chunks == item.chunk_infos
        }),
{
}

}
