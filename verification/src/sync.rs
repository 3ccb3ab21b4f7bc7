//! Verifying an installed game against its manifest and repairing what is missing or damaged.

use vstd::prelude::*;

use crate::client;
use crate::client::ApiClient;
use crate::download;
use crate::error;
use crate::error::Error;
use crate::game::GameManager;
use crate::manifest;
use crate::manifest::{FetchJob, FetchJobView, FileProbe};
use crate::paths;
use crate::progress::{ProgressEvent, ProgressEventView};
use crate::text;
use crate::types::{PatchIndex, ResourceItem, ResourceItemView};

verus! {

/// Files that are repaired at the same time.
pub const REPAIR_FILE_CONCURRENCY: usize = 4;

/// After how many verified files a verification reports.
pub const VERIFY_STEP: usize = 256;

/// What a repair found and did.
#[derive(Debug)]
pub struct SyncReport {
    pub checked: usize,
    pub ok: usize,
    pub repaired: usize,
    pub repaired_bytes: u64,
    /// Why files could not be repaired, one text for each.
    pub failed: Vec<String>,
    /// Files that no manifest lists and that were removed.
    pub orphans_removed: usize,
}

/// The model of [`SyncReport`].
#[verifier::ext_equal]
pub struct SyncReportView {
    pub checked: nat,
    pub ok: nat,
    pub repaired: nat,
    pub repaired_bytes: nat,
    pub failed: Seq<Seq<char>>,
    pub orphans_removed: nat,
}

impl DeepView for SyncReport {
    type V = SyncReportView;

    open spec fn deep_view(&self) -> SyncReportView {
        SyncReportView {
            checked: self.checked as nat,
            ok: self.ok as nat,
            repaired: self.repaired as nat,
            repaired_bytes: self.repaired_bytes as nat,
            failed: self.failed.deep_view(),
            orphans_removed: self.orphans_removed as nat,
        }
    }
}

impl Default for SyncReport {
    fn default() -> (r: Self)
        ensures
            r.checked == 0,
            r.ok == 0,
            r.repaired == 0,
            r.repaired_bytes == 0,
            r.failed@.len() == 0,
            r.orphans_removed == 0,
    {
        SyncReport {
            checked: 0,
            ok: 0,
            repaired: 0,
            repaired_bytes: 0,
            failed: Vec::new(),
            orphans_removed: 0,
        }
    }
}

impl Clone for SyncReport {
    fn clone(&self) -> (r: Self)
        ensures
            r.deep_view() == self.deep_view(),
            r.checked == self.checked,
            r.ok == self.ok,
            r.repaired == self.repaired,
            r.repaired_bytes == self.repaired_bytes,
            r.failed.deep_view() == self.failed.deep_view(),
            r.orphans_removed == self.orphans_removed,
    {
        let r = SyncReport {
            checked: self.checked,
            ok: self.ok,
            repaired: self.repaired,
            repaired_bytes: self.repaired_bytes,
            failed: self.failed.clone(),
            orphans_removed: self.orphans_removed,
        };
        assert(r.deep_view() =~= self.deep_view());
        r
    }
}

/// What becomes of a damaged file.
#[derive(Debug, Clone, Copy, PartialEq, Eq, Structural)]
pub enum Repair {
    Pending,
    Done,
    Failed,
}

/// Whether a file of the game is as its manifest says.
pub open spec fn is_sound(item: ResourceItemView, size: Option<u64>, md5: Option<Seq<char>>) -> bool {
    manifest::is_intact(size, md5, item.size, item.md5)
}

/// Where a file of the manifest lies.
pub fn item_path(game_folder: &str, item: &ResourceItem) -> (r: String)
    ensures
        r@ == paths::inside(game_folder@, item.deep_view().dest),
{
    paths::join_inside(game_folder, item.dest.as_str())
}

/// Judges a file of the game by what was found of it.
pub fn check_item(item: &ResourceItem, found: &FileProbe) -> (r: bool)
    ensures
        r == is_sound(item.deep_view(), found.size, found.md5.deep_view()),
        r <==> found.size is Some && found.size->0 == item.size && (item.md5@.len() == 0 || (
        found.md5 is Some && found.md5->0@ == item.md5@)),
{
    manifest::file_matches(found, item.size, item.md5.as_str())
}

/// The report of a verification after `n` of `total` files, where one is due.
pub fn verify_progress(n: usize, total: usize) -> (r: Option<ProgressEvent>)
    ensures
        r.deep_view() == if n % VERIFY_STEP == 0 {
            Some(
                ProgressEventView::FileProgress {
                    name: "verify"@,
                    bytes: n as u64,
                    total: total as u64,
                },
            )
        } else {
            None
        },
        r is Some <==> n % 256 == 0,
{
    if n % VERIFY_STEP == 0 {
        Some(
            ProgressEvent::FileProgress {
                name: "verify".to_owned(),
                bytes: n as u64,
                total: total as u64,
            },
        )
    } else {
        None
    }
}

/// The announcement of a verification.
pub fn verify_started(total: usize) -> (r: ProgressEvent)
    ensures
        r.deep_view() == ProgressEventView::Log(
            "verifying "@ + text::decimal(total as nat) + " files…"@,
        ),
{
    let n = text::number(total as u64);
    ProgressEvent::Log("verifying ".to_owned().concat(n.as_str()).concat(" files…"))
}

/// How many of the first `n` files were sound.
pub open spec fn sound_count(checks: Seq<bool>, n: int) -> nat
    decreases n,
{
    if n <= 0 {
        0
    } else {
        sound_count(checks, n - 1) + if checks[n - 1] {
            1nat
        } else {
            0nat
        }
    }
}

/// The positions below `n` of the files that were not sound.
pub open spec fn damaged(checks: Seq<bool>, n: int) -> Seq<usize>
    decreases n,
{
    if n <= 0 {
        Seq::empty()
    } else if checks[n - 1] {
        damaged(checks, n - 1)
    } else {
        damaged(checks, n - 1).push((n - 1) as usize)
    }
}

/// The sizes of the entries at some positions, added up.
pub open spec fn size_of_items(items: Seq<ResourceItemView>, positions: Seq<usize>) -> nat
    decreases positions.len(),
{
    if positions.len() == 0 {
        0
    } else {
        size_of_items(items, positions.drop_last()) + items[positions.last() as int].size as nat
    }
}

/// How many repairs came out in this way.
pub open spec fn count_of(repairs: Seq<Repair>, what: Repair) -> nat
    decreases repairs.len(),
{
    if repairs.len() == 0 {
        0
    } else {
        count_of(repairs.drop_last(), what) + if repairs.last() == what {
            1nat
        } else {
            0nat
        }
    }
}

/// The sizes of the repaired files, added up.
pub open spec fn repaired_size(
    items: Seq<ResourceItemView>,
    queue: Seq<usize>,
    repairs: Seq<Repair>,
) -> nat
    decreases repairs.len(),
{
    if repairs.len() == 0 {
        0
    } else {
        repaired_size(items, queue, repairs.drop_last()) + if repairs.last() == Repair::Done {
            items[queue[repairs.len() - 1] as int].size as nat
        } else {
            0
        }
    }
}

proof fn lemma_damaged(checks: Seq<bool>, n: int)
    requires
        0 <= n <= checks.len() <= usize::MAX,
    ensures
        damaged(checks, n).len() + sound_count(checks, n) == n,
        forall|i: int|
            0 <= i < damaged(checks, n).len() ==> (#[trigger] damaged(checks, n)[i]) < n,
    decreases n,
{
    if n > 0 {
        lemma_damaged(checks, n - 1);
    }
}

proof fn lemma_damaged_rises(checks: Seq<bool>, n: int)
    requires
        0 <= n <= checks.len() <= usize::MAX,
    ensures
        forall|j: int, k: int|
            0 <= j < k < damaged(checks, n).len() ==> #[trigger] damaged(checks, n)[j]
                < #[trigger] damaged(checks, n)[k],
    decreases n,
{
    if n > 0 {
        lemma_damaged_rises(checks, n - 1);
        lemma_damaged(checks, n - 1);
    }
}

proof fn lemma_repaired_bound(
    items: Seq<ResourceItemView>,
    queue: Seq<usize>,
    repairs: Seq<Repair>,
)
    requires
        repairs.len() <= queue.len(),
    ensures
        repaired_size(items, queue, repairs) <= size_of_items(items, queue.take(repairs.len() as int)),
    decreases repairs.len(),
{
    if repairs.len() > 0 {
        let n = repairs.len() as int;
        lemma_repaired_bound(items, queue, repairs.drop_last());
        assert(queue.take(n).drop_last() =~= queue.take(n - 1));
    }
}

proof fn lemma_settle(
    items: Seq<ResourceItemView>,
    queue: Seq<usize>,
    repairs: Seq<Repair>,
    k: int,
    to: Repair,
)
    requires
        0 <= k < repairs.len() <= queue.len(),
        repairs[k] == Repair::Pending,
        to != Repair::Pending,
    ensures
        count_of(repairs.update(k, to), to) == count_of(repairs, to) + 1,
        count_of(repairs.update(k, to), Repair::Pending) + 1 == count_of(repairs, Repair::Pending),
        forall|w: Repair|
            w != to && w != Repair::Pending ==> #[trigger] count_of(repairs.update(k, to), w)
                == count_of(repairs, w),
        repaired_size(items, queue, repairs.update(k, to)) == repaired_size(items, queue, repairs)
            + if to == Repair::Done {
            items[queue[k] as int].size as nat
        } else {
            0
        },
    decreases repairs.len(),
{
    let n = repairs.len() as int;
    let now = repairs.update(k, to);
    if k == n - 1 {
        assert(now.drop_last() =~= repairs.drop_last());
    } else {
        lemma_settle(items, queue, repairs.drop_last(), k, to);
        assert(now.drop_last() =~= repairs.drop_last().update(k, to));
        assert forall|w: Repair| w != to && w != Repair::Pending implies #[trigger] count_of(now, w)
            == count_of(repairs, w) by {
            assert(count_of(now.drop_last(), w) == count_of(repairs.drop_last(), w));
        }
    }
}

proof fn lemma_counts_add_up(repairs: Seq<Repair>)
    ensures
        count_of(repairs, Repair::Pending) + count_of(repairs, Repair::Done) + count_of(
            repairs,
            Repair::Failed,
        ) == repairs.len(),
    decreases repairs.len(),
{
    if repairs.len() > 0 {
        lemma_counts_add_up(repairs.drop_last());
    }
}

/// How a damaged file is fetched: into a file beside it, which then replaces it.
pub open spec fn repair_job(
    game_folder: Seq<char>,
    cdn: Seq<char>,
    base_url: Seq<char>,
    item: ResourceItemView,
) -> FetchJobView {
    let target = paths::inside(game_folder, item.dest);
    let folder = match item.from_folder {
        Some(f) => f,
        None => base_url,
    };
    FetchJobView {
        name: item.dest,
        url: client::resource_address(cdn, folder, item.dest),
        tmp: paths::with_ext(target, "sync.tmp"@),
        target,
        size: Some(item.size),
        md5: Some(item.md5),
        chunks: download::fetch_ranges(item.size, item.chunk_infos),
    }
}

/// The course of a repair once the files were verified.
pub struct SyncRun {
    pub game_folder: String,
    pub cdn: String,
    pub base_url: String,
    pub items: Vec<ResourceItem>,
    /// The positions of the damaged files.
    pub queue: Vec<usize>,
    /// What became of each of the damaged files.
    pub repairs: Vec<Repair>,
    /// How many bytes the damaged files have.
    pub total: u64,
    pub report: SyncReport,
}

impl SyncRun {
    /// The report counts what was found and what became of the repairs.
    pub open spec fn wf(&self) -> bool {
        let items = self.items.deep_view();
        &&& self.repairs@.len() == self.queue@.len()
        &&& forall|k: int| 0 <= k < self.queue@.len() ==> #[trigger] self.queue@[k] < items.len()
        &&& self.total == size_of_items(items, self.queue@)
        &&& self.report.checked == self.items@.len()
        &&& self.report.ok + self.queue@.len() == self.report.checked
        &&& self.report.repaired == count_of(self.repairs@, Repair::Done)
        &&& self.report.repaired_bytes == repaired_size(items, self.queue@, self.repairs@)
        &&& self.report.failed@.len() == count_of(self.repairs@, Repair::Failed)
        &&& self.report.orphans_removed == 0
    }

    /// Whether two courses repair the same.
    pub open spec fn same_task(&self, other: &Self) -> bool {
        &&& self.game_folder == other.game_folder
        &&& self.cdn == other.cdn
        &&& self.base_url == other.base_url
        &&& self.items == other.items
        &&& self.queue == other.queue
        &&& self.total == other.total
    }

    /// What is said once the files were verified: the verdict, the bytes to fetch and the number
    /// of files that wait. `gib` is the text of the number of bytes in GiB.
    pub fn verified_events(&self, gib: &str) -> (r: Vec<ProgressEvent>)
        requires
            self.wf(),
        ensures
            r.deep_view() == seq![
                ProgressEventView::Log(
                    if self.queue@.len() == 0 {
                        "all "@ + text::decimal(self.report.checked as nat) + " files ok"@
                    } else {
                        text::decimal(self.queue@.len()) + " files need repair ("@ + gib@
                            + " GiB)"@
                    },
                ),
                ProgressEventView::SetTotal { bytes: self.total },
                ProgressEventView::SetQueued { count: self.queue@.len() as usize },
            ],
    {
        let verdict = if self.queue.len() == 0 {
            let n = text::number(self.report.checked as u64);
            "all ".to_owned().concat(n.as_str()).concat(" files ok")
        } else {
            let n = text::number(self.queue.len() as u64);
            n.concat(" files need repair (").concat(gib).concat(" GiB)")
        };
        let ghost said = verdict@;
        let r = vec![
            ProgressEvent::Log(verdict),
            ProgressEvent::SetTotal { bytes: self.total },
            ProgressEvent::SetQueued { count: self.queue.len() },
        ];
        assert(r.deep_view() =~= seq![
            ProgressEventView::Log(said),
            ProgressEventView::SetTotal { bytes: self.total },
            ProgressEventView::SetQueued { count: self.queue@.len() as usize },
        ]);
        r
    }

    /// How the damaged file `k` is fetched.
    pub fn repair_job(&self, k: usize) -> (r: FetchJob)
        requires
            self.wf(),
            k < self.queue@.len(),
        ensures
            r.deep_view() == repair_job(
                self.game_folder@,
                self.cdn@,
                self.base_url@,
                self.items.deep_view()[self.queue@[k as int] as int],
            ),
    {
        let item = &self.items[self.queue[k]];
        assert(item.deep_view() == self.items.deep_view()[self.queue@[k as int] as int]);
        let dest = item.dest.as_str();
        let target = paths::join_inside(self.game_folder.as_str(), dest);
        let folder = match &item.from_folder {
            Some(f) => f.as_str(),
            None => self.base_url.as_str(),
        };
        FetchJob {
            name: item.dest.clone(),
            url: ApiClient::resource_url(self.cdn.as_str(), folder, dest),
            tmp: paths::with_extension(target.as_str(), "sync.tmp"),
            target,
            size: Some(item.size),
            md5: Some(item.md5.clone()),
            chunks: download::effective_chunks(item.size, &item.chunk_infos),
        }
    }

    /// Whether the repair `k` is still to be settled.
    pub fn is_pending(&self, k: usize) -> (r: bool)
        ensures
            r == (k < self.repairs@.len() && self.repairs@[k as int] == Repair::Pending),
    {
        k < self.repairs.len() && self.repairs[k] == Repair::Pending
    }

    /// Counts the damaged file `k` as repaired.
    pub fn on_repaired(&mut self, k: usize) -> (r: ProgressEvent)
        requires
            old(self).wf(),
            k < old(self).repairs@.len(),
            old(self).repairs@[k as int] == Repair::Pending,
        ensures
            final(self).wf(),
            final(self).same_task(old(self)),
            final(self).repairs@ == old(self).repairs@.update(k as int, Repair::Done),
            final(self).report.failed == old(self).report.failed,
            final(self).report.checked == old(self).report.checked,
            final(self).report.ok == old(self).report.ok,
            final(self).report.repaired == old(self).report.repaired + 1,
            final(self).report.repaired_bytes == old(self).report.repaired_bytes + old(
                self,
            ).items@[old(self).queue@[k as int] as int].size,
            final(self).report.orphans_removed == 0,
            r.deep_view() == ({
                let item = old(self).items.deep_view()[old(self).queue@[k as int] as int];
                ProgressEventView::GroupDone { name: item.dest, bytes: item.size }
            }),
    {
        let ghost items = self.items.deep_view();
        let item = &self.items[self.queue[k]];
        assert(item.deep_view() == items[self.queue@[k as int] as int]);
        let size: u64 = item.size;
        let name = item.dest.clone();
        proof {
            lemma_settle(items, self.queue@, self.repairs@, k as int, Repair::Done);
            let now = self.repairs@.update(k as int, Repair::Done);
            lemma_repaired_bound(items, self.queue@, now);
            lemma_counts_add_up(now);
            assert(self.queue@.take(now.len() as int) =~= self.queue@);
            assert(self.queue.len() <= usize::MAX);
        }
        self.repairs.set(k, Repair::Done);
        self.report.repaired = self.report.repaired + 1;
        self.report.repaired_bytes = self.report.repaired_bytes + size;
        ProgressEvent::GroupDone { name, bytes: size }
    }

    /// Counts the damaged file `k` as one that could not be repaired.
    pub fn on_failed(&mut self, k: usize, error: &Error)
        requires
            old(self).wf(),
            k < old(self).repairs@.len(),
            old(self).repairs@[k as int] == Repair::Pending,
        ensures
            final(self).wf(),
            final(self).same_task(old(self)),
            final(self).repairs@ == old(self).repairs@.update(k as int, Repair::Failed),
            final(self).report.checked == old(self).report.checked,
            final(self).report.ok == old(self).report.ok,
            final(self).report.repaired == old(self).report.repaired,
            final(self).report.repaired_bytes == old(self).report.repaired_bytes,
            final(self).report.orphans_removed == 0,
            final(self).report.failed.deep_view() == old(self).report.failed.deep_view().push(
                error::error_text(error.deep_view()),
            ),
    {
        let ghost before = self.report.failed.deep_view();
        proof {
            lemma_settle(
                self.items.deep_view(),
                self.queue@,
                self.repairs@,
                k as int,
                Repair::Failed,
            );
        }
        self.repairs.set(k, Repair::Failed);
        self.report.failed.push(error.to_string());
        assert(self.report.failed.deep_view() =~= before.push(
            error::error_text(error.deep_view()),
        ));
    }

    /// Whether every repair is settled.
    pub fn is_settled(&self) -> (r: bool)
        ensures
            r == (count_of(self.repairs@, Repair::Pending) == 0),
            r <==> forall|k: int|
                0 <= k < self.repairs@.len() ==> #[trigger] self.repairs@[k] != Repair::Pending,
    {
        let mut i: usize = 0;
        while i < self.repairs.len()
            invariant
                i <= self.repairs@.len(),
                count_of(self.repairs@.take(i as int), Repair::Pending) == 0,
                forall|k: int| 0 <= k < i ==> #[trigger] self.repairs@[k] != Repair::Pending,
            decreases self.repairs@.len() - i,
        {
            proof {
                assert(self.repairs@.take(i + 1).drop_last() =~= self.repairs@.take(i as int));
            }
            if self.repairs[i] == Repair::Pending {
                proof {
                    lemma_counts_grow(self.repairs@, i + 1, Repair::Pending);
                }
                return false;
            }
            i = i + 1;
        }
        assert(self.repairs@.take(i as int) =~= self.repairs@);
        true
    }

    /// The report, once every repair is settled and `orphans` files were swept away. Each file was
    /// sound, was repaired, or could not be repaired.
    pub fn finish(self, orphans: usize) -> (r: SyncReport)
        requires
            self.wf(),
            count_of(self.repairs@, Repair::Pending) == 0,
        ensures
            r.deep_view() == (SyncReportView {
                orphans_removed: orphans as nat,
                ..self.report.deep_view()
            }),
            r.checked == r.ok + r.repaired + r.failed@.len(),
            r.checked == self.report.checked,
            r.ok == self.report.ok,
            r.repaired == self.report.repaired,
            r.repaired_bytes == self.report.repaired_bytes,
            r.failed == self.report.failed,
            r.orphans_removed == orphans,
    {
        proof {
            lemma_counts_add_up(self.repairs@);
        }
        let mut r = self.report;
        r.orphans_removed = orphans;
        r
    }
}

/// A file that was fetched in the place of a damaged one, and that passed the check of its size and
/// its digest, is sound.
pub proof fn law_verified_file_is_sound(
    item: ResourceItemView,
    path: Seq<char>,
    actual_size: u64,
    actual_md5: Seq<char>,
)
    requires
        download::flaw(path, Some(item.size), Some(item.md5), actual_size, actual_md5) is None,
    ensures
        is_sound(item, Some(actual_size), Some(actual_md5)),
{
}

/// A file that is as its manifest says is not fetched again, and every other one is.
pub proof fn law_only_damaged_files_are_repaired(checks: Seq<bool>, i: int)
    requires
        0 <= i < checks.len() <= usize::MAX,
    ensures
        damaged(checks, checks.len() as int).contains(i as usize) <==> !checks[i],
{
    lemma_damaged_has(checks, checks.len() as int, i);
}

proof fn lemma_damaged_has(checks: Seq<bool>, n: int, i: int)
    requires
        0 <= n <= checks.len() <= usize::MAX,
        0 <= i < checks.len(),
    ensures
        damaged(checks, n).contains(i as usize) <==> i < n && !checks[i],
    decreases n,
{
    if n > 0 {
        lemma_damaged_has(checks, n - 1, i);
        let before = damaged(checks, n - 1);
        if !checks[n - 1] {
            let now = before.push((n - 1) as usize);
            assert(now[before.len() as int] == (n - 1) as usize);
            if before.contains(i as usize) {
                let k = choose|k: int| 0 <= k < before.len() && before[k] == i as usize;
                assert(now[k] == i as usize);
            }
            if now.contains(i as usize) {
                let k = choose|k: int| 0 <= k < now.len() && now[k] == i as usize;
                assert(k == before.len() || before[k] == i as usize);
            }
        }
    }
}

/// Of the files that were checked, each was sound, was repaired, or could not be repaired.
pub proof fn law_sync_accounts_for_every_file(run: SyncRun)
    requires
        run.wf(),
        count_of(run.repairs@, Repair::Pending) == 0,
    ensures
        run.report.checked == run.report.ok + run.report.repaired + run.report.failed@.len(),
{
    lemma_counts_add_up(run.repairs@);
}

/// No more bytes are counted as repaired than the damaged files have, and all of them are where
/// every damaged file was repaired.
pub proof fn law_repaired_bytes(run: SyncRun)
    requires
        run.wf(),
    ensures
        run.report.repaired_bytes <= run.total,
        count_of(run.repairs@, Repair::Done) == run.repairs@.len() ==> run.report.repaired_bytes
            == run.total,
{
    lemma_repaired_bound(run.items.deep_view(), run.queue@, run.repairs@);
    assert(run.queue@.take(run.repairs@.len() as int) =~= run.queue@);
    if count_of(run.repairs@, Repair::Done) == run.repairs@.len() {
        lemma_all_repaired(run.items.deep_view(), run.queue@, run.repairs@);
    }
}

proof fn lemma_count_bound(repairs: Seq<Repair>, what: Repair)
    ensures
        count_of(repairs, what) <= repairs.len(),
    decreases repairs.len(),
{
    if repairs.len() > 0 {
        lemma_count_bound(repairs.drop_last(), what);
    }
}

proof fn lemma_all_repaired(
    items: Seq<ResourceItemView>,
    queue: Seq<usize>,
    repairs: Seq<Repair>,
)
    requires
        repairs.len() <= queue.len(),
        count_of(repairs, Repair::Done) == repairs.len(),
    ensures
        repaired_size(items, queue, repairs) == size_of_items(
            items,
            queue.take(repairs.len() as int),
        ),
    decreases repairs.len(),
{
    if repairs.len() > 0 {
        let n = repairs.len() as int;
        lemma_count_bound(repairs.drop_last(), Repair::Done);
        lemma_all_repaired(items, queue, repairs.drop_last());
        assert(queue.take(n).drop_last() =~= queue.take(n - 1));
    }
}

proof fn lemma_counts_grow(repairs: Seq<Repair>, n: int, what: Repair)
    requires
        0 <= n <= repairs.len(),
    ensures
        count_of(repairs.take(n), what) <= count_of(repairs, what),
    decreases repairs.len(),
{
    if n < repairs.len() {
        assert(repairs.drop_last().take(n) =~= repairs.take(n));
        lemma_counts_grow(repairs.drop_last(), n, what);
    } else {
        assert(repairs.take(n) =~= repairs);
    }
}

proof fn lemma_all_pending(items: Seq<ResourceItemView>, queue: Seq<usize>, repairs: Seq<Repair>)
    requires
        forall|k: int| 0 <= k < repairs.len() ==> #[trigger] repairs[k] == Repair::Pending,
    ensures
        count_of(repairs, Repair::Done) == 0,
        count_of(repairs, Repair::Failed) == 0,
        repaired_size(items, queue, repairs) == 0,
    decreases repairs.len(),
{
    if repairs.len() > 0 {
        let rest = repairs.drop_last();
        assert forall|k: int| 0 <= k < rest.len() implies #[trigger] rest[k] == Repair::Pending by {
            assert(repairs[k] == Repair::Pending);
        }
        lemma_all_pending(items, queue, rest);
    }
}

fn damaged_positions(checks: &Vec<bool>) -> (r: Vec<usize>)
    ensures
        r@ == damaged(checks@, checks@.len() as int),
{
    let mut r: Vec<usize> = Vec::new();
    let mut i: usize = 0;
    while i < checks.len()
        invariant
            i <= checks@.len(),
            r@ == damaged(checks@, i as int),
        decreases checks@.len() - i,
    {
        if !checks[i] {
            r.push(i);
        }
        i = i + 1;
    }
    r
}

impl GameManager {
    /// Whether the bytes of the damaged files can be counted.
    pub fn sync_fits(items: &Vec<ResourceItem>, checks: &Vec<bool>) -> (r: bool)
        requires
            checks@.len() == items@.len(),
        ensures
            r == (size_of_items(items.deep_view(), damaged(checks@, checks@.len() as int))
                <= u64::MAX),
    {
        let queue = damaged_positions(checks);
        proof {
            assert(checks.len() <= usize::MAX);
            lemma_damaged(checks@, checks@.len() as int);
        }
        let mut sum: u64 = 0;
        let mut i: usize = 0;
        while i < queue.len()
            invariant
                i <= queue@.len(),
                queue@ == damaged(checks@, checks@.len() as int),
                forall|k: int| 0 <= k < queue@.len() ==> #[trigger] queue@[k] < items@.len(),
                sum == size_of_items(items.deep_view(), queue@.take(i as int)),
            decreases queue@.len() - i,
        {
            proof {
                assert(queue@.take(i + 1).drop_last() =~= queue@.take(i as int));
                assert(items.deep_view()[queue@[i as int] as int]
                    == items@[queue@[i as int] as int].deep_view());
            }
            let size: u64 = items[queue[i]].size;
            if size > u64::MAX - sum {
                proof {
                    lemma_sizes_grow(items.deep_view(), queue@, i + 1);
                }
                return false;
            }
            sum = sum + size;
            i = i + 1;
        }
        assert(queue@.take(queue@.len() as int) =~= queue@);
        true
    }

    /// Starts to repair the files of a manifest; `checks` says which of them were found sound.
    pub fn sync_inner_with_progress(
        &self,
        index: PatchIndex,
        cdn: &str,
        base: &str,
        checks: &Vec<bool>,
    ) -> (r: SyncRun)
        requires
            checks@.len() == index.resource@.len(),
            size_of_items(index.resource.deep_view(), damaged(checks@, checks@.len() as int))
                <= u64::MAX,
        ensures
            r.wf(),
            r.game_folder@ == self.game_folder@,
            r.cdn@ == cdn@,
            r.base_url@ == base@,
            r.items == index.resource,
            r.queue@ == damaged(checks@, checks@.len() as int),
            r.report.ok == sound_count(checks@, checks@.len() as int),
            r.report.checked == checks@.len(),
            r.report.ok + r.queue@.len() == checks@.len(),
            r.report.repaired == 0,
            r.report.repaired_bytes == 0,
            r.report.failed@.len() == 0,
            r.report.orphans_removed == 0,
            r.repairs@.len() == r.queue@.len(),
            forall|i: int|
                0 <= i < checks@.len() ==> (r.queue@.contains(i as usize) <==> !#[trigger] checks@[i]),
            forall|j: int, k: int|
                0 <= j < k < r.queue@.len() ==> #[trigger] r.queue@[j] < #[trigger] r.queue@[k],
            r.total == size_of_items(r.items.deep_view(), r.queue@),
            forall|k: int| 0 <= k < r.repairs@.len() ==> #[trigger] r.repairs@[k] == Repair::Pending,
    {
        let queue = damaged_positions(checks);
        proof {
            assert(checks.len() <= usize::MAX);
            lemma_damaged(checks@, checks@.len() as int);
            lemma_damaged_rises(checks@, checks@.len() as int);
            assert forall|i: int| 0 <= i < checks@.len() implies (queue@.contains(i as usize)
                <==> !#[trigger] checks@[i]) by {
                lemma_damaged_has(checks@, checks@.len() as int, i);
            }
        }
        let items = index.resource;
        let ghost all = items.deep_view();
        let mut repairs: Vec<Repair> = Vec::new();
        let mut total: u64 = 0;
        let mut i: usize = 0;
        while i < queue.len()
            invariant
                i <= queue@.len(),
                all == items.deep_view(),
                size_of_items(all, queue@) <= u64::MAX,
                forall|k: int| 0 <= k < queue@.len() ==> #[trigger] queue@[k] < items@.len(),
                total == size_of_items(all, queue@.take(i as int)),
                repairs@.len() == i,
                forall|k: int| 0 <= k < i ==> #[trigger] repairs@[k] == Repair::Pending,
            decreases queue@.len() - i,
        {
            proof {
                assert(queue@.take(i + 1).drop_last() =~= queue@.take(i as int));
                assert(all[queue@[i as int] as int] == items@[queue@[i as int] as int].deep_view());
                lemma_sizes_grow(all, queue@, i + 1);
            }
            total = total + items[queue[i]].size;
            repairs.push(Repair::Pending);
            i = i + 1;
        }
        assert(queue@.take(queue@.len() as int) =~= queue@);
        proof {
            lemma_all_pending(all, queue@, repairs@);
        }
        let checked: usize = checks.len();
        let report = SyncReport {
            checked,
            ok: checked - queue.len(),
            repaired: 0,
            repaired_bytes: 0,
            failed: Vec::new(),
            orphans_removed: 0,
        };
        SyncRun {
            game_folder: self.game_folder.clone(),
            cdn: cdn.to_owned(),
            base_url: base.to_owned(),
            items,
            queue,
            repairs,
            total,
            report,
        }
    }
}

proof fn lemma_sizes_grow(items: Seq<ResourceItemView>, queue: Seq<usize>, n: int)
    requires
        0 <= n <= queue.len(),
    ensures
        size_of_items(items, queue.take(n)) <= size_of_items(items, queue),
    decreases queue.len(),
{
    if n < queue.len() {
        assert(queue.drop_last().take(n) =~= queue.take(n));
        lemma_sizes_grow(items, queue.drop_last(), n);
    } else {
        assert(queue.take(n) =~= queue);
    }
}

}
