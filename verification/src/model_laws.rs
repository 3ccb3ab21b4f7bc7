//! What the models of the records hold, and that every question can be answered.

use vstd::prelude::*;

use crate::apply::{ApplyEventView, ApplyStage, ApplyTask};
use crate::checkout::{CheckoutEventView, CheckoutStage, CheckoutTask};
use crate::error::ErrorView;
use crate::manifest::FetchJob;
use crate::merge::{GroupOutcomeView, MergeEventView, MergeStage, MergeTask};
use crate::moves::SwapStep;
use crate::predownload::PredownloadRun;
use crate::sync::SyncRun;
use crate::types::{ChunkInfo, FileRef, GroupInfo, LocalConfig, PatchIndex, ResourceItem};

verus! {

/// The model of an entry holds what the entry does.
pub proof fn law_model_of_an_entry(item: ResourceItem, i: int)
    ensures
        item.deep_view().dest == item.dest@,
        item.deep_view().md5 == item.md5@,
        item.deep_view().size == item.size,
        item.from_folder is None <==> item.deep_view().from_folder is None,
        item.from_folder is Some ==> item.deep_view().from_folder->0 == item.from_folder->0@,
        item.deep_view().chunk_infos.len() == item.chunk_infos@.len(),
        0 <= i < item.chunk_infos@.len() ==> item.deep_view().chunk_infos[i]
            == item.chunk_infos@[i].deep_view(),
{
}

/// The model of a range and of a file of a group hold what they do.
pub proof fn law_model_of_a_file(chunk: ChunkInfo, file: FileRef)
    ensures
        chunk.deep_view().start == chunk.start,
        chunk.deep_view().end == chunk.end,
        chunk.deep_view().md5 == chunk.md5@,
        file.deep_view().dest == file.dest@,
        file.deep_view().md5 == file.md5@,
        file.deep_view().size == file.size,
        file.deep_view().chunk_infos.len() == file.chunk_infos@.len(),
{
}

/// The model of a group holds its name and its files.
pub proof fn law_model_of_a_group(group: GroupInfo, i: int)
    ensures
        group.deep_view().dest == group.dest@,
        group.deep_view().src_files.len() == group.src_files@.len(),
        group.deep_view().dst_files.len() == group.dst_files@.len(),
        0 <= i < group.src_files@.len() ==> group.deep_view().src_files[i]
            == group.src_files@[i].deep_view(),
        0 <= i < group.dst_files@.len() ==> group.deep_view().dst_files[i]
            == group.dst_files@[i].deep_view(),
{
}

/// The model of a manifest holds its entries, its groups and the files that go.
pub proof fn law_model_of_a_manifest(index: PatchIndex, i: int)
    ensures
        index.deep_view().resource.len() == index.resource@.len(),
        index.deep_view().group_infos.len() == index.group_infos@.len(),
        index.deep_view().delete_files.len() == index.delete_files@.len(),
        index.deep_view().apply_types.len() == index.apply_types@.len(),
        0 <= i < index.resource@.len() ==> index.deep_view().resource[i]
            == index.resource@[i].deep_view(),
        0 <= i < index.group_infos@.len() ==> index.deep_view().group_infos[i]
            == index.group_infos@[i].deep_view(),
        0 <= i < index.delete_files@.len() ==> index.deep_view().delete_files[i]
            == index.delete_files@[i]@,
        0 <= i < index.apply_types@.len() ==> index.deep_view().apply_types[i]
            == index.apply_types@[i]@,
{
}

/// The model of a configuration and of a file to fetch hold what they do.
pub proof fn law_model_of_a_job(config: LocalConfig, job: FetchJob)
    ensures
        config.deep_view().version == config.version@,
        config.deep_view().app_id == config.app_id@,
        config.deep_view().group == config.group@,
        job.deep_view().name == job.name@,
        job.deep_view().url == job.url@,
        job.deep_view().tmp == job.tmp@,
        job.deep_view().target == job.target@,
        job.deep_view().size == job.size,
        job.md5 is None <==> job.deep_view().md5 is None,
        job.md5 is Some ==> job.deep_view().md5->0 == job.md5->0@,
        job.deep_view().chunks.len() == job.chunks@.len(),
{
}

/// Every question of a merge can be answered, and what may fail may be said to have failed.
pub proof fn law_merge_takes_answers(
    task: MergeTask,
    i: usize,
    sizes: Seq<Option<u64>>,
    md5: Option<Seq<char>>,
    ok: bool,
    e: ErrorView,
)
    ensures
        task.answers(MergeStage::Start, MergeEventView::Begin),
        task.answers(MergeStage::Statting, MergeEventView::Sizes(sizes)),
        task.answers(MergeStage::HashingSource, MergeEventView::Hash(md5)),
        task.answers(MergeStage::Clearing, MergeEventView::Done),
        task.answers(MergeStage::Clearing, MergeEventView::Failed(e)),
        task.answers(MergeStage::Applying, MergeEventView::Applied(ok)),
        task.answers(MergeStage::Applying, MergeEventView::Failed(e)),
        task.answers(MergeStage::Checking(i), MergeEventView::Hash(md5)),
        task.answers(MergeStage::Staging(i), MergeEventView::Done),
        task.answers(MergeStage::Staging(i), MergeEventView::Failed(e)),
        task.answers(MergeStage::GivingUp, MergeEventView::Done),
        task.answers(MergeStage::Discarding, MergeEventView::Done),
        !task.answers(MergeStage::Ended, MergeEventView::Done),
        !task.answers(MergeStage::Start, MergeEventView::Done),
{
}

/// Every question of a switch can be answered, and what may fail may be said to have failed.
pub proof fn law_switch_takes_answers(task: CheckoutTask, i: usize, e: ErrorView)
    ensures
        task.answers(CheckoutStage::Start, CheckoutEventView::Begin),
        task.answers(CheckoutStage::Replacing(i), CheckoutEventView::Done),
        task.answers(CheckoutStage::Replacing(i), CheckoutEventView::Failed(e)),
        task.answers(CheckoutStage::Recording, CheckoutEventView::Done),
        task.answers(CheckoutStage::Recording, CheckoutEventView::Failed(e)),
        !task.answers(CheckoutStage::Start, CheckoutEventView::Done),
        !task.answers(CheckoutStage::Ended, CheckoutEventView::Done),
{
}

/// Every question of an update can be answered, and what may fail may be said to have failed.
pub proof fn law_update_takes_answers(
    task: ApplyTask,
    i: usize,
    there: bool,
    md5: Option<Seq<char>>,
    outcomes: Seq<GroupOutcomeView>,
    e: ErrorView,
)
    ensures
        task.answers(ApplyStage::Start, ApplyEventView::Begin),
        task.answers(ApplyStage::FindingStaging, ApplyEventView::Exists(there)),
        task.answers(ApplyStage::Merging, ApplyEventView::Merged(outcomes)) <==> outcomes.len()
            == task.index.group_infos.len(),
        task.answers(ApplyStage::Merging, ApplyEventView::Failed(e)),
        task.answers(ApplyStage::Fetching(i), ApplyEventView::Done),
        task.answers(ApplyStage::Fetching(i), ApplyEventView::Failed(e)),
        task.answers(ApplyStage::CheckingFull(i), ApplyEventView::Digest(md5)),
        task.answers(ApplyStage::CheckingOutput(i), ApplyEventView::Digest(md5)),
        task.answers(ApplyStage::CheckingFile(i), ApplyEventView::Digest(md5)),
        task.answers(ApplyStage::CheckingFile(i), ApplyEventView::Failed(e)),
        task.answers(ApplyStage::Preparing, ApplyEventView::Done),
        task.answers(ApplyStage::Preparing, ApplyEventView::Failed(e)),
        task.answers(ApplyStage::StagingRecord, ApplyEventView::Done),
        task.answers(ApplyStage::StagingRecord, ApplyEventView::Failed(e)),
        task.answers(ApplyStage::FindingLeftover, ApplyEventView::Exists(there)),
        task.answers(ApplyStage::ShelvingLeftover, ApplyEventView::Done),
        task.answers(ApplyStage::ShelvingLeftover, ApplyEventView::Failed(e)),
        task.answers(
            ApplyStage::Swapping(i, SwapStep::FindTarget),
            ApplyEventView::Exists(there),
        ),
        task.answers(ApplyStage::Swapping(i, SwapStep::MoveTarget), ApplyEventView::Done),
        task.answers(ApplyStage::Swapping(i, SwapStep::MoveTarget), ApplyEventView::Failed(e)),
        task.answers(ApplyStage::FindingObsolete(i), ApplyEventView::Exists(there)),
        task.answers(ApplyStage::Deleting(i), ApplyEventView::Done),
        task.answers(ApplyStage::Deleting(i), ApplyEventView::Failed(e)),
        task.answers(ApplyStage::Recording(SwapStep::FindTarget), ApplyEventView::Exists(there)),
        task.answers(ApplyStage::Recording(SwapStep::MoveTarget), ApplyEventView::Done),
        task.answers(ApplyStage::Retiring, ApplyEventView::Done),
        task.answers(ApplyStage::Retiring, ApplyEventView::Failed(e)),
        task.answers(ApplyStage::Discarding, ApplyEventView::Done),
        task.answers(ApplyStage::Discarding, ApplyEventView::Failed(e)),
        task.answers(ApplyStage::Undoing(i), ApplyEventView::Done),
        !task.answers(ApplyStage::Ended, ApplyEventView::Done),
{
}

/// Two courses that are said to be of one task share what it works on.
pub proof fn law_courses_of_one_task(a: SyncRun, b: SyncRun, p: PredownloadRun, q: PredownloadRun)
    ensures
        a.same_task(&b) ==> a.game_folder == b.game_folder && a.cdn == b.cdn && a.base_url
            == b.base_url && a.items == b.items && a.queue == b.queue && a.total == b.total,
        p.same_task(&q) ==> p.game_folder == q.game_folder && p.cdn == q.cdn && p.base_url
            == q.base_url && p.plan == q.plan && p.resource == q.resource,
        p.queue() == p.plan.patch_groups.deep_view() + p.plan.full_files.deep_view(),
        p.done() == p.done_patches + p.done_files,
{
}

}
