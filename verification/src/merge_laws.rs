//! What the merge of a group asks for, and when it stages a result.

use vstd::prelude::*;

use crate::error::ErrorView;
use crate::merge::{GroupOutcomeView, MergeActionView, MergeEventView, MergeStage, MergeTask};
use crate::paths;
use crate::text;
use crate::text_laws;

verus! {

/// A merge first looks at each file that the group produces, inside the game folder.
pub proof fn law_merge_looks_at_all_targets(task: MergeTask, missing: Seq<usize>, i: int)
    requires
        0 <= i < task.group.dst_files.len(),
    ensures
        ({
            let asked = task.next(MergeStage::Start, missing, MergeEventView::Begin).2;
            &&& asked is Stat
            &&& asked->Stat_0.len() == task.group.dst_files.len()
            &&& asked->Stat_0[i] == paths::inside(task.game_folder, task.group.dst_files[i].dest)
        }),
{
}

/// A group is skipped exactly where it produces something and all of it is there at its size. One
/// that is not skipped and reads nothing is fetched whole; of one that reads something the first
/// source is hashed.
pub proof fn law_merge_skips_what_is_applied(
    task: MergeTask,
    missing: Seq<usize>,
    sizes: Seq<Option<u64>>,
)
    requires
        sizes.len() == task.group.dst_files.len(),
    ensures
        ({
            let asked = task.next(MergeStage::Statting, missing, MergeEventView::Sizes(sizes)).2;
            let applied = sizes.len() > 0 && forall|i: int|
                0 <= i < sizes.len() ==> (#[trigger] sizes[i]) is Some && sizes[i]->0
                    == task.group.dst_files[i].size;
            &&& applied <==> asked == MergeActionView::Finish(GroupOutcomeView::Skipped)
            &&& !applied && task.group.src_files.len() == 0 ==> asked == MergeActionView::Finish(
                GroupOutcomeView::Fallback(task.group.dst_files),
            )
            &&& !applied && task.group.src_files.len() > 0 ==> asked == MergeActionView::Hash(
                paths::inside(task.game_folder, task.group.src_files[0].dest),
            )
        }),
{
    let applied = sizes.len() > 0 && forall|i: int|
        0 <= i < sizes.len() ==> (#[trigger] sizes[i]) is Some && sizes[i]->0
            == task.group.dst_files[i].size;
    if applied {
        assert forall|i: int| 0 <= i < task.group.dst_files.len() implies #[trigger] sizes[i]
            == Some(task.group.dst_files[i].size) by {}
    }
}

/// A patch is tried exactly where the first source could be read and has the digest of the old file
/// or of one of the new ones; otherwise all files of the group are fetched whole.
pub proof fn law_patch_is_tried_on_a_known_source(
    task: MergeTask,
    missing: Seq<usize>,
    md5: Option<Seq<char>>,
)
    requires
        task.group.src_files.len() > 0,
    ensures
        ({
            let asked = task.next(MergeStage::HashingSource, missing, MergeEventView::Hash(md5)).2;
            let known = md5 is Some && (md5->0 == task.group.src_files[0].md5 || exists|i: int|
                0 <= i < task.group.dst_files.len() && (#[trigger] task.group.dst_files[i]).md5
                    == md5->0);
            &&& known ==> asked == MergeActionView::Clear(task.out_dir())
            &&& !known ==> asked == MergeActionView::Finish(
                GroupOutcomeView::Fallback(task.group.dst_files),
            )
        }),
{
}

/// The patch of a group is the staged file with its name; it is applied to the game folder, and the
/// results come into the folder of the group.
pub proof fn law_patch_is_applied_to_the_game(task: MergeTask, missing: Seq<usize>)
    ensures
        task.next(MergeStage::Clearing, missing, MergeEventView::Done).2 == (
        MergeActionView::Apply {
            source: task.game_folder,
            patch: paths::joined(task.staging, task.group.dest),
            out: task.out_dir(),
        }),
        task.out_dir() == paths::joined(
            paths::joined(task.staging, ".apply_tmp"@),
            "group_"@ + text::decimal(task.idx),
        ),
{
}

/// Two groups do not share the folder for their results.
pub proof fn law_groups_have_their_own_folders(a: MergeTask, b: MergeTask)
    requires
        a.staging == b.staging,
        a.idx != b.idx,
    ensures
        a.out_dir() != b.out_dir(),
{
    let front = paths::joined(a.staging, ".apply_tmp"@);
    let x = "group_"@ + text::decimal(a.idx);
    let y = "group_"@ + text::decimal(b.idx);
    reveal_strlit("group_");
    reveal_strlit(".apply_tmp");
    reveal_strlit("/");
    text_laws::law_numeral_reads_back(a.idx);
    text_laws::law_numeral_reads_back(b.idx);
    assert(text::decimal(a.idx) != text::decimal(b.idx));
    assert(x.skip(6) =~= text::decimal(a.idx));
    assert(y.skip(6) =~= text::decimal(b.idx));
    assert(x != y);
    assert(x[0] == 'g' && y[0] == 'g');
    assert(front.last() == 'p');
    let n = front.len() as int + 1;
    assert(paths::joined(front, x).skip(n) =~= x);
    assert(paths::joined(front, y).skip(n) =~= y);
}

/// Where the patch could not be applied, the results are thrown away and all files of the group are
/// fetched whole.
pub proof fn law_failed_patch_falls_back(task: MergeTask, missing: Seq<usize>)
    ensures
        ({
            let (stage, kept, asked) = task.next(
                MergeStage::Applying,
                missing,
                MergeEventView::Applied(false),
            );
            &&& asked == MergeActionView::Discard(task.out_dir())
            &&& task.next(stage, kept, MergeEventView::Done).2 == MergeActionView::Finish(
                GroupOutcomeView::Fallback(task.group.dst_files),
            )
        }),
{
}

/// A result is staged under its own name exactly where it could be read and has the digest that is
/// expected of it; otherwise it is noted as missing, and the merge goes on.
pub proof fn law_only_good_results_are_staged(
    task: MergeTask,
    missing: Seq<usize>,
    i: usize,
    md5: Option<Seq<char>>,
)
    requires
        i < task.group.dst_files.len(),
    ensures
        ({
            let file = task.group.dst_files[i as int];
            let (stage, kept, asked) = task.next(
                MergeStage::Checking(i),
                missing,
                MergeEventView::Hash(md5),
            );
            let good = md5 is Some && md5->0 == file.md5;
            &&& asked is Stage <==> good
            &&& good ==> kept == missing && stage == MergeStage::Staging(i) && asked == (
            MergeActionView::Stage {
                from: paths::inside(task.out_dir(), file.dest),
                to: paths::inside(task.staging, file.dest),
            })
            &&& !good ==> kept.len() == missing.len() + 1 && kept.last() == i && kept.drop_last()
                == missing
        }),
{
    assert(missing.push(i).drop_last() =~= missing);
}

/// Every result is looked at, one after the other, and then the folder of the results goes.
pub proof fn law_every_result_is_checked(task: MergeTask, missing: Seq<usize>, i: usize)
    requires
        i < task.group.dst_files.len() <= usize::MAX,
    ensures
        ({
            let (stage, kept, asked) = task.next(
                MergeStage::Applying,
                missing,
                MergeEventView::Applied(true),
            );
            stage == MergeStage::Checking(0) && kept == missing && asked == MergeActionView::Hash(
                paths::inside(task.out_dir(), task.group.dst_files[0].dest),
            )
        }),
        ({
            let (stage, kept, asked) = task.next(
                MergeStage::Staging(i),
                missing,
                MergeEventView::Done,
            );
            &&& kept == missing
            &&& i + 1 < task.group.dst_files.len() ==> stage == MergeStage::Checking(
                (i + 1) as usize,
            ) && asked == MergeActionView::Hash(
                paths::inside(task.out_dir(), task.group.dst_files[i + 1].dest),
            )
            &&& i + 1 == task.group.dst_files.len() ==> stage == MergeStage::Discarding && asked
                == MergeActionView::Discard(task.out_dir())
        }),
        forall|md5: Option<Seq<char>>|
            md5 != Some(task.group.dst_files[i as int].md5) ==> {
                let after = #[trigger] task.next(
                    MergeStage::Checking(i),
                    missing,
                    MergeEventView::Hash(md5),
                );
                let staged = task.next(MergeStage::Staging(i), missing, MergeEventView::Done);
                after.0 == staged.0 && after.2 == staged.2
            },
{
}

/// A group whose results were all good is merged; otherwise exactly the files whose results were not
/// good are fetched whole.
pub proof fn law_missing_results_are_fetched(task: MergeTask, missing: Seq<usize>, k: int)
    ensures
        ({
            let asked = task.next(MergeStage::Discarding, missing, MergeEventView::Done).2;
            &&& missing.len() == 0 ==> asked == MergeActionView::Finish(GroupOutcomeView::Merged)
            &&& missing.len() > 0 ==> {
                &&& asked is Finish
                &&& asked->Finish_0 is Fallback
                &&& asked->Finish_0->Fallback_0.len() == missing.len()
                &&& 0 <= k < missing.len() ==> asked->Finish_0->Fallback_0[k]
                    == task.group.dst_files[missing[k] as int]
            }
        }),
{
}

/// A failure ends the merge and is reported as it is.
pub proof fn law_failure_ends_the_merge(
    task: MergeTask,
    stage: MergeStage,
    missing: Seq<usize>,
    e: ErrorView,
)
    ensures
        task.next(stage, missing, MergeEventView::Failed(e)).0 == MergeStage::Ended,
        task.next(stage, missing, MergeEventView::Failed(e)).2 == MergeActionView::Fail(e),
{
}

}
