//! What each step of an update asks for, and what its lists and its report hold.

use vstd::prelude::*;

use crate::apply;
use crate::apply::{ApplyActionView, ApplyEventView, ApplyStage, ApplyState, ApplyTask};
use crate::channel_laws;
use crate::error::ErrorView;
use crate::manifest;
use crate::merge::GroupOutcomeView;
use crate::moves::{MoveView, SwapStep};
use crate::order;
use crate::paths;
use crate::plan_laws;
use crate::state;
use crate::types::{FileRefView, GroupInfoView, ResourceItemView};

verus! {

/// The report counts as merged, as applied before and as fetched whole those groups that came out so.
pub proof fn law_outcomes_are_counted(outcomes: Seq<GroupOutcomeView>)
    ensures
        apply::merged_count(outcomes) == outcomes.filter(|o: GroupOutcomeView| o is Merged).len(),
        apply::skipped_count(outcomes) == outcomes.filter(|o: GroupOutcomeView| o is Skipped).len(),
        apply::fallback_count(outcomes) == outcomes.filter(
            |o: GroupOutcomeView| o is Fallback,
        ).len(),
    decreases outcomes.len(),
{
    reveal(Seq::filter);
    if outcomes.len() > 0 {
        law_outcomes_are_counted(outcomes.drop_last());
    }
}

/// The files to fetch whole are those of the groups that came out so, one group after the other.
pub proof fn law_files_of_failed_groups(a: Seq<GroupOutcomeView>, o: GroupOutcomeView)
    ensures
        apply::whole_files(Seq::empty()).len() == 0,
        o is Merged ==> apply::whole_files(a.push(o)) == apply::whole_files(a),
        o is Skipped ==> apply::whole_files(a.push(o)) == apply::whole_files(a),
        o is Fallback ==> apply::whole_files(a.push(o)) == apply::whole_files(a) + o->Fallback_0,
{
    assert(a.push(o).drop_last() =~= a);
}

/// Of several files for one path the first is fetched: each that has none before it is, and no other.
pub proof fn law_first_file_of_a_path_is_fetched(files: Seq<FileRefView>, i: int)
    requires
        0 <= i < files.len(),
    ensures
        (forall|j: int| 0 <= j < i ==> (#[trigger] files[j]).dest != files[i].dest)
            ==> apply::first_of_each(files).contains(files[i]),
        apply::first_of_each(files).len() <= files.len(),
        forall|k: int|
            0 <= k < apply::first_of_each(files).len() ==> exists|m: int|
                0 <= m < files.len() && #[trigger] files[m] == (#[trigger] apply::first_of_each(
                    files,
                )[k]) && forall|j: int| 0 <= j < m ==> (#[trigger] files[j]).dest != files[m].dest,
    decreases files.len(),
{
    let rest = files.drop_last();
    let last = files.last();
    let before = apply::first_of_each(rest);
    let now = apply::first_of_each(files);
    if rest.len() > 0 {
        law_first_file_of_a_path_is_fetched(rest, if i < rest.len() { i } else { 0 });
    }
    let fresh = forall|j: int| 0 <= j < i ==> (#[trigger] files[j]).dest != files[i].dest;
    if fresh {
        if i < rest.len() {
            assert(rest[i] == files[i]);
            assert forall|j: int| 0 <= j < i implies (#[trigger] rest[j]).dest != rest[i].dest by {
                assert(rest[j] == files[j]);
            }
            let k = choose|k: int| 0 <= k < before.len() && before[k] == files[i];
            assert(now[k] == files[i]);
        } else {
            if apply::names(rest, last.dest) {
                let m = choose|m: int| 0 <= m < rest.len() && (#[trigger] rest[m]).dest == last.dest;
                assert(files[m].dest == last.dest);
            }
            assert(now[before.len() as int] == files[i]);
        }
    }
    assert forall|k: int| 0 <= k < now.len() implies exists|m: int|
        0 <= m < files.len() && #[trigger] files[m] == (#[trigger] now[k]) && forall|j: int|
            0 <= j < m ==> (#[trigger] files[j]).dest != files[m].dest by {
        if k < before.len() {
            assert(now[k] == before[k]);
            let m = choose|m: int|
                0 <= m < rest.len() && #[trigger] rest[m] == before[k] && forall|j: int|
                    0 <= j < m ==> (#[trigger] rest[j]).dest != rest[m].dest;
            assert(files[m] == now[k]);
            assert forall|j: int| 0 <= j < m implies (#[trigger] files[j]).dest
                != files[m].dest by {
                assert(rest[j] == files[j]);
            }
        } else {
            let m = files.len() - 1;
            assert(files[m] == now[k]);
            assert forall|j: int| 0 <= j < m implies (#[trigger] files[j]).dest
                != files[m].dest by {
                assert(rest[j].dest == files[j].dest);
            }
        }
    }
}

/// What each group contributes to the results: nothing where it was applied before, else all that it
/// produces.
pub open spec fn contributions(groups: Seq<GroupInfoView>, skipped: Seq<bool>) -> Seq<
    Seq<FileRefView>,
> {
    Seq::new(
        groups.len(),
        |g: int|
            if skipped[g] {
                Seq::empty()
            } else {
                groups[g].dst_files
            },
    )
}

/// The results of an update are what its groups contribute, one group after the other.
pub proof fn law_results_are_what_groups_produce(groups: Seq<GroupInfoView>, skipped: Seq<bool>)
    ensures
        apply::results(groups, skipped) == contributions(groups, skipped).flatten(),
    decreases groups.len(),
{
    let all = contributions(groups, skipped);
    if groups.len() == 0 {
        assert(all.flatten() =~= Seq::empty());
    } else {
        let rest = groups.drop_last();
        law_results_are_what_groups_produce(rest, skipped);
        let last = all.last();
        assert(all =~= contributions(rest, skipped).push(last));
        contributions(rest, skipped).lemma_flatten_push(last);
        if skipped[groups.len() - 1] {
            assert(contributions(rest, skipped).flatten() + last =~= contributions(
                rest,
                skipped,
            ).flatten());
        }
    }
}

/// A group counts as applied before exactly where the outcome at its place in the order says so.
pub proof fn law_skipped_groups_are_noted(
    task: ApplyTask,
    outcomes: Seq<GroupOutcomeView>,
    i: int,
)
    requires
        exists|o: Seq<usize>| order::is_merge_order(task.index.group_infos, o),
        outcomes.len() == task.index.group_infos.len(),
        0 <= i < outcomes.len(),
    ensures
        task.skipped(outcomes).len() == outcomes.len(),
        task.skipped(outcomes)[task.merge_order()[i] as int] <==> outcomes[i] is Skipped,
{
    let o = task.merge_order();
    assert(order::is_merge_order(task.index.group_infos, o));
    assert(o[i] < outcomes.len());
    let g = o[i] as int;
    if outcomes[i] is Skipped {
        assert(apply::was_skipped(o, outcomes, g));
    }
    if apply::was_skipped(o, outcomes, g) {
        let k = choose|k: int| 0 <= k < o.len() && #[trigger] o[k] == g && outcomes[k] is Skipped;
        if k < i {
            assert(order::comes_before(task.index.group_infos, o[k], o[i]));
        }
        if i < k {
            assert(order::comes_before(task.index.group_infos, o[i], o[k]));
        }
    }
}

/// A staged file is good exactly where it is there and has the digest of the manifest, where that
/// gives one.
pub proof fn law_staged_file_is_judged(found: Option<Seq<char>>, md5: Seq<char>)
    ensures
        found is None ==> !apply::is_good(found, md5),
        found is Some && md5.len() > 0 && found->0 != md5 ==> !apply::is_good(found, md5),
        found is Some && md5.len() == 0 ==> apply::is_good(found, md5),
        found is Some && found->0 == md5 ==> apply::is_good(found, md5),
{
}

/// A result may come as a full file exactly where the manifest lists it and it is no patch.
pub proof fn law_full_results_are_listed(list: Seq<ResourceItemView>, dest: Seq<char>)
    ensures
        apply::is_complete(list, dest) <==> !manifest::is_patch(dest) && channel_laws::lists(
            list,
            dest,
        ),
{
    plan_laws::law_last_entry_counts(list, dest);
}

/// An entry is swapped in by itself exactly where it is no patch, no later entry has its path, and no
/// group that was merged produces that path.
pub proof fn law_loose_files(task: ApplyTask, skipped: Seq<bool>, i: int)
    requires
        0 <= i < task.index.resource.len(),
    ensures
        ({
            let list = task.index.resource;
            task.is_loose(skipped, i) <==> {
                &&& !manifest::is_patch(list[i].dest)
                &&& forall|j: int| i < j < list.len() ==> (#[trigger] list[j]).dest != list[i].dest
                &&& forall|j: int|
                    0 <= j < task.results(skipped).len() ==> (#[trigger] task.results(
                        skipped,
                    )[j]).dest != list[i].dest
            }
        }),
{
    let list = task.index.resource;
    let dest = list[i].dest;
    lemma_last_position(list, dest, i);
}

proof fn lemma_last_position(list: Seq<ResourceItemView>, dest: Seq<char>, i: int)
    requires
        0 <= i < list.len(),
        list[i].dest == dest,
    ensures
        manifest::entry_at(list, dest) == Some(i) <==> forall|j: int|
            i < j < list.len() ==> (#[trigger] list[j]).dest != dest,
    decreases list.len(),
{
    let rest = list.drop_last();
    if i < rest.len() {
        assert(rest[i].dest == dest);
        lemma_last_position(rest, dest, i);
        manifest::lemma_entry_at(rest, dest);
        if list.last().dest == dest {
            assert(list[list.len() - 1].dest == dest);
        } else {
            if forall|j: int| i < j < rest.len() ==> (#[trigger] rest[j]).dest != dest {
                assert forall|j: int| i < j < list.len() implies (#[trigger] list[j]).dest
                    != dest by {
                    if j < rest.len() {
                        assert(rest[j].dest != dest);
                    }
                }
            }
            if forall|j: int| i < j < list.len() ==> (#[trigger] list[j]).dest != dest {
                assert forall|j: int| i < j < rest.len() implies (#[trigger] rest[j]).dest
                    != dest by {
                    assert(list[j].dest != dest);
                }
            }
        }
    }
}

/// An update first looks for its staging folder. Without one it fails; with one it merges the groups,
/// in an order in which the larger come first.
pub proof fn law_update_needs_its_staging(task: ApplyTask, s: ApplyState)
    requires
        s.stage == ApplyStage::FindingStaging,
    ensures
        task.next(task.start(), ApplyEventView::Begin).1 == ApplyActionView::Probe(
            state::staging(task.game_folder),
        ),
        task.next(task.start(), ApplyEventView::Begin).0.stage == ApplyStage::FindingStaging,
        task.next(s, ApplyEventView::Exists(false)).1 == ApplyActionView::Fail(
            ErrorView::MissingField(".incremental_download — run predownload first"@),
        ),
        task.next(s, ApplyEventView::Exists(true)).1 is Merge,
        (exists|o: Seq<usize>| order::is_merge_order(task.index.group_infos, o))
            ==> order::is_merge_order(
            task.index.group_infos,
            task.next(s, ApplyEventView::Exists(true)).1->Merge_0,
        ),
{
    reveal(ApplyTask::next);
}

/// The files to fetch whole are fetched one after the other.
pub proof fn law_files_are_fetched_in_order(task: ApplyTask, s: ApplyState, i: usize)
    requires
        s.stage == ApplyStage::Fetching(i),
        i + 1 < s.fallbacks.len() <= usize::MAX,
    ensures
        task.next(s, ApplyEventView::Done).1 == ApplyActionView::Fetch(
            apply::fallback_job(task, s.fallbacks[i + 1]),
        ),
        task.next(s, ApplyEventView::Done).0.stage == ApplyStage::Fetching((i + 1) as usize),
{
    reveal(ApplyTask::next);
}

/// After the merges the report holds how the groups came out, and the files of the failed ones are
/// fetched, each path once.
pub proof fn law_merges_are_taken_up(task: ApplyTask, s: ApplyState, outcomes: Seq<GroupOutcomeView>)
    requires
        s.stage == ApplyStage::Merging,
    ensures
        ({
            let (now, asked) = task.next(s, ApplyEventView::Merged(outcomes));
            &&& now.report.merged == outcomes.filter(|o: GroupOutcomeView| o is Merged).len()
            &&& now.report.skipped == outcomes.filter(|o: GroupOutcomeView| o is Skipped).len()
            &&& now.report.fallback == outcomes.filter(|o: GroupOutcomeView| o is Fallback).len()
            &&& now.report.swapped == s.report.swapped
            &&& now.report.deleted == s.report.deleted
            &&& now.fallbacks == apply::first_of_each(apply::whole_files(outcomes))
            &&& now.skipped == task.skipped(outcomes)
            &&& now.fallbacks.len() > 0 ==> asked == ApplyActionView::Fetch(
                apply::fallback_job(task, now.fallbacks[0]),
            )
        }),
{
    reveal(ApplyTask::next);
    law_outcomes_are_counted(outcomes);
}

/// A result that was hashed as its group staged it is swapped in where it is good. The update fails
/// where it has another digest, and where it is not there.
pub proof fn law_bad_output_fails_the_update(
    task: ApplyTask,
    s: ApplyState,
    j: usize,
    found: Option<Seq<char>>,
)
    requires
        s.stage == ApplyStage::CheckingOutput(j),
        j < task.results(s.skipped).len(),
    ensures
        ({
            let file = task.results(s.skipped)[j as int];
            let path = state::staged_output(task.game_folder, file.dest);
            let (now, asked) = task.next(s, ApplyEventView::Digest(found));
            &&& found is None ==> asked == ApplyActionView::Fail(
                ErrorView::Patch(
                    "staged output missing for "@ + file.dest + " — rerun predownload/apply"@,
                ),
            )
            &&& found is Some && file.md5.len() > 0 && found->0 != file.md5 ==> asked
                == ApplyActionView::Fail(
                ErrorView::ChecksumMismatch { path, expected: file.md5, actual: found->0 },
            )
            &&& found is Some && (file.md5.len() == 0 || found->0 == file.md5) ==> !(asked is Fail)
                && now.swaps.len() == s.swaps.len() + 1 && now.swaps.last().staged == path
                && now.swaps.last().target == paths::inside(task.game_folder, file.dest)
        }),
{
    reveal(ApplyTask::next);
}

/// A result that was hashed as it was fetched whole is swapped in from there where it is good;
/// otherwise what its group staged is looked at.
pub proof fn law_full_result_comes_first(
    task: ApplyTask,
    s: ApplyState,
    j: usize,
    found: Option<Seq<char>>,
)
    requires
        s.stage == ApplyStage::CheckingFull(j),
        j < task.results(s.skipped).len(),
    ensures
        ({
            let file = task.results(s.skipped)[j as int];
            let (now, asked) = task.next(s, ApplyEventView::Digest(found));
            let good = found is Some && (file.md5.len() == 0 || found->0 == file.md5);
            &&& good ==> now.swaps.len() == s.swaps.len() + 1 && now.swaps.last().staged
                == state::staged_resource(task.game_folder, file.dest) && now.swaps.last().target
                == paths::inside(task.game_folder, file.dest)
            &&& !good ==> now.swaps == s.swaps && asked == ApplyActionView::Digest(
                state::staged_output(task.game_folder, file.dest),
            )
        }),
{
    reveal(ApplyTask::next);
}

/// A full file that no group produces is swapped in where it is staged and good, and left out where it
/// is not staged; where it has another digest the update fails.
pub proof fn law_staged_full_file_is_swapped_in(
    task: ApplyTask,
    s: ApplyState,
    k: usize,
    found: Option<Seq<char>>,
)
    requires
        s.stage == ApplyStage::CheckingFile(k),
        k < task.index.resource.len(),
    ensures
        ({
            let item = task.index.resource[k as int];
            let path = state::staged_resource(task.game_folder, item.dest);
            let (now, asked) = task.next(s, ApplyEventView::Digest(found));
            &&& found is None ==> now.swaps == s.swaps && !(asked is Fail)
            &&& found is Some && item.md5.len() > 0 && found->0 != item.md5 ==> asked
                == ApplyActionView::Fail(
                ErrorView::ChecksumMismatch { path, expected: item.md5, actual: found->0 },
            )
            &&& found is Some && (item.md5.len() == 0 || found->0 == item.md5) ==> now.swaps.len()
                == s.swaps.len() + 1 && now.swaps.last().staged == path && now.swaps.last().target
                == paths::inside(task.game_folder, item.dest)
        }),
{
    reveal(ApplyTask::next);
}

/// The version and the app id of the update, in the group `default`, are written into the staging
/// folder before anything of the game changes, and recorded once all files are in place.
pub proof fn law_version_is_staged(task: ApplyTask, s: ApplyState)
    requires
        s.stage == ApplyStage::Preparing,
    ensures
        ({
            let asked = task.next(s, ApplyEventView::Done).1;
            &&& asked is StageRecord
            &&& asked->config.version == task.to_version
            &&& asked->config.app_id == task.app_id
            &&& asked->config.group == "default"@
            &&& asked->path == state::staged_config(task.game_folder)
        }),
        task.record().staged == state::staged_config(task.game_folder),
        task.record().target == state::config_file(task.game_folder),
{
    reveal(ApplyTask::next);
}

/// An obsolete file that is there is moved aside, where it is a file, and named in the report; one
/// that is not there is passed over.
pub proof fn law_obsolete_file_is_removed(task: ApplyTask, s: ApplyState, i: usize)
    requires
        i < task.index.delete_files.len() <= usize::MAX,
    ensures
        s.stage == ApplyStage::FindingObsolete(i) ==> {
            let file = paths::inside(task.game_folder, task.index.delete_files[i as int]);
            let (now, asked) = task.next(s, ApplyEventView::Exists(true));
            &&& now.stage == ApplyStage::Deleting(i)
            &&& asked is Rename
            &&& asked->only_file
            &&& asked->step.from == file
            &&& asked->step.to == state::slot(task.game_folder, s.log.len())
        },
        s.stage == ApplyStage::FindingObsolete(i) ==> {
            let (now, asked) = task.next(s, ApplyEventView::Exists(false));
            &&& now.report == s.report
            &&& i + 1 < task.index.delete_files.len() ==> asked == ApplyActionView::Probe(
                paths::inside(task.game_folder, task.index.delete_files[i + 1]),
            )
        },
        s.stage == ApplyStage::Deleting(i) ==> {
            let (now, asked) = task.next(s, ApplyEventView::Done);
            &&& now.report.deleted == s.report.deleted.push(task.index.delete_files[i as int])
            &&& now.report.swapped == s.report.swapped
            &&& now.log.len() == s.log.len() + 1
            &&& i + 1 < task.index.delete_files.len() ==> asked == ApplyActionView::Probe(
                paths::inside(task.game_folder, task.index.delete_files[i + 1]),
            )
        },
{
    reveal(ApplyTask::next);
}

/// Once the version is recorded, the staging folder is moved away, then removed, then the update ends
/// with its report, whether or not it could be removed.
pub proof fn law_update_ends(task: ApplyTask, s: ApplyState, e: ErrorView)
    ensures
        s.stage == ApplyStage::Retiring ==> task.next(s, ApplyEventView::Done).1
            == ApplyActionView::Discard(state::discarded(task.game_folder)),
        s.stage == ApplyStage::Discarding ==> task.next(s, ApplyEventView::Done).1
            == ApplyActionView::Finish(s.report),
        s.stage == ApplyStage::Discarding ==> task.next(s, ApplyEventView::Failed(e)).1
            == ApplyActionView::Finish(s.report),
        task.start().report.merged == 0,
        task.start().report.skipped == 0,
        task.start().report.fallback == 0,
        task.start().report.swapped == 0,
        task.start().report.deleted.len() == 0,
{
    reveal(ApplyTask::next);
}

/// A move that fails has the moves before it taken back, the last one first; then the update fails
/// with the reason of the move that failed.
pub proof fn law_moves_are_taken_back(task: ApplyTask, s: ApplyState, e: ErrorView, k: usize)
    requires
        s.log.len() <= usize::MAX,
    ensures
        s.stage is Deleting && s.log.len() > 0 ==> task.next(s, ApplyEventView::Failed(e)).1
            == ApplyActionView::Undo(s.log[s.log.len() - 1]) && task.next(
            s,
            ApplyEventView::Failed(e),
        ).0.failure == Some(e),
        s.stage is Retiring && s.log.len() > 0 ==> task.next(s, ApplyEventView::Failed(e)).1
            == ApplyActionView::Undo(s.log[s.log.len() - 1]) && task.next(
            s,
            ApplyEventView::Failed(e),
        ).0.failure == Some(e),
        s.stage == ApplyStage::Undoing(k) && 0 < k < s.log.len() ==> task.next(
            s,
            ApplyEventView::Done,
        ).1 == ApplyActionView::Undo(s.log[k - 1]),
        s.stage == ApplyStage::Undoing(0) && s.failure is Some ==> task.next(
            s,
            ApplyEventView::Done,
        ).1 == ApplyActionView::Fail(s.failure->0),
{
    reveal(ApplyTask::next);
}

/// After the version is staged an old staging folder is looked for; where there is one it is kept aside,
/// and then the files are swapped in.
pub proof fn law_leftover_is_kept(task: ApplyTask, s: ApplyState)
    ensures
        s.stage == ApplyStage::StagingRecord ==> task.next(s, ApplyEventView::Done).1
            == ApplyActionView::Probe(state::discarded(task.game_folder)) && task.next(
            s,
            ApplyEventView::Done,
        ).0.stage == ApplyStage::FindingLeftover,
        s.stage == ApplyStage::FindingLeftover ==> task.next(s, ApplyEventView::Exists(true)).1 == (
        ApplyActionView::Rename {
            step: MoveView {
                from: state::discarded(task.game_folder),
                to: state::slot(task.game_folder, s.log.len()),
            },
            only_file: false,
        }),
        s.stage == ApplyStage::FindingLeftover && s.swaps.len() > 0 ==> task.next(
            s,
            ApplyEventView::Exists(false),
        ).1 == ApplyActionView::Probe(s.swaps[0].target),
        s.stage == ApplyStage::ShelvingLeftover && s.swaps.len() > 0 ==> task.next(
            s,
            ApplyEventView::Done,
        ).1 == ApplyActionView::Probe(s.swaps[0].target),
        s.stage == ApplyStage::ShelvingLeftover ==> task.next(s, ApplyEventView::Done).0.log.len()
            == s.log.len() + 1,
{
    reveal(ApplyTask::next);
}

/// A file is swapped in step by step; each move is noted, and each file is counted once.
pub proof fn law_files_are_swapped_in_order(task: ApplyTask, s: ApplyState, i: usize, there: bool)
    requires
        i < s.swaps.len() <= usize::MAX,
    ensures
        s.stage == ApplyStage::Swapping(i, SwapStep::FindTarget) ==> task.next(
            s,
            ApplyEventView::Exists(there),
        ).1 == ApplyActionView::Probe(s.swaps[i as int].target + ".bak"@),
        s.stage == ApplyStage::Swapping(i, SwapStep::FindBackup(false)) ==> task.next(
            s,
            ApplyEventView::Exists(there),
        ).1 == (ApplyActionView::Rename {
            step: MoveView { from: s.swaps[i as int].staged, to: s.swaps[i as int].target },
            only_file: false,
        }),
        s.stage == ApplyStage::Swapping(i, SwapStep::FindBackup(true)) ==> task.next(
            s,
            ApplyEventView::Exists(false),
        ).1 == (ApplyActionView::Rename {
            step: MoveView {
                from: s.swaps[i as int].target,
                to: s.swaps[i as int].target + ".bak"@,
            },
            only_file: false,
        }),
        s.stage == ApplyStage::Swapping(i, SwapStep::MoveTarget) ==> {
            let (now, asked) = task.next(s, ApplyEventView::Done);
            &&& now.log.len() == s.log.len() + 1
            &&& now.report == s.report
            &&& asked == (ApplyActionView::Rename {
                step: MoveView { from: s.swaps[i as int].staged, to: s.swaps[i as int].target },
                only_file: false,
            })
        },
        s.stage == ApplyStage::Swapping(i, SwapStep::Install(false)) || s.stage
            == ApplyStage::Swapping(i, SwapStep::KeepBackup) ==> {
            let (now, asked) = task.next(s, ApplyEventView::Done);
            &&& now.log.len() == s.log.len() + 1
            &&& now.report.swapped == s.report.swapped + 1
            &&& now.report.deleted == s.report.deleted
            &&& i + 1 < s.swaps.len() ==> asked == ApplyActionView::Probe(s.swaps[i + 1].target)
            &&& i + 1 == s.swaps.len() && task.index.delete_files.len() > 0 ==> asked
                == ApplyActionView::Probe(
                paths::inside(task.game_folder, task.index.delete_files[0]),
            )
            &&& i + 1 == s.swaps.len() && task.index.delete_files.len() == 0 ==> asked
                == ApplyActionView::Probe(state::config_file(task.game_folder))
        },
{
    reveal(ApplyTask::next);
}

/// The results are hashed one after the other: one that the manifest lists as a full file there first,
/// any other where its group staged it.
pub proof fn law_results_are_hashed_in_order(
    task: ApplyTask,
    s: ApplyState,
    j: usize,
    md5: Seq<char>,
)
    requires
        s.stage == ApplyStage::CheckingOutput(j) || s.stage == ApplyStage::CheckingFull(j),
        j + 1 < task.results(s.skipped).len() <= usize::MAX,
        task.results(s.skipped)[j as int].md5.len() == 0 || task.results(s.skipped)[j as int].md5
            == md5,
    ensures
        ({
            let next = task.results(s.skipped)[j + 1].dest;
            let (now, asked) = task.next(s, ApplyEventView::Digest(Some(md5)));
            asked == ApplyActionView::Digest(
                if apply::is_complete(task.index.resource, next) {
                    state::staged_resource(task.game_folder, next)
                } else {
                    state::staged_output(task.game_folder, next)
                },
            )
        }),
{
    reveal(ApplyTask::next);
}

/// Once all results and all other full files are hashed, what an earlier update kept is removed; until
/// then the next full file is hashed, and none is passed over.
pub proof fn law_full_files_are_hashed_in_order(
    task: ApplyTask,
    s: ApplyState,
    k: usize,
    m: int,
)
    requires
        s.stage == ApplyStage::CheckingFile(k),
        k < task.index.resource.len() <= usize::MAX,
        k < m <= task.index.resource.len(),
        forall|i: int| k < i < m ==> !(#[trigger] task.is_loose(s.skipped, i)),
        m < task.index.resource.len() ==> task.is_loose(s.skipped, m),
    ensures
        ({
            let asked = task.next(s, ApplyEventView::Digest(None)).1;
            &&& m < task.index.resource.len() ==> asked == ApplyActionView::Digest(
                state::staged_resource(task.game_folder, task.index.resource[m].dest),
            )
            &&& m == task.index.resource.len() ==> asked == ApplyActionView::Clear(
                state::kept_folder(task.game_folder),
            )
        }),
{
    reveal(ApplyTask::next);
    apply::lemma_next_loose(task, s.skipped, k + 1);
    let n = task.next_loose(s.skipped, k + 1);
    if n < m {
        assert(task.is_loose(s.skipped, n));
    }
    if m < n {
        assert(!task.is_loose(s.skipped, m));
    }
}

/// The record is swapped in like a file of the game, and then the staging folder is moved away.
pub proof fn law_record_is_swapped_in(task: ApplyTask, s: ApplyState, there: bool)
    ensures
        s.stage == ApplyStage::Recording(SwapStep::FindTarget) ==> task.next(
            s,
            ApplyEventView::Exists(there),
        ).1 == ApplyActionView::Probe(state::config_file(task.game_folder) + ".bak"@),
        s.stage == ApplyStage::Recording(SwapStep::MoveTarget) ==> task.next(
            s,
            ApplyEventView::Done,
        ).1 == (ApplyActionView::Rename {
            step: MoveView {
                from: state::staged_config(task.game_folder),
                to: state::config_file(task.game_folder),
            },
            only_file: false,
        }),
        s.stage == ApplyStage::Recording(SwapStep::Install(false)) || s.stage
            == ApplyStage::Recording(SwapStep::KeepBackup) ==> task.next(
            s,
            ApplyEventView::Done,
        ).1 == ApplyActionView::Retire(
            MoveView {
                from: state::staging(task.game_folder),
                to: state::discarded(task.game_folder),
            },
        ),
{
    reveal(ApplyTask::next);
}

/// After the last file was fetched, or at once where none is to be fetched, the first result is hashed.
pub proof fn law_checks_begin(
    task: ApplyTask,
    s: ApplyState,
    i: usize,
    outcomes: Seq<GroupOutcomeView>,
)
    ensures
        s.stage == ApplyStage::Fetching(i) && i + 1 == s.fallbacks.len() && task.results(
            s.skipped,
        ).len() > 0 ==> {
            let first = task.results(s.skipped)[0].dest;
            task.next(s, ApplyEventView::Done).1 == ApplyActionView::Digest(
                if apply::is_complete(task.index.resource, first) {
                    state::staged_resource(task.game_folder, first)
                } else {
                    state::staged_output(task.game_folder, first)
                },
            )
        },
        s.stage == ApplyStage::Merging && apply::whole_files(outcomes).len() == 0 && task.results(
            task.skipped(outcomes),
        ).len() > 0 ==> {
            let first = task.results(task.skipped(outcomes))[0].dest;
            task.next(s, ApplyEventView::Merged(outcomes)).1 == ApplyActionView::Digest(
                if apply::is_complete(task.index.resource, first) {
                    state::staged_resource(task.game_folder, first)
                } else {
                    state::staged_output(task.game_folder, first)
                },
            )
        },
{
    reveal(ApplyTask::next);
}

/// Before anything of the game has changed, a failure ends the update with its reason.
pub proof fn law_early_failure_ends_the_update(task: ApplyTask, s: ApplyState, e: ErrorView)
    requires
        s.stage is Merging || s.stage is Fetching || s.stage is CheckingFull || s.stage
            is CheckingOutput || s.stage is CheckingFile || s.stage is Preparing || s.stage
            is StagingRecord,
    ensures
        task.next(s, ApplyEventView::Failed(e)).1 == ApplyActionView::Fail(e),
        task.next(s, ApplyEventView::Failed(e)).0.stage == ApplyStage::Ended,
        task.next(s, ApplyEventView::Failed(e)).0.log == s.log,
{
    reveal(ApplyTask::next);
}

/// A move of any kind that fails has the moves before it taken back; without any the update fails at
/// once. A move that cannot be taken back does not keep the others from being.
pub proof fn law_failed_moves(task: ApplyTask, s: ApplyState, e: ErrorView, i: usize, k: usize)
    requires
        s.log.len() <= usize::MAX,
    ensures
        ({
            let moving = s.stage == ApplyStage::ShelvingLeftover || s.stage == ApplyStage::Swapping(
                i,
                SwapStep::ShelveBackup,
            ) || s.stage == ApplyStage::Swapping(i, SwapStep::MoveTarget) || s.stage
                == ApplyStage::Swapping(i, SwapStep::KeepBackup) || s.stage
                == ApplyStage::Deleting(i) || s.stage == ApplyStage::Recording(SwapStep::MoveTarget)
                || s.stage == ApplyStage::Retiring;
            let (now, asked) = task.next(s, ApplyEventView::Failed(e));
            &&& moving ==> now.failure == Some(e) && now.log == s.log
            &&& moving && s.log.len() > 0 ==> asked == ApplyActionView::Undo(s.log.last())
            &&& moving && s.log.len() == 0 ==> asked == ApplyActionView::Fail(e)
            &&& s.stage == ApplyStage::Undoing(k) && 0 < k < s.log.len() ==> asked
                == ApplyActionView::Undo(s.log[k - 1]) && now.failure == s.failure
        }),
{
    reveal(ApplyTask::next);
}

}
