//! What holds of an update from its start to its end, whatever the answers are.

use vstd::prelude::*;

use crate::apply;
use crate::apply::{
    ApplyActionView, ApplyEventView, ApplyReportView, ApplyStage, ApplyState, ApplyTask,
};
use crate::game;
use crate::manifest;
use crate::merge::{GroupOutcomeView, MergeTask};
use crate::moves::{MoveView, SwapStep, SwapView};
use crate::paths;
use crate::state;
use crate::types::{FileRefView, GroupInfoView};

verus! {

/// Where an update stands after these answers, and what it asks for.
pub open spec fn run(task: ApplyTask, answers: Seq<ApplyEventView>) -> (ApplyState, ApplyActionView)
    decreases answers.len(),
{
    if answers.len() == 0 {
        task.next(task.start(), ApplyEventView::Begin)
    } else {
        task.next(run(task, answers.drop_last()).0, answers.last())
    }
}

/// Whether each of these answers is one to what was asked for, and what was collected can be
/// counted.
pub open spec fn is_course(task: ApplyTask, answers: Seq<ApplyEventView>) -> bool
    decreases answers.len(),
{
    &&& task.fits(run(task, answers).0)
    &&& answers.len() > 0 ==> {
        &&& is_course(task, answers.drop_last())
        &&& task.answers(run(task, answers.drop_last()).0.stage, answers.last())
    }
}

/// Whether the answers said that this path does not exist.
pub open spec fn missed(task: ApplyTask, answers: Seq<ApplyEventView>, path: Seq<char>) -> bool
    decreases answers.len(),
{
    answers.len() > 0 && (missed(task, answers.drop_last(), path) || (run(
        task,
        answers.drop_last(),
    ).1 == ApplyActionView::Probe(path) && answers.last() == ApplyEventView::Exists(false)))
}

/// Whether the answers said that there is no file with this path to hash.
pub open spec fn not_found(task: ApplyTask, answers: Seq<ApplyEventView>, path: Seq<char>) -> bool
    decreases answers.len(),
{
    answers.len() > 0 && (not_found(task, answers.drop_last(), path) || (run(
        task,
        answers.drop_last(),
    ).1 == ApplyActionView::Digest(path) && answers.last() == ApplyEventView::Digest(None)))
}

/// Whether this file was hashed and found to have this digest; an empty digest matches any.
pub open spec fn was_verified(
    task: ApplyTask,
    answers: Seq<ApplyEventView>,
    path: Seq<char>,
    md5: Seq<char>,
) -> bool
    decreases answers.len(),
{
    answers.len() > 0 && (was_verified(task, answers.drop_last(), path, md5) || (run(
        task,
        answers.drop_last(),
    ).1 == ApplyActionView::Digest(path) && answers.last() is Digest && apply::is_good(
        answers.last()->Digest_0,
        md5,
    )))
}

/// Whether this was asked for and done.
pub open spec fn was_done(task: ApplyTask, answers: Seq<ApplyEventView>, action: ApplyActionView) -> bool
    decreases answers.len(),
{
    answers.len() > 0 && (was_done(task, answers.drop_last(), action) || (run(
        task,
        answers.drop_last(),
    ).1 == action && answers.last() is Done))
}

/// Whether a staged file was moved into its place.
pub open spec fn was_placed(task: ApplyTask, answers: Seq<ApplyEventView>, swap: SwapView) -> bool {
    was_done(
        task,
        answers,
        ApplyActionView::Rename {
            step: MoveView { from: swap.staged, to: swap.target },
            only_file: false,
        },
    )
}

/// Whether a move was made.
pub open spec fn was_made(task: ApplyTask, answers: Seq<ApplyEventView>, m: MoveView) -> bool {
    ||| was_done(task, answers, ApplyActionView::Rename { step: m, only_file: false })
    ||| was_done(task, answers, ApplyActionView::Rename { step: m, only_file: true })
}

/// The move of an obsolete file to where it is kept.
pub open spec fn removal(path: Seq<char>, to: Seq<char>) -> ApplyActionView {
    ApplyActionView::Rename { step: MoveView { from: path, to }, only_file: true }
}

/// Whether a file of the game was removed.
pub open spec fn was_removed(task: ApplyTask, answers: Seq<ApplyEventView>, path: Seq<char>) -> bool {
    exists|to: Seq<char>| was_done(task, answers, #[trigger] removal(path, to))
}

/// The moves that stand: those that were made and not taken back.
pub open spec fn standing(task: ApplyTask, answers: Seq<ApplyEventView>) -> Seq<MoveView>
    decreases answers.len(),
{
    if answers.len() == 0 {
        Seq::empty()
    } else {
        let before = standing(task, answers.drop_last());
        match run(task, answers.drop_last()).1 {
            ApplyActionView::Rename { step, .. } => if answers.last() is Done {
                before.push(step)
            } else {
                before
            },
            ApplyActionView::Undo(m) => if answers.last() is Done && before.len() > 0
                && before.last() == m {
                before.drop_last()
            } else {
                before
            },
            _ => before,
        }
    }
}

/// Whether some move could not be taken back.
pub open spec fn undo_failed(task: ApplyTask, answers: Seq<ApplyEventView>) -> bool
    decreases answers.len(),
{
    answers.len() > 0 && (undo_failed(task, answers.drop_last()) || (run(
        task,
        answers.drop_last(),
    ).1 is Undo && answers.last() is Failed))
}

/// The files that were removed, in order.
pub open spec fn removals(task: ApplyTask, answers: Seq<ApplyEventView>) -> Seq<Seq<char>>
    decreases answers.len(),
{
    if answers.len() == 0 {
        Seq::empty()
    } else {
        let before = removals(task, answers.drop_last());
        match run(task, answers.drop_last()).1 {
            ApplyActionView::Rename { step, only_file } => if only_file && answers.last() is Done {
                before.push(step.from)
            } else {
                before
            },
            _ => before,
        }
    }
}

/// The stages before the first move.
pub open spec fn is_early(stage: ApplyStage) -> bool {
    match stage {
        ApplyStage::Start => true,
        ApplyStage::FindingStaging => true,
        ApplyStage::Merging => true,
        ApplyStage::Fetching(_) => true,
        ApplyStage::CheckingFull(_) => true,
        ApplyStage::CheckingOutput(_) => true,
        ApplyStage::CheckingFile(_) => true,
        ApplyStage::Preparing => true,
        ApplyStage::StagingRecord => true,
        ApplyStage::FindingLeftover => true,
        _ => false,
    }
}

/// The stages from the first move to the last.
pub open spec fn is_working(stage: ApplyStage) -> bool {
    match stage {
        ApplyStage::ShelvingLeftover => true,
        ApplyStage::Swapping(_, _) => true,
        ApplyStage::FindingObsolete(_) => true,
        ApplyStage::Deleting(_) => true,
        ApplyStage::Recording(_) => true,
        ApplyStage::Retiring => true,
        _ => false,
    }
}

/// The writing of the record that closes an update.
pub open spec fn closing_record(task: ApplyTask) -> ApplyActionView {
    ApplyActionView::StageRecord {
        config: state::config_of(task.to_version, task.app_id),
        path: state::staged_config(task.game_folder),
    }
}

/// Whether the new version was recorded: written, and moved into place.
pub open spec fn was_recorded(task: ApplyTask, answers: Seq<ApplyEventView>) -> bool {
    was_done(task, answers, closing_record(task)) && was_placed(task, answers, task.record())
}

/// The move of the staging folder out of its place.
pub open spec fn retirement(task: ApplyTask) -> ApplyActionView {
    ApplyActionView::Retire(
        MoveView {
            from: state::staging(task.game_folder),
            to: state::discarded(task.game_folder),
        },
    )
}

/// The fetch of the file at `k` of those to fetch whole.
pub open spec fn fallback_fetch(task: ApplyTask, s: ApplyState, k: int) -> ApplyActionView {
    ApplyActionView::Fetch(apply::fallback_job(task, s.fallbacks[k]))
}

/// Where the obsolete file at `k` lies.
pub open spec fn obsolete_path(task: ApplyTask, k: int) -> Seq<char> {
    paths::inside(task.game_folder, task.index.delete_files[k])
}

/// What a state asks for: at the end nothing.
pub open spec fn is_asked(task: ApplyTask, s: ApplyState, action: ApplyActionView) -> bool {
    if s.stage == ApplyStage::Ended {
        action is Fail || action == ApplyActionView::Finish(s.report)
    } else {
        s.stage != ApplyStage::Start && action == task.ask(s)
    }
}

/// The stage behind the obsolete files before `i`.
pub open spec fn past_obsolete(task: ApplyTask, i: int) -> ApplyStage {
    if i < task.index.delete_files.len() {
        ApplyStage::FindingObsolete(i as usize)
    } else {
        ApplyStage::Recording(SwapStep::FindTarget)
    }
}

/// The stage behind the swaps before `i`.
pub open spec fn past_swaps(task: ApplyTask, s: ApplyState, i: int) -> ApplyStage {
    if i < s.swaps.len() {
        ApplyStage::Swapping(i as usize, SwapStep::FindTarget)
    } else {
        past_obsolete(task, 0)
    }
}

/// The stage behind the entries of the manifest before `i`.
pub open spec fn past_files(task: ApplyTask, s: ApplyState, i: int) -> ApplyStage {
    let k = task.next_loose(s.skipped, i);
    if k < task.index.resource.len() {
        ApplyStage::CheckingFile(k as usize)
    } else {
        ApplyStage::Preparing
    }
}

/// The stage behind the results before `j`.
pub open spec fn past_checks(task: ApplyTask, s: ApplyState, j: int) -> ApplyStage {
    if j >= task.results(s.skipped).len() {
        past_files(task, s, 0)
    } else if apply::is_complete(task.index.resource, task.results(s.skipped)[j].dest) {
        ApplyStage::CheckingFull(j as usize)
    } else {
        ApplyStage::CheckingOutput(j as usize)
    }
}

/// The stage behind the fetches before `i`.
pub open spec fn past_fetches(task: ApplyTask, s: ApplyState, i: int) -> ApplyStage {
    if i < s.fallbacks.len() {
        ApplyStage::Fetching(i as usize)
    } else {
        past_checks(task, s, 0)
    }
}

/// The digest that the file which is being hashed should have.
pub open spec fn wanted(task: ApplyTask, s: ApplyState) -> Seq<char> {
    match s.stage {
        ApplyStage::CheckingFull(j) => task.results(s.skipped)[j as int].md5,
        ApplyStage::CheckingOutput(j) => task.results(s.skipped)[j as int].md5,
        ApplyStage::CheckingFile(k) => task.index.resource[k as int].md5,
        _ => Seq::empty(),
    }
}

/// Where an event that is no failure leads to; none where the update ends.
pub open spec fn stage_after(task: ApplyTask, s: ApplyState, event: ApplyEventView, t: ApplyState) -> Option<
    ApplyStage,
> {
    let good = event is Digest && apply::is_good(event->Digest_0, wanted(task, s));
    let there = event is Done || event == ApplyEventView::Exists(true);
    match s.stage {
        ApplyStage::Start => Some(ApplyStage::FindingStaging),
        ApplyStage::FindingStaging => if there {
            Some(ApplyStage::Merging)
        } else {
            None
        },
        ApplyStage::Merging => Some(past_fetches(task, t, 0)),
        ApplyStage::Fetching(i) => Some(past_fetches(task, t, i + 1)),
        ApplyStage::CheckingFull(j) => if good {
            Some(past_checks(task, t, j + 1))
        } else {
            Some(ApplyStage::CheckingOutput(j))
        },
        ApplyStage::CheckingOutput(j) => if good {
            Some(past_checks(task, t, j + 1))
        } else {
            None
        },
        ApplyStage::CheckingFile(k) => if good || event == ApplyEventView::Digest(None) {
            Some(past_files(task, t, k + 1))
        } else {
            None
        },
        ApplyStage::Preparing => Some(ApplyStage::StagingRecord),
        ApplyStage::StagingRecord => Some(ApplyStage::FindingLeftover),
        ApplyStage::FindingLeftover => if there {
            Some(ApplyStage::ShelvingLeftover)
        } else {
            Some(past_swaps(task, t, 0))
        },
        ApplyStage::ShelvingLeftover => Some(past_swaps(task, t, 0)),
        ApplyStage::Swapping(i, step) => match step.after(there) {
            Some(next) => Some(ApplyStage::Swapping(i, next)),
            None => Some(past_swaps(task, t, i + 1)),
        },
        ApplyStage::FindingObsolete(i) => if there {
            Some(ApplyStage::Deleting(i))
        } else {
            Some(past_obsolete(task, i + 1))
        },
        ApplyStage::Deleting(i) => Some(past_obsolete(task, i + 1)),
        ApplyStage::Recording(step) => match step.after(there) {
            Some(next) => Some(ApplyStage::Recording(next)),
            None => Some(ApplyStage::Retiring),
        },
        ApplyStage::Retiring => Some(ApplyStage::Discarding),
        ApplyStage::Discarding => None,
        ApplyStage::Undoing(k) => if k == 0 {
            None
        } else {
            Some(ApplyStage::Undoing((k - 1) as usize))
        },
        ApplyStage::Ended => None,
    }
}

/// What the report is after an event.
pub open spec fn report_after(task: ApplyTask, s: ApplyState, event: ApplyEventView) -> ApplyReportView {
    match event {
        ApplyEventView::Merged(outcomes) => ApplyReportView {
            merged: apply::merged_count(outcomes),
            skipped: apply::skipped_count(outcomes),
            fallback: apply::fallback_count(outcomes),
            ..s.report
        },
        ApplyEventView::Done => match s.stage {
            ApplyStage::Swapping(_, step) => if step.after(true) is None {
                ApplyReportView { swapped: s.report.swapped + 1, ..s.report }
            } else {
                s.report
            },
            ApplyStage::Deleting(i) => ApplyReportView {
                deleted: s.report.deleted.push(task.index.delete_files[i as int]),
                ..s.report
            },
            _ => s.report,
        },
        _ => s.report,
    }
}

/// What every event does to a state: the lists stay once the groups are merged, a file that is good
/// is planned to be swapped in, a move that was made is noted, and after a failure the moves are
/// taken back one by one.
pub open spec fn is_step(
    task: ApplyTask,
    s: ApplyState,
    event: ApplyEventView,
    t: ApplyState,
    action: ApplyActionView,
) -> bool {
    &&& !(event is Merged) ==> t.skipped == s.skipped && t.fallbacks == s.fallbacks
    &&& t.log == if task.is_move(s.stage) && event is Done {
        s.log.push(task.ask(s)->step)
    } else {
        s.log
    }
    &&& t.swaps == match s.stage {
        ApplyStage::CheckingFull(j) => if event is Digest && apply::is_good(
            event->Digest_0,
            wanted(task, s),
        ) {
            s.swaps.push(
                task.swap(task.ask(s)->Digest_0, task.results(s.skipped)[j as int].dest),
            )
        } else {
            s.swaps
        },
        ApplyStage::CheckingOutput(j) => if event is Digest && apply::is_good(
            event->Digest_0,
            wanted(task, s),
        ) {
            s.swaps.push(
                task.swap(task.ask(s)->Digest_0, task.results(s.skipped)[j as int].dest),
            )
        } else {
            s.swaps
        },
        ApplyStage::CheckingFile(k) => if event is Digest && apply::is_good(
            event->Digest_0,
            wanted(task, s),
        ) {
            s.swaps.push(
                task.swap(task.ask(s)->Digest_0, task.index.resource[k as int].dest),
            )
        } else {
            s.swaps
        },
        _ => s.swaps,
    }
    &&& t.report == report_after(task, s, event)
    &&& event is Failed ==> if is_working(s.stage) && s.log.len() > 0 {
        t.stage == ApplyStage::Undoing((s.log.len() - 1) as usize)
    } else if s.stage is Undoing && s.stage->Undoing_0 > 0 {
        t.stage == ApplyStage::Undoing((s.stage->Undoing_0 - 1) as usize)
    } else {
        t.stage == ApplyStage::Ended && (action is Fail <==> s.stage != ApplyStage::Discarding)
    }
    &&& !(event is Failed) ==> match stage_after(task, s, event, t) {
        Some(stage) => t.stage == stage,
        None => t.stage == ApplyStage::Ended && (action is Fail <==> s.stage
            != ApplyStage::Discarding),
    }
}

/// The positions of the next entries are positions of the list.
proof fn lemma_positions(task: ApplyTask, s: ApplyState, skipped: Seq<bool>)
    requires
        task.stands(s),
    ensures
        0 <= task.next_loose(skipped, 0) <= task.index.resource.len(),
        s.stage is CheckingFile ==> 0 <= task.next_loose(skipped, s.stage->CheckingFile_0 + 1)
            <= task.index.resource.len(),
{
    apply::lemma_next_loose(task, skipped, 0);
    if let ApplyStage::CheckingFile(k) = s.stage {
        apply::lemma_next_loose(task, skipped, k + 1);
    }
}

/// What follows something that was done.
proof fn lemma_step_after_done(task: ApplyTask, s: ApplyState, event: ApplyEventView)
    requires
        task.stands(s),
        task.answers(s.stage, event),
        task.fits(task.next(s, event).0),
        event is Done,
    ensures
        is_asked(task, task.next(s, event).0, task.next(s, event).1),
        is_step(task, s, event, task.next(s, event).0, task.next(s, event).1),
{
    lemma_positions(task, s, task.next(s, event).0.skipped);
    reveal(ApplyTask::next);
}

/// What follows what was seen.
proof fn lemma_step_after_probe(task: ApplyTask, s: ApplyState, event: ApplyEventView)
    requires
        task.stands(s),
        task.answers(s.stage, event),
        task.fits(task.next(s, event).0),
        event is Exists,
    ensures
        is_asked(task, task.next(s, event).0, task.next(s, event).1),
        is_step(task, s, event, task.next(s, event).0, task.next(s, event).1),
{
    lemma_positions(task, s, task.next(s, event).0.skipped);
    reveal(ApplyTask::next);
}

/// What follows a digest.
proof fn lemma_step_after_digest(task: ApplyTask, s: ApplyState, event: ApplyEventView)
    requires
        task.stands(s),
        task.answers(s.stage, event),
        task.fits(task.next(s, event).0),
        event is Digest,
    ensures
        is_asked(task, task.next(s, event).0, task.next(s, event).1),
        is_step(task, s, event, task.next(s, event).0, task.next(s, event).1),
{
    lemma_positions(task, s, task.next(s, event).0.skipped);
    reveal(ApplyTask::next);
}

/// What follows a failure.
proof fn lemma_step_after_failure(task: ApplyTask, s: ApplyState, event: ApplyEventView)
    requires
        task.stands(s),
        task.answers(s.stage, event),
        task.fits(task.next(s, event).0),
        event is Failed,
    ensures
        is_asked(task, task.next(s, event).0, task.next(s, event).1),
        is_step(task, s, event, task.next(s, event).0, task.next(s, event).1),
{
    lemma_positions(task, s, task.next(s, event).0.skipped);
    reveal(ApplyTask::next);
}

/// What follows the merges, and at the start.
proof fn lemma_step_after_merge(task: ApplyTask, s: ApplyState, event: ApplyEventView)
    requires
        task.stands(s),
        task.answers(s.stage, event),
        task.fits(task.next(s, event).0),
        event is Merged || event is Begin,
    ensures
        is_asked(task, task.next(s, event).0, task.next(s, event).1),
        is_step(task, s, event, task.next(s, event).0, task.next(s, event).1),
{
    lemma_positions(task, s, task.next(s, event).0.skipped);
    reveal(ApplyTask::next);
}

/// Where an event leads to.
proof fn lemma_step(task: ApplyTask, s: ApplyState, event: ApplyEventView)
    requires
        task.stands(s),
        task.answers(s.stage, event),
        task.fits(task.next(s, event).0),
    ensures
        task.stands(task.next(s, event).0),
        is_asked(task, task.next(s, event).0, task.next(s, event).1),
        is_step(task, s, event, task.next(s, event).0, task.next(s, event).1),
{
    apply::law_apply_stands(task, s, event);
    match event {
        ApplyEventView::Exists(_) => lemma_step_after_probe(task, s, event),
        ApplyEventView::Failed(_) => lemma_step_after_failure(task, s, event),
        ApplyEventView::Done => lemma_step_after_done(task, s, event),
        ApplyEventView::Digest(_) => lemma_step_after_digest(task, s, event),
        _ => lemma_step_after_merge(task, s, event),
    }
}

/// Where an update stands after answers to what was asked for: it stands, it asks for what its stage
/// asks for, and the last answer led there.
pub proof fn lemma_asked(task: ApplyTask, answers: Seq<ApplyEventView>)
    requires
        is_course(task, answers),
    ensures
        task.stands(run(task, answers).0),
        is_asked(task, run(task, answers).0, run(task, answers).1),
        answers.len() > 0 ==> is_step(
            task,
            run(task, answers.drop_last()).0,
            answers.last(),
            run(task, answers).0,
            run(task, answers).1,
        ),
        answers.len() == 0 ==> run(task, answers).0 == (ApplyState {
            stage: ApplyStage::FindingStaging,
            ..task.start()
        }),
    decreases answers.len(),
{
    if answers.len() > 0 {
        lemma_asked(task, answers.drop_last());
        lemma_step(task, run(task, answers.drop_last()).0, answers.last());
    } else {
        lemma_step(task, task.start(), ApplyEventView::Begin);
        reveal(ApplyTask::next);
    }
}

/// Before the first move none is noted, and the moves that stand are those that a state knows, or
/// those of them that were not taken back yet.
pub open spec fn moves_stand(task: ApplyTask, answers: Seq<ApplyEventView>) -> bool {
    let (s, action) = run(task, answers);
    &&& is_early(s.stage) ==> s.log.len() == 0
    &&& !undo_failed(task, answers) ==> match s.stage {
        ApplyStage::Undoing(k) => standing(task, answers) == s.log.take(k + 1),
        ApplyStage::Ended => action is Fail ==> standing(task, answers).len() == 0,
        _ => standing(task, answers) == s.log,
    }
}

/// At every time the moves that stand are those that the update knows of.
pub proof fn lemma_moves_stand(task: ApplyTask, answers: Seq<ApplyEventView>)
    requires
        is_course(task, answers),
    ensures
        moves_stand(task, answers),
    decreases answers.len(),
{
    lemma_asked(task, answers);
    if answers.len() > 0 {
        let before = answers.drop_last();
        lemma_moves_stand(task, before);
        lemma_asked(task, before);
        let s = run(task, before).0;
        match s.stage {
            ApplyStage::Undoing(k) => {
                assert(s.log.take(k + 1).drop_last() =~= s.log.take(k as int));
                assert(s.log.take(k + 1).last() == s.log[k as int]);
            },
            _ => {
                assert(s.log.take(s.log.len() as int) =~= s.log);
            },
        }
    }
}

/// Every move that was made is known to the state, and those behind the one that is being taken
/// back were taken back.
spec fn made_are_undone(task: ApplyTask, answers: Seq<ApplyEventView>) -> bool {
    let (s, action) = run(task, answers);
    let from = match s.stage {
        ApplyStage::Undoing(k) => k + 1,
        ApplyStage::Ended => if action is Fail {
            0
        } else {
            s.log.len() as int
        },
        _ => s.log.len() as int,
    };
    &&& forall|m: MoveView| #[trigger] was_made(task, answers, m) ==> s.log.contains(m)
    &&& !undo_failed(task, answers) ==> forall|j: int|
        from <= j < s.log.len() ==> was_done(
            task,
            answers,
            ApplyActionView::Undo(#[trigger] s.log[j]),
        )
}

proof fn lemma_made_are_undone(task: ApplyTask, answers: Seq<ApplyEventView>)
    requires
        is_course(task, answers),
    ensures
        made_are_undone(task, answers),
    decreases answers.len(),
{
    lemma_asked(task, answers);
    if answers.len() > 0 {
        let before = answers.drop_last();
        lemma_made_are_undone(task, before);
        lemma_asked(task, before);
        lemma_moves_stand(task, before);
        let s = run(task, before).0;
        let after = run(task, answers).0;
        assert forall|m: MoveView| #[trigger] was_made(
            task,
            answers,
            m,
        ) implies after.log.contains(m) by {
            if was_made(task, before, m) {
                let k = choose|k: int| 0 <= k < s.log.len() && s.log[k] == m;
                assert(after.log[k] == m);
            } else {
                assert(after.log[s.log.len() as int] == m);
            }
        }
    }
}

/// An update that fails leaves the game as it was: of the moves that were made none stands; each of
/// them was taken back. (What could not be taken back, because that failed too, is left out.)
pub proof fn law_failed_apply_is_undone(task: ApplyTask, answers: Seq<ApplyEventView>)
    requires
        is_course(task, answers),
        run(task, answers).1 is Fail,
        !undo_failed(task, answers),
    ensures
        standing(task, answers).len() == 0,
        forall|m: MoveView| #[trigger] was_made(task, answers, m) ==> was_done(
            task,
            answers,
            ApplyActionView::Undo(m),
        ),
{
    lemma_asked(task, answers);
    lemma_moves_stand(task, answers);
    lemma_made_are_undone(task, answers);
    let s = run(task, answers).0;
    assert forall|m: MoveView| #[trigger] was_made(task, answers, m) implies was_done(
        task,
        answers,
        ApplyActionView::Undo(m),
    ) by {
        let k = choose|k: int| 0 <= k < s.log.len() && s.log[k] == m;
        assert(was_done(task, answers, ApplyActionView::Undo(s.log[k])));
    }
}

spec fn all_fetched(task: ApplyTask, answers: Seq<ApplyEventView>, s: ApplyState, n: int) -> bool {
    forall|k: int|
        0 <= k < n ==> was_done(task, answers, #[trigger] fallback_fetch(task, s, k))
}

proof fn lemma_all_fetched_stays(
    task: ApplyTask,
    answers: Seq<ApplyEventView>,
    before: ApplyState,
    after: ApplyState,
    n: int,
)
    requires
        answers.len() > 0,
        all_fetched(task, answers.drop_last(), before, n),
        before.fallbacks == after.fallbacks,
    ensures
        all_fetched(task, answers, after, n),
{
    assert forall|k: int| 0 <= k < n implies was_done(
        task,
        answers,
        #[trigger] fallback_fetch(task, after, k),
    ) by {
        assert(fallback_fetch(task, before, k) == fallback_fetch(task, after, k));
    }
}

/// The fetches before the awaited one are done, and all of them once none is awaited.
spec fn fetches_done(task: ApplyTask, answers: Seq<ApplyEventView>) -> bool {
    let (s, action) = run(task, answers);
    match s.stage {
        ApplyStage::Start => true,
        ApplyStage::FindingStaging => true,
        ApplyStage::Merging => true,
        ApplyStage::Fetching(i) => all_fetched(task, answers, s, i as int),
        ApplyStage::Ended => action is Finish ==> all_fetched(
            task,
            answers,
            s,
            s.fallbacks.len() as int,
        ),
        _ => all_fetched(task, answers, s, s.fallbacks.len() as int),
    }
}

proof fn lemma_fetches_done(task: ApplyTask, answers: Seq<ApplyEventView>)
    requires
        is_course(task, answers),
    ensures
        fetches_done(task, answers),
    decreases answers.len(),
{
    lemma_asked(task, answers);
    if answers.len() > 0 {
        let earlier = answers.drop_last();
        lemma_fetches_done(task, earlier);
        lemma_asked(task, earlier);
        let s = run(task, earlier).0;
        let after = run(task, answers).0;
        match s.stage {
            ApplyStage::Fetching(i) => {
                lemma_all_fetched_stays(task, answers, s, after, i as int);
                if answers.last() is Done {
                    assert(fallback_fetch(task, after, i as int) == fallback_fetch(
                        task,
                        s,
                        i as int,
                    ));
                    assert(was_done(task, answers, fallback_fetch(task, after, i as int)));
                    assert(all_fetched(task, answers, after, i + 1));
                }
            },
            ApplyStage::Merging => {},
            ApplyStage::Start => {},
            ApplyStage::FindingStaging => {},
            ApplyStage::Ended => {},
            _ => {
                lemma_all_fetched_stays(
                    task,
                    answers,
                    s,
                    after,
                    s.fallbacks.len() as int,
                );
            },
        }
    }
}

/// A file of the game is changed only once every file whose patch failed was fetched whole.
pub proof fn law_failed_patches_are_fetched(
    task: ApplyTask,
    answers: Seq<ApplyEventView>,
    k: int,
)
    requires
        is_course(task, answers),
        run(task, answers).1.changes_game() || run(task, answers).1 is Finish,
        0 <= k < run(task, answers).0.fallbacks.len(),
    ensures
        was_done(task, answers, fallback_fetch(task, run(task, answers).0, k)),
{
    lemma_asked(task, answers);
    lemma_fetches_done(task, answers);
}

/// Whether one of the files to swap in is this file of the game, staged by a group or fetched whole,
/// and was found to have this digest.
pub open spec fn is_planned(
    task: ApplyTask,
    answers: Seq<ApplyEventView>,
    s: ApplyState,
    dest: Seq<char>,
    md5: Seq<char>,
) -> bool {
    exists|k: int| 0 <= k < s.swaps.len() && #[trigger] is_verified_swap(
        task,
        answers,
        s.swaps[k],
        dest,
        md5,
    )
}

/// Whether a swap puts this file of the game in place, staged by a group or fetched whole, and what
/// it puts there was found to have this digest.
pub open spec fn is_verified_swap(
    task: ApplyTask,
    answers: Seq<ApplyEventView>,
    swap: SwapView,
    dest: Seq<char>,
    md5: Seq<char>,
) -> bool {
    &&& swap.target == paths::inside(task.game_folder, dest)
    &&& swap.staged == state::staged_output(task.game_folder, dest) || swap.staged
        == state::staged_resource(task.game_folder, dest)
    &&& was_verified(task, answers, swap.staged, md5)
}

/// Whether the result at `j` is planned to be swapped in.
pub open spec fn result_planned(
    task: ApplyTask,
    answers: Seq<ApplyEventView>,
    s: ApplyState,
    j: int,
) -> bool {
    is_planned(
        task,
        answers,
        s,
        task.results(s.skipped)[j].dest,
        task.results(s.skipped)[j].md5,
    )
}

/// Whether the entry at `k` of the manifest is dealt with: a group produces it or it is none that is
/// fetched whole, or it is planned to be swapped in, or it is not staged.
pub open spec fn file_planned(
    task: ApplyTask,
    answers: Seq<ApplyEventView>,
    s: ApplyState,
    k: int,
) -> bool {
    let item = task.index.resource[k];
    ||| !task.is_loose(s.skipped, k)
    ||| is_planned(task, answers, s, item.dest, item.md5)
    ||| not_found(task, answers, state::staged_resource(task.game_folder, item.dest))
}

pub open spec fn results_below(task: ApplyTask, answers: Seq<ApplyEventView>, s: ApplyState, n: int) -> bool {
    forall|j: int| 0 <= j < n ==> #[trigger] result_planned(task, answers, s, j)
}

pub open spec fn files_below(task: ApplyTask, answers: Seq<ApplyEventView>, s: ApplyState, n: int) -> bool {
    forall|k: int| 0 <= k < n ==> #[trigger] file_planned(task, answers, s, k)
}

/// How many results and entries are looked at.
pub open spec fn planned_at(task: ApplyTask, s: ApplyState, action: ApplyActionView) -> (int, int) {
    let n = task.results(s.skipped).len() as int;
    let m = task.index.resource.len() as int;
    match s.stage {
        ApplyStage::Start => (0, 0),
        ApplyStage::FindingStaging => (0, 0),
        ApplyStage::Merging => (0, 0),
        ApplyStage::Fetching(_) => (0, 0),
        ApplyStage::CheckingFull(j) => (j as int, 0),
        ApplyStage::CheckingOutput(j) => (j as int, 0),
        ApplyStage::CheckingFile(k) => (n, k as int),
        ApplyStage::Ended => if action is Finish {
            (n, m)
        } else {
            (0, 0)
        },
        _ => (n, m),
    }
}

proof fn lemma_planned_stays(
    task: ApplyTask,
    answers: Seq<ApplyEventView>,
    s: ApplyState,
    t: ApplyState,
    at: (int, int),
)
    requires
        answers.len() > 0,
        s.skipped == t.skipped,
        s.swaps.len() <= t.swaps.len(),
        forall|k: int| 0 <= k < s.swaps.len() ==> #[trigger] s.swaps[k] == t.swaps[k],
        results_below(task, answers.drop_last(), s, at.0),
        files_below(task, answers.drop_last(), s, at.1),
    ensures
        results_below(task, answers, t, at.0),
        files_below(task, answers, t, at.1),
{
    let earlier = answers.drop_last();
    assert forall|dest: Seq<char>, md5: Seq<char>|
        is_planned(task, earlier, s, dest, md5) implies #[trigger] is_planned(
        task,
        answers,
        t,
        dest,
        md5,
    ) by {
        let k = choose|k: int|
            0 <= k < s.swaps.len() && #[trigger] is_verified_swap(
                task,
                earlier,
                s.swaps[k],
                dest,
                md5,
            );
        assert(s.swaps[k] == t.swaps[k]);
        assert(is_verified_swap(task, answers, t.swaps[k], dest, md5));
    }
    assert forall|j: int| 0 <= j < at.0 implies #[trigger] result_planned(task, answers, t, j) by {
        assert(result_planned(task, earlier, s, j));
    }
    assert forall|k: int| 0 <= k < at.1 implies #[trigger] file_planned(task, answers, t, k) by {
        assert(file_planned(task, earlier, s, k));
    }
}

/// What was looked at is planned, and the entries behind a position that no group leaves to be
/// looked at are dealt with.
proof fn lemma_files_below(
    task: ApplyTask,
    answers: Seq<ApplyEventView>,
    s: ApplyState,
    i: int,
)
    requires
        0 <= i <= task.index.resource.len(),
        files_below(task, answers, s, i),
    ensures
        i <= task.next_loose(s.skipped, i) <= task.index.resource.len(),
        files_below(task, answers, s, task.next_loose(s.skipped, i)),
{
    apply::lemma_next_loose(task, s.skipped, i);
}

pub open spec fn plan_stands(task: ApplyTask, answers: Seq<ApplyEventView>) -> bool {
    let (s, action) = run(task, answers);
    let at = planned_at(task, s, action);
    results_below(task, answers, s, at.0) && files_below(task, answers, s, at.1)
}

/// At every time what was looked at is planned to be swapped in, or need not be.
pub proof fn lemma_plan_stands(task: ApplyTask, answers: Seq<ApplyEventView>)
    requires
        is_course(task, answers),
    ensures
        plan_stands(task, answers),
    decreases answers.len(),
{
    lemma_asked(task, answers);
    if answers.len() > 0 {
        let earlier = answers.drop_last();
        lemma_plan_stands(task, earlier);
        lemma_asked(task, earlier);
        let (s, action) = run(task, earlier);
        let (t, _) = run(task, answers);
        let at = planned_at(task, s, action);
        if answers.last() is Merged {
            lemma_files_below(task, answers, t, 0);
        } else {
            lemma_planned_stays(task, answers, s, t, at);
            lemma_plan_step(task, answers, s, action, t);
        }
    }
}

/// What a digest adds to the plan.
proof fn lemma_plan_step(
    task: ApplyTask,
    answers: Seq<ApplyEventView>,
    s: ApplyState,
    action: ApplyActionView,
    t: ApplyState,
)
    requires
        answers.len() > 0,
        !(answers.last() is Merged),
        (s, action) == run(task, answers.drop_last()),
        t == run(task, answers).0,
        task.fits(t),
        task.stands(s),
        is_asked(task, s, action),
        is_step(task, s, answers.last(), t, run(task, answers).1),
        results_below(task, answers, t, planned_at(task, s, action).0),
        files_below(task, answers, t, planned_at(task, s, action).1),
        task.answers(s.stage, answers.last()),
    ensures
        plan_stands(task, answers),
{
    let event = answers.last();
    let n = s.swaps.len() as int;
    let good = event is Digest && apply::is_good(event->Digest_0, wanted(task, s));
    lemma_files_below(task, answers, t, 0);
    if good {
        let file = task.ask(s)->Digest_0;
        assert(was_verified(task, answers, file, wanted(task, s)));
    }
    match s.stage {
        ApplyStage::CheckingFull(j) => {
            if good {
                let f = task.results(s.skipped)[j as int];
                assert(is_verified_swap(task, answers, t.swaps[n], f.dest, f.md5));
                assert(result_planned(task, answers, t, j as int));
                assert(results_below(task, answers, t, j + 1));
            }
        },
        ApplyStage::CheckingOutput(j) => {
            if good {
                let f = task.results(s.skipped)[j as int];
                assert(is_verified_swap(task, answers, t.swaps[n], f.dest, f.md5));
                assert(result_planned(task, answers, t, j as int));
                assert(results_below(task, answers, t, j + 1));
            }
        },
        ApplyStage::CheckingFile(k) => {
            let item = task.index.resource[k as int];
            if good {
                assert(is_verified_swap(task, answers, t.swaps[n], item.dest, item.md5));
                assert(file_planned(task, answers, t, k as int));
            }
            if event == ApplyEventView::Digest(None) {
                assert(not_found(
                    task,
                    answers,
                    state::staged_resource(task.game_folder, item.dest),
                ));
                assert(file_planned(task, answers, t, k as int));
            }
            if good || event == ApplyEventView::Digest(None) {
                assert(files_below(task, answers, t, k + 1));
                lemma_files_below(task, answers, t, k + 1);
            }
        },
        _ => {},
    }
}

/// A file of the game is changed, or its version recorded, only once every result of the groups was
/// found to have the digest that the manifest gives, wherever it is taken from.
pub proof fn law_apply_changes_only_when_verified(
    task: ApplyTask,
    answers: Seq<ApplyEventView>,
    j: int,
)
    requires
        is_course(task, answers),
        run(task, answers).1.changes_game(),
        0 <= j < task.results(run(task, answers).0.skipped).len(),
    ensures
        result_planned(task, answers, run(task, answers).0, j),
{
    lemma_asked(task, answers);
    lemma_plan_stands(task, answers);
}

/// Whether the obsolete file at `k` is dealt with: it was removed, or it was not there.
pub open spec fn obsolete_settled(task: ApplyTask, answers: Seq<ApplyEventView>, k: int) -> bool {
    ||| was_removed(task, answers, obsolete_path(task, k))
    ||| missed(task, answers, obsolete_path(task, k))
}

spec fn swaps_below(task: ApplyTask, answers: Seq<ApplyEventView>, s: ApplyState, n: int) -> bool {
    forall|k: int| 0 <= k < n ==> was_placed(task, answers, #[trigger] s.swaps[k])
}

spec fn obsolete_below(task: ApplyTask, answers: Seq<ApplyEventView>, n: int) -> bool {
    forall|k: int| 0 <= k < n ==> #[trigger] obsolete_settled(task, answers, k)
}

/// How many swaps are placed and obsolete files are dealt with.
pub open spec fn settled_at(task: ApplyTask, s: ApplyState, action: ApplyActionView) -> (int, int) {
    let n = s.swaps.len() as int;
    let d = task.index.delete_files.len() as int;
    match s.stage {
        ApplyStage::Swapping(i, step) => (
            if step == SwapStep::KeepBackup {
                i + 1
            } else {
                i as int
            },
            0,
        ),
        ApplyStage::FindingObsolete(i) => (n, i as int),
        ApplyStage::Deleting(i) => (n, i as int),
        ApplyStage::Recording(_) => (n, d),
        ApplyStage::Retiring => (n, d),
        ApplyStage::Discarding => (n, d),
        ApplyStage::Ended => if action is Finish {
            (n, d)
        } else {
            (0, 0)
        },
        _ => (0, 0),
    }
}

/// Whether a stage comes once every file is swapped in, and before the staging folder is moved away.
spec fn is_behind_swaps(stage: ApplyStage) -> bool {
    match stage {
        ApplyStage::FindingObsolete(_) => true,
        ApplyStage::Deleting(_) => true,
        ApplyStage::Recording(_) => true,
        ApplyStage::Retiring => true,
        _ => false,
    }
}

/// What was recorded, placed and counted at each stage.
spec fn is_settled(task: ApplyTask, answers: Seq<ApplyEventView>) -> bool {
    let (s, action) = run(task, answers);
    let at = settled_at(task, s, action);
    let over = s.stage == ApplyStage::Discarding || action is Finish;
    &&& swaps_below(task, answers, s, at.0)
    &&& obsolete_below(task, answers, at.1)
    &&& s.stage == ApplyStage::FindingLeftover || is_working(s.stage) || over ==> was_done(
        task,
        answers,
        closing_record(task),
    )
    &&& s.stage == ApplyStage::Recording(SwapStep::KeepBackup) || s.stage == ApplyStage::Retiring
        || over ==> was_placed(task, answers, task.record())
    &&& over <==> was_done(task, answers, retirement(task))
    &&& is_behind_swaps(s.stage) || over ==> s.report.swapped == s.swaps.len()
    &&& removals(task, answers) == s.report.deleted.map_values(
        |f: Seq<char>| paths::inside(task.game_folder, f),
    )
}

proof fn lemma_settled(task: ApplyTask, answers: Seq<ApplyEventView>)
    requires
        is_course(task, answers),
    ensures
        is_settled(task, answers),
    decreases answers.len(),
{
    let f = |f: Seq<char>| paths::inside(task.game_folder, f);
    lemma_asked(task, answers);
    if answers.len() == 0 {
        assert(removals(task, answers) =~= apply::empty_report().deleted.map_values(f));
    } else {
        let before = answers.drop_last();
        lemma_settled(task, before);
        lemma_asked(task, before);
        let (s, action) = run(task, before);
        let t = run(task, answers).0;
        let at = settled_at(task, s, action);
        if s.stage is Deleting {
            let file = task.index.delete_files[s.stage->Deleting_0 as int];
            assert(s.report.deleted.push(file).map_values(f) =~= s.report.deleted.map_values(
                f,
            ).push(f(file)));
        }
        assert forall|k: int| 0 <= k < at.1 implies #[trigger] obsolete_settled(
            task,
            answers,
            k,
        ) by {
            assert(obsolete_settled(task, before, k));
            if was_removed(task, before, obsolete_path(task, k)) {
                let to = choose|to: Seq<char>|
                    was_done(task, before, #[trigger] removal(obsolete_path(task, k), to));
                assert(was_done(task, answers, removal(obsolete_path(task, k), to)));
            }
        }
        lemma_settled_step(task, answers, s, action, t);
    }
}

/// What an event adds to what is dealt with.
proof fn lemma_settled_step(
    task: ApplyTask,
    answers: Seq<ApplyEventView>,
    s: ApplyState,
    action: ApplyActionView,
    t: ApplyState,
)
    requires
        answers.len() > 0,
        (s, action) == run(task, answers.drop_last()),
        t == run(task, answers).0,
        task.stands(s),
        task.stands(t),
        task.fits(t),
        is_settled(task, answers.drop_last()),
        is_asked(task, s, action),
        is_asked(task, t, run(task, answers).1),
        is_step(task, s, answers.last(), t, run(task, answers).1),
        task.answers(s.stage, answers.last()),
        obsolete_below(task, answers, settled_at(task, s, action).1),
        removals(task, answers) == t.report.deleted.map_values(
            |f: Seq<char>| paths::inside(task.game_folder, f),
        ),
    ensures
        is_settled(task, answers),
{
    let event = answers.last();
    let at = settled_at(task, s, action);
    assert(swaps_below(task, answers, s, at.0));
    if is_early(s.stage) || s.stage is Undoing {
    } else {
        assert(t.swaps == s.swaps);
        match s.stage {
            ApplyStage::Swapping(i, step) => {
                if step is Install && event is Done {
                    assert(was_placed(task, answers, s.swaps[i as int]));
                    assert(swaps_below(task, answers, t, i + 1));
                }
            },
            ApplyStage::FindingObsolete(i) => {
                if event == ApplyEventView::Exists(false) {
                    assert(missed(task, answers, obsolete_path(task, i as int)));
                    assert(obsolete_settled(task, answers, i as int));
                    assert(obsolete_below(task, answers, i + 1));
                }
            },
            ApplyStage::Deleting(i) => {
                if event is Done {
                    let path = obsolete_path(task, i as int);
                    assert(was_done(task, answers, removal(path, task.slot(s))));
                    assert(obsolete_settled(task, answers, i as int));
                    assert(obsolete_below(task, answers, i + 1));
                }
            },
            _ => {},
        }
    }
}

/// An update ends well only after the new version was recorded and the staging folder was moved out
/// of its place. Its report counts the files that were to be swapped in, all of which were, and names
/// those that were removed.
pub proof fn law_apply_finishes_complete(task: ApplyTask, answers: Seq<ApplyEventView>)
    requires
        is_course(task, answers),
        run(task, answers).1 is Finish,
    ensures
        was_recorded(task, answers),
        was_done(task, answers, retirement(task)),
        run(task, answers).1->Finish_0.swapped == run(task, answers).0.swaps.len(),
        forall|k: int|
            0 <= k < run(task, answers).0.swaps.len() ==> was_placed(
                task,
                answers,
                #[trigger] run(task, answers).0.swaps[k],
            ),
        run(task, answers).1->Finish_0.deleted.map_values(
            |f: Seq<char>| paths::inside(task.game_folder, f),
        ) == removals(task, answers),
{
    lemma_asked(task, answers);
    lemma_settled(task, answers);
}

/// Where an update ended well, the version that it recorded is the one on the server, and no update
/// is available any more.
pub proof fn law_applied_game_is_current(task: ApplyTask, answers: Seq<ApplyEventView>)
    requires
        is_course(task, answers),
        run(task, answers).1 is Finish,
    ensures
        was_recorded(task, answers),
        !game::is_behind(Some(closing_record(task)->config.version), task.to_version),
{
    lemma_asked(task, answers);
    lemma_settled(task, answers);
}

/// An update that fails leaves the staging folder in its place, so that it can be tried again.
pub proof fn law_failed_apply_keeps_staging(task: ApplyTask, answers: Seq<ApplyEventView>)
    requires
        is_course(task, answers),
        run(task, answers).1 is Fail,
    ensures
        !was_done(task, answers, retirement(task)),
{
    lemma_asked(task, answers);
    lemma_settled(task, answers);
}

/// The staging folder, and with it what is kept, is moved out of its place only once the new version
/// was recorded.
pub proof fn law_staging_goes_last(task: ApplyTask, answers: Seq<ApplyEventView>)
    requires
        is_course(task, answers),
        run(task, answers).1 is Retire,
    ensures
        was_recorded(task, answers),
{
    lemma_asked(task, answers);
    lemma_settled(task, answers);
}

proof fn lemma_counts(outcomes: Seq<GroupOutcomeView>)
    ensures
        apply::merged_count(outcomes) + apply::skipped_count(outcomes) + apply::fallback_count(
            outcomes,
        ) == outcomes.len(),
    decreases outcomes.len(),
{
    if outcomes.len() > 0 {
        lemma_counts(outcomes.drop_last());
    }
}

/// Once the groups are merged, the report counts each of them once: as merged, as applied before,
/// or as one with files that are fetched whole.
pub proof fn law_every_group_is_counted(task: ApplyTask, answers: Seq<ApplyEventView>)
    requires
        is_course(task, answers),
        run(task, answers).1.changes_game() || run(task, answers).1 is Finish,
    ensures
        ({
            let report = run(task, answers).0.report;
            report.merged + report.skipped + report.fallback == task.index.group_infos.len()
        }),
{
    lemma_asked(task, answers);
    lemma_counted(task, answers);
}

proof fn lemma_counted(task: ApplyTask, answers: Seq<ApplyEventView>)
    requires
        is_course(task, answers),
    ensures
        ({
            let (s, action) = run(task, answers);
            match s.stage {
                ApplyStage::Start => true,
                ApplyStage::FindingStaging => true,
                ApplyStage::Merging => true,
                _ => action is Fail || s.report.merged + s.report.skipped + s.report.fallback
                    == task.index.group_infos.len(),
            }
        }),
    decreases answers.len(),
{
    lemma_asked(task, answers);
    if answers.len() > 0 {
        let before = answers.drop_last();
        lemma_counted(task, before);
        lemma_asked(task, before);
        if answers.last() is Merged {
            lemma_counts(answers.last()->Merged_0);
        }
    }
}

/// Of the files whose patches failed each is fetched, and none is fetched twice.
pub proof fn law_each_file_is_fetched_once(files: Seq<FileRefView>)
    ensures
        forall|d: Seq<char>|
            #[trigger] apply::names(apply::first_of_each(files), d) <==> apply::names(files, d),
        forall|i: int, j: int|
            0 <= i < j < apply::first_of_each(files).len() ==> (#[trigger] apply::first_of_each(
                files,
            )[i]).dest != (#[trigger] apply::first_of_each(files)[j]).dest,
    decreases files.len(),
{
    if files.len() > 0 {
        let rest = files.drop_last();
        let last = files.last();
        let before = apply::first_of_each(rest);
        let after = apply::first_of_each(files);
        law_each_file_is_fetched_once(rest);
        assert forall|d: Seq<char>| #[trigger] apply::names(after, d) <==> apply::names(
            files,
            d,
        ) by {
            assert(apply::names(before, d) <==> apply::names(rest, d));
            if apply::names(rest, d) {
                let k = choose|k: int| 0 <= k < rest.len() && (#[trigger] rest[k]).dest == d;
                assert(files[k].dest == d);
                let m = choose|m: int| 0 <= m < before.len() && (#[trigger] before[m]).dest == d;
                assert(after[m].dest == d);
            }
            if apply::names(files, d) && !apply::names(rest, d) {
                let k = choose|k: int| 0 <= k < files.len() && (#[trigger] files[k]).dest == d;
                assert(k == rest.len() || rest[k].dest == d);
                assert(last.dest == d);
                assert(after[before.len() as int].dest == d);
            }
            if apply::names(after, d) && !apply::names(before, d) {
                let k = choose|k: int| 0 <= k < after.len() && (#[trigger] after[k]).dest == d;
                assert(k == before.len() || before[k].dest == d);
                assert(files[files.len() - 1].dest == d);
            }
        }
        assert forall|i: int, j: int| 0 <= i < j < after.len() implies (#[trigger] after[i]).dest
            != (#[trigger] after[j]).dest by {
            if j == before.len() {
                if before[i].dest == last.dest {
                    assert(apply::names(before, last.dest));
                }
            } else {
                assert(before[i].dest != before[j].dest);
            }
        }
    }
}

/// A merge puts its results where the update then looks for them.
pub proof fn law_merged_files_are_found(task: ApplyTask, merge: MergeTask, i: int)
    requires
        merge.staging == state::staging(task.game_folder),
        0 <= i < merge.count(),
    ensures
        merge.staged(i) == state::staged_output(task.game_folder, merge.group.dst_files[i].dest),
{
}

/// The result that stands for a file of a group.
pub proof fn lemma_results_have(groups: Seq<GroupInfoView>, skipped: Seq<bool>, g: int, d: int) -> (j:
    int)
    requires
        0 <= g < groups.len(),
        !skipped[g],
        0 <= d < groups[g].dst_files.len(),
    ensures
        0 <= j < apply::results(groups, skipped).len(),
        apply::results(groups, skipped)[j] == groups[g].dst_files[d],
    decreases groups.len(),
{
    let before = apply::results(groups.drop_last(), skipped);
    if g == groups.len() - 1 {
        before.len() + d
    } else {
        lemma_results_have(groups.drop_last(), skipped, g, d)
    }
}

/// Whether a file was put in place, staged by a group or fetched whole, after what was put there was
/// found to have this digest.
pub open spec fn was_placed_verified(
    task: ApplyTask,
    answers: Seq<ApplyEventView>,
    dest: Seq<char>,
    md5: Seq<char>,
) -> bool {
    exists|swap: SwapView| #[trigger] is_verified_swap(task, answers, swap, dest, md5) && was_placed(
        task,
        answers,
        swap,
    )
}

proof fn lemma_planned_is_placed(
    task: ApplyTask,
    answers: Seq<ApplyEventView>,
    dest: Seq<char>,
    md5: Seq<char>,
)
    requires
        is_course(task, answers),
        run(task, answers).1 is Finish,
        is_planned(task, answers, run(task, answers).0, dest, md5),
    ensures
        was_placed_verified(task, answers, dest, md5),
{
    law_apply_finishes_complete(task, answers);
    let s = run(task, answers).0;
    let k = choose|k: int|
        0 <= k < s.swaps.len() && #[trigger] is_verified_swap(
            task,
            answers,
            s.swaps[k],
            dest,
            md5,
        );
    assert(was_placed(task, answers, s.swaps[k]));
}

/// An update ends well only where every file of every group (but for the groups that were applied
/// before) was put in place after it was found to have the digest that the manifest gives; where
/// every other full file that was staged was, too; and where every obsolete file that was there was
/// removed.
pub proof fn law_applied_update_is_whole(task: ApplyTask, answers: Seq<ApplyEventView>)
    requires
        is_course(task, answers),
        run(task, answers).1 is Finish,
    ensures
        ({
            let s = run(task, answers).0;
            let groups = task.index.group_infos;
            let list = task.index.resource;
            &&& forall|g: int, d: int|
                0 <= g < groups.len() && !(#[trigger] s.skipped[g]) && 0 <= d
                    < groups[g].dst_files.len() ==> was_placed_verified(
                    task,
                    answers,
                    (#[trigger] groups[g].dst_files[d]).dest,
                    groups[g].dst_files[d].md5,
                )
            &&& forall|k: int|
                0 <= k < list.len() && #[trigger] task.is_loose(s.skipped, k) ==> {
                    ||| was_placed_verified(task, answers, list[k].dest, list[k].md5)
                    ||| not_found(
                        task,
                        answers,
                        state::staged_resource(task.game_folder, list[k].dest),
                    )
                }
            &&& forall|k: int|
                0 <= k < task.index.delete_files.len() ==> #[trigger] obsolete_settled(
                    task,
                    answers,
                    k,
                )
        }),
{
    lemma_asked(task, answers);
    lemma_settled(task, answers);
    lemma_plan_stands(task, answers);
    let s = run(task, answers).0;
    let groups = task.index.group_infos;
    let list = task.index.resource;
    assert forall|g: int, d: int|
        0 <= g < groups.len() && !(#[trigger] s.skipped[g]) && 0 <= d
            < groups[g].dst_files.len() implies was_placed_verified(
        task,
        answers,
        (#[trigger] groups[g].dst_files[d]).dest,
        groups[g].dst_files[d].md5,
    ) by {
        let j = lemma_results_have(groups, s.skipped, g, d);
        assert(result_planned(task, answers, s, j));
        lemma_planned_is_placed(
            task,
            answers,
            groups[g].dst_files[d].dest,
            groups[g].dst_files[d].md5,
        );
    }
    assert forall|k: int| 0 <= k < list.len() && #[trigger] task.is_loose(s.skipped, k) implies {
        ||| was_placed_verified(task, answers, list[k].dest, list[k].md5)
        ||| not_found(task, answers, state::staged_resource(task.game_folder, list[k].dest))
    } by {
        assert(file_planned(task, answers, s, k));
        if is_planned(task, answers, s, list[k].dest, list[k].md5) {
            lemma_planned_is_placed(task, answers, list[k].dest, list[k].md5);
        }
    }
}

}
