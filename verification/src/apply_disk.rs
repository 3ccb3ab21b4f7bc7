//! What an update does to a disk, from its start to its end.

use vstd::prelude::*;

use crate::apply;
use crate::apply::{ApplyActionView, ApplyEventView, ApplyStage, ApplyState, ApplyTask};
use crate::apply_laws::{
    is_course, is_early, is_verified_swap, is_working, lemma_asked, lemma_moves_stand,
    lemma_plan_stands, lemma_results_have, obsolete_path, result_planned, retirement, run, settled_at, undo_failed,
    was_verified,
};
use crate::atomic::Disk;
use crate::digest;
use crate::moves;
use crate::paths;
use crate::moves::{MoveView, SwapStep, SwapView};
use crate::state;

verus! {

/// Whether two disks hold the same but for what lies in a folder.
pub open spec fn same_outside(dir: Seq<char>, a: Disk, b: Disk) -> bool {
    forall|p: Seq<char>|
        !moves::is_under(dir, p) ==> (#[trigger] a.contains_key(p) <==> b.contains_key(p)) && (
        a.contains_key(p) ==> a[p] == b[p])
}

/// Whether an answer tells what an action did to a disk. A move that failed did nothing. Merging and
/// fetching write to the staging folder only.
pub open spec fn is_told(
    task: ApplyTask,
    action: ApplyActionView,
    event: ApplyEventView,
    before: Disk,
    after: Disk,
) -> bool {
    match action {
        ApplyActionView::Probe(p) => after == before && (event == ApplyEventView::Exists(false)
            ==> moves::is_free(before, p)),
        ApplyActionView::Digest(p) => after == before && match event {
            ApplyEventView::Digest(Some(md5)) => before.contains_key(p) && digest::md5_hex(
                before[p],
            ) == md5,
            ApplyEventView::Digest(None) => !before.contains_key(p),
            _ => true,
        },
        ApplyActionView::Rename { step, .. } => after == if event is Done {
            moves::moved(before, step)
        } else {
            before
        },
        ApplyActionView::Undo(m) => after == if event is Done {
            moves::moved(before, m.back())
        } else {
            before
        },
        ApplyActionView::Retire(m) => after == if event is Done {
            moves::moved(before, m)
        } else {
            before
        },
        ApplyActionView::Clear(p) => {
            &&& same_outside(p, before, after)
            &&& event is Done ==> moves::is_free(after, p)
        },
        ApplyActionView::StageRecord { path, .. } => forall|p: Seq<char>|
            p != path ==> (#[trigger] before.contains_key(p) <==> after.contains_key(p)) && (
            before.contains_key(p) ==> before[p] == after[p]),
        ApplyActionView::Discard(p) => same_outside(p, before, after),
        _ => same_outside(state::staging(task.game_folder), before, after),
    }
}

/// Whether the answers tell what became of a disk: how it was at first, and after each of them.
pub open spec fn is_history(task: ApplyTask, answers: Seq<ApplyEventView>, disks: Seq<Disk>) -> bool
    decreases answers.len(),
{
    &&& disks.len() == answers.len() + 1
    &&& answers.len() > 0 ==> {
        &&& is_history(task, answers.drop_last(), disks.drop_last())
        &&& is_told(
            task,
            run(task, answers.drop_last()).1,
            answers.last(),
            disks[disks.len() - 2],
            disks.last(),
        )
    }
}

/// Whether the files that are to be swapped in, and their backups, lie outside the staging folder and
/// do not hold it.
pub open spec fn lie_outside(task: ApplyTask, swaps: Seq<SwapView>) -> bool {
    let staging = state::staging(task.game_folder);
    forall|k: int|
        0 <= k < swaps.len() ==> moves::are_apart(staging, (#[trigger] swaps[k]).target)
            && moves::are_apart(staging, swaps[k].backup())
}

/// The disk before the first move.
spec fn base(task: ApplyTask, answers: Seq<ApplyEventView>, disks: Seq<Disk>) -> Disk
    decreases answers.len(),
{
    if answers.len() == 0 || run(task, answers).0.log.len() == 0 {
        disks.last()
    } else {
        base(task, answers.drop_last(), disks.drop_last())
    }
}

spec fn slots_free(task: ApplyTask, disk: Disk, n: nat) -> bool {
    forall|m: nat| m >= n ==> moves::is_free(disk, #[trigger] state::slot(task.game_folder, m))
}

/// What is free at a step of a swap.
spec fn is_way_free(disk: Disk, swap: SwapView, step: SwapStep) -> bool {
    match step {
        SwapStep::FindBackup(target) => !target ==> moves::is_free(disk, swap.target),
        SwapStep::MoveTarget => moves::is_free(disk, swap.backup()),
        SwapStep::Install(_) => moves::is_free(disk, swap.target),
        _ => true,
    }
}

/// What is known of the disk at each stage, until the staging folder is moved away.
spec fn is_disk_known(task: ApplyTask, answers: Seq<ApplyEventView>, disks: Seq<Disk>) -> bool {
    let (s, action) = run(task, answers);
    let now = disks.last();
    let first = base(task, answers, disks);
    s.stage == ApplyStage::Discarding || action is Finish || {
        &&& same_outside(state::staging(task.game_folder), disks[0], first)
        &&& moves::all_free(first, s.log)
        &&& match s.stage {
            ApplyStage::StagingRecord => slots_free(task, now, 0),
            ApplyStage::FindingLeftover => slots_free(task, now, 0),
            ApplyStage::Swapping(i, step) => is_way_free(now, s.swaps[i as int], step),
            ApplyStage::Recording(step) => is_way_free(now, task.record(), step),
            ApplyStage::Undoing(k) => now == moves::all_moved(first, s.log.take(k + 1)),
            ApplyStage::Ended => action is Fail ==> now == first,
            _ => true,
        }
        &&& is_working(s.stage) ==> now == moves::all_moved(first, s.log) && slots_free(
            task,
            now,
            s.log.len(),
        )
    }
}

proof fn lemma_same_outside(dir: Seq<char>, a: Disk, b: Disk, c: Disk)
    requires
        same_outside(dir, a, b),
        same_outside(dir, b, c),
    ensures
        same_outside(dir, a, c),
{
    assert forall|p: Seq<char>| !moves::is_under(dir, p) implies (#[trigger] a.contains_key(p)
        <==> c.contains_key(p)) && (a.contains_key(p) ==> a[p] == c[p]) by {
        assert(b.contains_key(p) || !b.contains_key(p));
    }
}

/// What happens before the first move happens in the staging folder.
proof fn lemma_early_disk(task: ApplyTask, answers: Seq<ApplyEventView>, disks: Seq<Disk>)
    requires
        answers.len() > 0,
        is_course(task, answers),
        is_history(task, answers, disks),
        is_disk_known(task, answers.drop_last(), disks.drop_last()),
        is_early(run(task, answers.drop_last()).0.stage),
    ensures
        is_disk_known(task, answers, disks),
{
    let before = answers.drop_last();
    let folder = task.game_folder;
    lemma_asked(task, answers);
    lemma_asked(task, before);
    lemma_moves_stand(task, before);
    state::lemma_slots(folder, 0);
    let (s, action) = run(task, before);
    let t = run(task, answers).0;
    let was = disks[disks.len() - 2];
    let now = disks.last();
    assert(disks.drop_last()[0] == disks[0]);
    assert(same_outside(state::staging(folder), was, now)) by {
        assert forall|p: Seq<char>| !moves::is_under(state::staging(folder), p) implies (
        #[trigger] was.contains_key(p) <==> now.contains_key(p)) && (was.contains_key(p) ==> was[p]
            == now[p]) by {
            if moves::is_under(state::kept_folder(folder), p) {
                moves::lemma_under_is_transitive(
                    state::staging(folder),
                    state::kept_folder(folder),
                    p,
                );
            }
        }
    }
    lemma_same_outside(state::staging(folder), disks[0], was, now);
    if s.stage == ApplyStage::Preparing && answers.last() is Done {
        assert forall|m: nat| m >= 0 implies moves::is_free(
            now,
            #[trigger] state::slot(folder, m),
        ) by {
            state::lemma_slots(folder, m);
            assert forall|q: Seq<char>| #[trigger] now.contains_key(q) implies !moves::is_under(
                state::slot(folder, m),
                q,
            ) by {
                if moves::is_under(state::slot(folder, m), q) {
                    moves::lemma_under_is_transitive(
                        state::kept_folder(folder),
                        state::slot(folder, m),
                        q,
                    );
                }
            }
        }
    }
    if s.stage == ApplyStage::StagingRecord {
        assert forall|m: nat| m >= 0 implies moves::is_free(
            now,
            #[trigger] state::slot(folder, m),
        ) by {
            state::lemma_slots(folder, m);
            assert(moves::is_free(was, state::slot(folder, m)));
            assert forall|q: Seq<char>| #[trigger] now.contains_key(q) implies !moves::is_under(
                state::slot(folder, m),
                q,
            ) by {
                if q != state::staged_config(folder) {
                    assert(was.contains_key(q));
                }
            }
        }
    }
    assert(t.log.len() == 0);
}

/// A move to a free place outside the staging folder, or to the next slot, is noted and leaves the
/// slots behind it free.
proof fn lemma_moved_disk(task: ApplyTask, first: Disk, log: Seq<MoveView>, now: Disk, m: MoveView)
    requires
        now == moves::all_moved(first, log),
        moves::all_free(first, log),
        slots_free(task, now, log.len()),
        moves::is_free(now, m.to),
        m.to == state::slot(task.game_folder, log.len()) || moves::are_apart(
            state::staging(task.game_folder),
            m.to,
        ),
    ensures
        moves::moved(now, m) == moves::all_moved(first, log.push(m)),
        moves::all_free(first, log.push(m)),
        slots_free(task, moves::moved(now, m), log.len() + 1),
{
    let folder = task.game_folder;
    assert(log.push(m).drop_last() =~= log);
    assert forall|k: nat| k >= log.len() + 1 implies moves::is_free(
        moves::moved(now, m),
        #[trigger] state::slot(folder, k),
    ) by {
        assert(moves::is_free(now, state::slot(folder, k)));
        if m.to == state::slot(folder, log.len()) {
            state::law_slots_are_apart(folder, log.len(), k);
        } else {
            state::lemma_slots(folder, k);
            moves::lemma_apart_inside(
                state::staging(folder),
                m.to,
                state::slot(folder, k),
            );
        }
        moves::lemma_stays_free(now, m, state::slot(folder, k));
    }
}

/// A step of a swap that is done frees the way for the next one.
proof fn lemma_way_frees(
    task: ApplyTask,
    swap: SwapView,
    step: SwapStep,
    event: ApplyEventView,
    was: Disk,
    now: Disk,
    n: nat,
)
    requires
        moves::are_apart(state::staging(task.game_folder), swap.target),
        moves::are_apart(state::staging(task.game_folder), swap.backup()),
        is_way_free(was, swap, step),
        step.is_look() ==> event is Exists && now == was && (event == ApplyEventView::Exists(false)
            ==> moves::is_free(was, swap.looked(step))),
        !step.is_look() ==> event is Done && now == moves::moved(
            was,
            swap.step_move(step, state::slot(task.game_folder, n)),
        ),
    ensures
        ({
            let next = step.after(event is Done || event == ApplyEventView::Exists(true));
            next is Some ==> is_way_free(now, swap, next->0)
        }),
{
    let folder = task.game_folder;
    moves::lemma_backup_is_apart(swap.target);
    state::lemma_slots(folder, n);
    moves::lemma_apart_inside(state::staging(folder), swap.backup(), state::slot(folder, n));
    if !step.is_look() {
        let m = swap.step_move(step, state::slot(folder, n));
        if step is ShelveBackup || step is MoveTarget {
            moves::lemma_leaves_free(was, m);
        }
    }
}

proof fn lemma_prefix_free(disk: Disk, log: Seq<MoveView>, n: int)
    requires
        0 <= n <= log.len(),
        moves::all_free(disk, log),
    ensures
        moves::all_free(disk, log.take(n)),
    decreases log.len(),
{
    if n < log.len() {
        assert(log.drop_last().take(n) =~= log.take(n));
        lemma_prefix_free(disk, log.drop_last(), n);
    } else {
        assert(log.take(n) =~= log);
    }
}

/// What happens from the first move on.
proof fn lemma_working_disk(task: ApplyTask, answers: Seq<ApplyEventView>, disks: Seq<Disk>)
    requires
        answers.len() > 0,
        is_course(task, answers),
        is_history(task, answers, disks),
        is_disk_known(task, answers.drop_last(), disks.drop_last()),
        is_working(run(task, answers.drop_last()).0.stage),
        lie_outside(task, run(task, answers).0.swaps),
    ensures
        is_disk_known(task, answers, disks),
{
    let before = answers.drop_last();
    let event = answers.last();
    let folder = task.game_folder;
    lemma_asked(task, answers);
    lemma_asked(task, before);
    state::lemma_outside_staging(folder);
    let (s, action) = run(task, before);
    let t = run(task, answers).0;
    let was = disks[disks.len() - 2];
    let now = disks.last();
    let first = base(task, before, disks.drop_last());
    assert(disks.drop_last()[0] == disks[0]);
    assert(disks.drop_last().last() == was);
    assert(t.swaps == s.swaps);
    assert(s.log.take(s.log.len() as int) =~= s.log);
    if task.is_move(s.stage) && event is Done {
        let m = task.ask(s)->step;
        assert(moves::is_free(was, state::slot(folder, s.log.len())));
        if let ApplyStage::Swapping(i, step) = s.stage {
            assert(moves::are_apart(state::staging(folder), s.swaps[i as int].target));
        }
        lemma_moved_disk(task, first, s.log, was, m);
    }
    if let ApplyStage::Swapping(i, step) = s.stage {
        if !(event is Failed) {
            assert(moves::are_apart(state::staging(folder), s.swaps[i as int].target));
            lemma_way_frees(task, s.swaps[i as int], step, event, was, now, s.log.len());
        }
    }
    if let ApplyStage::Recording(step) = s.stage {
        if !(event is Failed) {
            lemma_way_frees(task, task.record(), step, event, was, now, s.log.len());
        }
    }
    assert(t.log.len() > 0 ==> base(task, answers, disks) == first || s.log.len() == 0);
}

/// What taking moves back does.
proof fn lemma_undone_disk(task: ApplyTask, answers: Seq<ApplyEventView>, disks: Seq<Disk>)
    requires
        answers.len() > 0,
        is_course(task, answers),
        is_history(task, answers, disks),
        is_disk_known(task, answers.drop_last(), disks.drop_last()),
        run(task, answers.drop_last()).0.stage is Undoing,
        !undo_failed(task, answers),
    ensures
        is_disk_known(task, answers, disks),
{
    let before = answers.drop_last();
    lemma_asked(task, answers);
    lemma_asked(task, before);
    let s = run(task, before).0;
    let k = s.stage->Undoing_0 as int;
    let first = base(task, before, disks.drop_last());
    assert(disks.drop_last()[0] == disks[0]);
    assert(disks.drop_last().last() == disks[disks.len() - 2]);
    lemma_prefix_free(first, s.log, k + 1);
    moves::law_moves_back_restore(first, s.log.take(k + 1));
    assert(s.log.take(k + 1).drop_last() =~= s.log.take(k));
    assert(s.log.take(k + 1).last() == s.log[k]);
    assert(s.log.take(0) =~= Seq::<MoveView>::empty());
}

proof fn lemma_disk(task: ApplyTask, answers: Seq<ApplyEventView>, disks: Seq<Disk>)
    requires
        is_course(task, answers),
        is_history(task, answers, disks),
        !undo_failed(task, answers),
        lie_outside(task, run(task, answers).0.swaps),
    ensures
        is_disk_known(task, answers, disks),
    decreases answers.len(),
{
    lemma_asked(task, answers);
    if answers.len() > 0 {
        let before = answers.drop_last();
        lemma_asked(task, before);
        let s = run(task, before).0;
        let t = run(task, answers).0;
        assert forall|k: int| 0 <= k < s.swaps.len() implies moves::are_apart(
            state::staging(task.game_folder),
            (#[trigger] s.swaps[k]).target,
        ) && moves::are_apart(state::staging(task.game_folder), s.swaps[k].backup()) by {
            assert(t.swaps[k] == s.swaps[k]);
        }
        lemma_disk(task, before, disks.drop_last());
        if is_early(s.stage) {
            lemma_early_disk(task, answers, disks);
        } else if is_working(s.stage) {
            lemma_working_disk(task, answers, disks);
        } else if s.stage is Undoing {
            lemma_undone_disk(task, answers, disks);
        } else {
            assert(disks.drop_last()[0] == disks[0]);
        }
    }
}

/// An update that fails leaves every file of the game as it was, whatever step failed: outside the
/// staging folder nothing was added, removed or changed. (What could not be taken back, because that
/// failed too, is left out; so is an update that swaps files into its own staging folder.)
pub proof fn law_failed_apply_restores_disk(
    task: ApplyTask,
    answers: Seq<ApplyEventView>,
    disks: Seq<Disk>,
)
    requires
        is_course(task, answers),
        is_history(task, answers, disks),
        run(task, answers).1 is Fail,
        !undo_failed(task, answers),
        lie_outside(task, run(task, answers).0.swaps),
    ensures
        same_outside(state::staging(task.game_folder), disks[0], disks.last()),
{
    lemma_asked(task, answers);
    lemma_disk(task, answers, disks);
}

proof fn lemma_staging_gone(task: ApplyTask, answers: Seq<ApplyEventView>, disks: Seq<Disk>)
    requires
        is_course(task, answers),
        is_history(task, answers, disks),
    ensures
        run(task, answers).0.stage == ApplyStage::Discarding || run(task, answers).1 is Finish
            ==> moves::is_free(disks.last(), state::staging(task.game_folder)),
    decreases answers.len(),
{
    let folder = task.game_folder;
    lemma_asked(task, answers);
    if answers.len() > 0 {
        let before = answers.drop_last();
        lemma_asked(task, before);
        lemma_staging_gone(task, before, disks.drop_last());
        state::lemma_outside_staging(folder);
        let s = run(task, before).0;
        let was = disks[disks.len() - 2];
        let now = disks.last();
        if s.stage == ApplyStage::Retiring && answers.last() is Done {
            moves::lemma_leaves_free(was, retirement(task)->Retire_0);
        }
        if s.stage == ApplyStage::Discarding {
            assert forall|q: Seq<char>| #[trigger] now.contains_key(q) implies !moves::is_under(
                state::staging(folder),
                q,
            ) by {
                if moves::is_under(state::staging(folder), q) {
                    if moves::is_under(state::discarded(folder), q) {
                        moves::lemma_apart(state::discarded(folder), state::staging(folder), q);
                    }
                    assert(was.contains_key(q));
                }
            }
        }
    }
}

/// Where an update ended well, nothing lies at the place of the staging folder, or below it.
pub proof fn law_applied_update_leaves_no_staging(
    task: ApplyTask,
    answers: Seq<ApplyEventView>,
    disks: Seq<Disk>,
)
    requires
        is_course(task, answers),
        is_history(task, answers, disks),
        run(task, answers).1 is Finish,
    ensures
        moves::is_free(disks.last(), state::staging(task.game_folder)),
{
    lemma_staging_gone(task, answers, disks);
}

/// Whether the files of an update do not get in one another's way: what is staged, what it replaces,
/// what is removed and what is recorded have places of their own.
pub open spec fn have_own_places(task: ApplyTask, swaps: Seq<SwapView>) -> bool {
    let folder = task.game_folder;
    let gone = task.index.delete_files;
    &&& lie_outside(task, swaps)
    &&& forall|k: int|
        0 <= k < swaps.len() ==> moves::are_apart(
            state::kept_folder(folder),
            (#[trigger] swaps[k]).staged,
        ) && moves::are_apart(swaps[k].target, state::discarded(folder)) && moves::are_apart(
            swaps[k].target,
            task.record().target,
        ) && moves::are_apart(swaps[k].target, task.record().backup())
    &&& forall|k: int, l: int|
        0 <= k < swaps.len() && 0 <= l < swaps.len() && k != l ==> moves::are_apart(
            (#[trigger] swaps[k]).staged,
            (#[trigger] swaps[l]).staged,
        ) && moves::are_apart(swaps[k].target, swaps[l].target) && moves::are_apart(
            swaps[k].target,
            swaps[l].backup(),
        )
    &&& forall|k: int, i: int|
        0 <= k < swaps.len() && 0 <= i < gone.len() ==> moves::are_apart(
            (#[trigger] swaps[k]).target,
            paths::inside(folder, #[trigger] gone[i]),
        )
}

/// Whether a file of a disk has a digest; an empty one matches any.
pub open spec fn has_digest(disk: Disk, path: Seq<char>, md5: Seq<char>) -> bool {
    disk.contains_key(path) && apply::is_good(Some(digest::md5_hex(disk[path])), md5)
}

/// Where the file of the swap at `k` is.
spec fn place(task: ApplyTask, s: ApplyState, action: ApplyActionView, k: int) -> Seq<char> {
    if k < settled_at(task, s, action).0 {
        s.swaps[k].target
    } else {
        s.swaps[k].staged
    }
}

/// The stages at which files are hashed.
spec fn is_checking(stage: ApplyStage) -> bool {
    stage is CheckingFull || stage is CheckingOutput || stage is CheckingFile
}

/// The stages from the last digest to the end.
spec fn is_decided(stage: ApplyStage, action: ApplyActionView) -> bool {
    ||| stage == ApplyStage::Preparing
    ||| stage == ApplyStage::StagingRecord
    ||| stage == ApplyStage::FindingLeftover
    ||| is_working(stage)
    ||| stage == ApplyStage::Discarding
    ||| action is Finish
}

/// The swaps take their files out of the staging folder.
proof fn lemma_swaps_are_staged(task: ApplyTask, answers: Seq<ApplyEventView>)
    requires
        is_course(task, answers),
    ensures
        forall|k: int|
            0 <= k < run(task, answers).0.swaps.len() ==> moves::is_under(
                state::staging(task.game_folder),
                (#[trigger] run(task, answers).0.swaps[k]).staged,
            ),
    decreases answers.len(),
{
    lemma_asked(task, answers);
    if answers.len() > 0 {
        let before = answers.drop_last();
        lemma_swaps_are_staged(task, before);
        lemma_asked(task, before);
        let s = run(task, before).0;
        match s.stage {
            ApplyStage::CheckingFull(j) => {
                state::lemma_staged_is_staged(
                    task.game_folder,
                    task.results(s.skipped)[j as int].dest,
                );
            },
            ApplyStage::CheckingOutput(j) => {
                state::lemma_staged_is_staged(
                    task.game_folder,
                    task.results(s.skipped)[j as int].dest,
                );
            },
            ApplyStage::CheckingFile(k) => {
                state::lemma_staged_is_staged(
                    task.game_folder,
                    task.index.resource[k as int].dest,
                );
            },
            _ => {},
        }
    }
}

/// Until it is hashed nothing is known of a file; while files are hashed, all that were have the
/// digests that they were found to have; and from then on those that are swapped in keep theirs,
/// where they are.
spec fn digests_stand(task: ApplyTask, answers: Seq<ApplyEventView>, disks: Seq<Disk>) -> bool {
    let (s, action) = run(task, answers);
    let now = disks.last();
    if is_checking(s.stage) {
        forall|p: Seq<char>, md5: Seq<char>|
            #[trigger] was_verified(task, answers, p, md5) ==> has_digest(now, p, md5)
    } else if is_decided(s.stage, action) {
        forall|k: int, md5: Seq<char>|
            0 <= k < s.swaps.len() && #[trigger] was_verified(task, answers, s.swaps[k].staged, md5)
                ==> has_digest(now, place(task, s, action, k), md5)
    } else if is_early(s.stage) {
        forall|p: Seq<char>, md5: Seq<char>| !(#[trigger] was_verified(task, answers, p, md5))
    } else {
        true
    }
}

/// A move leaves alone what is apart from where it starts and where it goes.
proof fn lemma_move_leaves(disk: Disk, m: MoveView, p: Seq<char>)
    requires
        moves::are_apart(m.from, p),
        moves::are_apart(m.to, p),
    ensures
        moves::moved(disk, m).contains_key(p) <==> disk.contains_key(p),
        disk.contains_key(p) ==> moves::moved(disk, m)[p] == disk[p],
{
}

/// Where the file of a swap is, is apart from the places of the other swaps and from the slots.
proof fn lemma_place_is_apart(
    task: ApplyTask,
    s: ApplyState,
    action: ApplyActionView,
    k: int,
    n: nat,
)
    requires
        have_own_places(task, s.swaps),
        0 <= k < s.swaps.len(),
        forall|l: int|
            0 <= l < s.swaps.len() ==> moves::is_under(
                state::staging(task.game_folder),
                (#[trigger] s.swaps[l]).staged,
            ),
    ensures
        ({
            let p = place(task, s, action, k);
            let folder = task.game_folder;
            &&& moves::are_apart(state::slot(folder, n), p)
            &&& moves::are_apart(state::staged_config(folder), p)
            &&& moves::are_apart(task.record().target, p)
            &&& moves::are_apart(task.record().backup(), p)
            &&& moves::are_apart(state::discarded(folder), p)
            &&& forall|l: int|
                0 <= l < s.swaps.len() && l != k ==> moves::are_apart(
                    (#[trigger] s.swaps[l]).staged,
                    p,
                ) && moves::are_apart(s.swaps[l].target, p) && moves::are_apart(
                    s.swaps[l].backup(),
                    p,
                )
        }),
{
    let folder = task.game_folder;
    let staging = state::staging(folder);
    let kept = state::kept_folder(folder);
    let swap = s.swaps[k];
    state::lemma_slots(folder, n);
    state::lemma_outside_staging(folder);
    if k < settled_at(task, s, action).0 {
        moves::lemma_apart_inside(staging, swap.target, state::slot(folder, n));
        moves::lemma_apart_inside(staging, swap.target, state::staged_config(folder));
        assert forall|l: int| 0 <= l < s.swaps.len() && l != k implies moves::are_apart(
            (#[trigger] s.swaps[l]).staged,
            swap.target,
        ) && moves::are_apart(s.swaps[l].target, swap.target) && moves::are_apart(
            s.swaps[l].backup(),
            swap.target,
        ) by {
            moves::lemma_apart_inside(staging, swap.target, s.swaps[l].staged);
            assert(moves::are_apart(s.swaps[k].target, s.swaps[l].target));
        }
    } else {
        moves::lemma_apart_inside(kept, swap.staged, state::slot(folder, n));
        moves::lemma_apart_inside(kept, swap.staged, state::staged_config(folder));
        moves::lemma_apart_inside(staging, task.record().target, swap.staged);
        moves::lemma_apart_inside(staging, task.record().backup(), swap.staged);
        moves::lemma_apart_inside(staging, state::discarded(folder), swap.staged);
        assert forall|l: int| 0 <= l < s.swaps.len() && l != k implies moves::are_apart(
            (#[trigger] s.swaps[l]).staged,
            swap.staged,
        ) && moves::are_apart(s.swaps[l].target, swap.staged) && moves::are_apart(
            s.swaps[l].backup(),
            swap.staged,
        ) by {
            moves::lemma_apart_inside(staging, s.swaps[l].target, swap.staged);
            moves::lemma_apart_inside(staging, s.swaps[l].backup(), swap.staged);
            assert(moves::are_apart(s.swaps[k].staged, s.swaps[l].staged));
        }
    }
}

/// A file that is swapped in keeps its digest through an event.
proof fn lemma_digest_stays(
    task: ApplyTask,
    answers: Seq<ApplyEventView>,
    disks: Seq<Disk>,
    k: int,
    md5: Seq<char>,
)
    requires
        answers.len() > 0,
        is_course(task, answers),
        is_history(task, answers, disks),
        is_decided(run(task, answers.drop_last()).0.stage, run(task, answers.drop_last()).1),
        is_decided(run(task, answers).0.stage, run(task, answers).1),
        have_own_places(task, run(task, answers).0.swaps),
        0 <= k < run(task, answers).0.swaps.len(),
        ({
            let (s, action) = run(task, answers.drop_last());
            has_digest(disks[disks.len() - 2], place(task, s, action, k), md5)
        }),
    ensures
        ({
            let (t, next) = run(task, answers);
            has_digest(disks.last(), place(task, t, next, k), md5)
        }),
{
    let before = answers.drop_last();
    let event = answers.last();
    let folder = task.game_folder;
    lemma_asked(task, answers);
    lemma_asked(task, before);
    lemma_swaps_are_staged(task, answers);
    let (s, action) = run(task, before);
    let (t, next) = run(task, answers);
    let was = disks[disks.len() - 2];
    let now = disks.last();
    let p = place(task, s, action, k);
    assert(t.swaps == s.swaps);
    let swap = s.swaps[k];
    lemma_place_is_apart(task, s, action, k, s.log.len());
    moves::lemma_backup_is_apart(swap.target);
    state::lemma_slots(folder, s.log.len());
    let staging = state::staging(folder);
    moves::lemma_apart_inside(staging, swap.target, swap.staged);
    moves::lemma_apart_inside(staging, swap.backup(), swap.staged);
    moves::lemma_apart_inside(staging, swap.target, state::slot(folder, s.log.len()));
    match s.stage {
        ApplyStage::Preparing => {},
        ApplyStage::StagingRecord => {
            assert(p != state::staged_config(folder));
        },
        ApplyStage::Swapping(i, step) => {
            if event is Done {
                let m = task.ask(s)->step;
                if k == i && step is Install {
                    assert(swap.staged + swap.target.skip(swap.target.len() as int)
                        =~= swap.staged);
                    assert(now.contains_key(swap.target));
                } else {
                    lemma_move_leaves(was, m, p);
                }
            }
        },
        ApplyStage::Deleting(i) => {
            if event is Done {
                let path = task.index.delete_files[i as int];
                assert(moves::are_apart(s.swaps[k].target, paths::inside(folder, path)));
                lemma_move_leaves(was, task.ask(s)->step, p);
            }
        },
        ApplyStage::Retiring => {
            if event is Done {
                lemma_move_leaves(was, retirement(task)->Retire_0, p);
            }
        },
        ApplyStage::Discarding => {},
        _ => {
            if task.is_move(s.stage) && event is Done {
                lemma_move_leaves(was, task.ask(s)->step, p);
            }
        },
    }
}

proof fn lemma_digests_stand(task: ApplyTask, answers: Seq<ApplyEventView>, disks: Seq<Disk>)
    requires
        is_course(task, answers),
        is_history(task, answers, disks),
        have_own_places(task, run(task, answers).0.swaps),
    ensures
        digests_stand(task, answers, disks),
    decreases answers.len(),
{
    lemma_asked(task, answers);
    if answers.len() > 0 {
        let before = answers.drop_last();
        lemma_asked(task, before);
        let (s, action) = run(task, before);
        let (t, next) = run(task, answers);
        lemma_own_places_before(task, s, t);
        lemma_digests_stand(task, before, disks.drop_last());
        assert(disks.drop_last().last() == disks[disks.len() - 2]);
        if is_decided(s.stage, action) && is_decided(t.stage, next) {
            assert forall|k: int, md5: Seq<char>|
                0 <= k < t.swaps.len() && #[trigger] was_verified(
                    task,
                    answers,
                    t.swaps[k].staged,
                    md5,
                ) implies has_digest(disks.last(), place(task, t, next, k), md5) by {
                assert(was_verified(task, before, s.swaps[k].staged, md5));
                lemma_digest_stays(task, answers, disks, k, md5);
            }
        } else if is_checking(s.stage) {
            assert forall|p: Seq<char>, md5: Seq<char>| #[trigger] was_verified(
                task,
                answers,
                p,
                md5,
            ) implies has_digest(disks.last(), p, md5) by {
                if was_verified(task, before, p, md5) {
                    assert(has_digest(disks[disks.len() - 2], p, md5));
                }
            }
        } else if is_early(s.stage) && !is_decided(s.stage, action) {
            assert forall|p: Seq<char>, md5: Seq<char>| !(#[trigger] was_verified(
                task,
                answers,
                p,
                md5,
            )) by {
                assert(!was_verified(task, before, p, md5));
            }
        }
    }
}

proof fn lemma_own_places_before(task: ApplyTask, s: ApplyState, t: ApplyState)
    requires
        have_own_places(task, t.swaps),
        s.swaps.len() <= t.swaps.len(),
        forall|k: int| 0 <= k < s.swaps.len() ==> #[trigger] s.swaps[k] == t.swaps[k],
    ensures
        have_own_places(task, s.swaps),
{
}

/// Where an update ended well, every file of every group (but for the groups that were applied
/// before) is in its place and has the digest that the manifest gives, as long as the files of the
/// update do not get in one another's way.
pub proof fn law_applied_files_are_verified(
    task: ApplyTask,
    answers: Seq<ApplyEventView>,
    disks: Seq<Disk>,
    g: int,
    d: int,
)
    requires
        is_course(task, answers),
        is_history(task, answers, disks),
        run(task, answers).1 is Finish,
        have_own_places(task, run(task, answers).0.swaps),
        0 <= g < task.index.group_infos.len(),
        !run(task, answers).0.skipped[g],
        0 <= d < task.index.group_infos[g].dst_files.len(),
    ensures
        ({
            let file = task.index.group_infos[g].dst_files[d];
            has_digest(disks.last(), paths::inside(task.game_folder, file.dest), file.md5)
        }),
{
    let s = run(task, answers).0;
    let action = run(task, answers).1;
    lemma_asked(task, answers);
    lemma_plan_stands(task, answers);
    lemma_digests_stand(task, answers, disks);
    let j = lemma_results_have(task.index.group_infos, s.skipped, g, d);
    assert(result_planned(task, answers, s, j));
    let file = task.results(s.skipped)[j];
    let k = choose|k: int|
        0 <= k < s.swaps.len() && #[trigger] is_verified_swap(
            task,
            answers,
            s.swaps[k],
            file.dest,
            file.md5,
        );
    assert(was_verified(task, answers, s.swaps[k].staged, file.md5));
    assert(has_digest(disks.last(), place(task, s, action, k), file.md5));
}

/// Whether an obsolete file lies apart from what an update puts in place after it is removed.
pub open spec fn is_out_of_the_way(task: ApplyTask, path: Seq<char>) -> bool {
    &&& moves::are_apart(state::staging(task.game_folder), path)
    &&& moves::are_apart(state::discarded(task.game_folder), path)
    &&& moves::are_apart(task.record().target, path)
    &&& moves::are_apart(task.record().backup(), path)
}

proof fn lemma_obsolete_free(
    task: ApplyTask,
    answers: Seq<ApplyEventView>,
    disks: Seq<Disk>,
    k: int,
)
    requires
        is_course(task, answers),
        is_history(task, answers, disks),
        0 <= k < settled_at(task, run(task, answers).0, run(task, answers).1).1,
        is_out_of_the_way(task, obsolete_path(task, k)),
    ensures
        moves::is_free(disks.last(), obsolete_path(task, k)),
    decreases answers.len(),
{
    let folder = task.game_folder;
    let path = obsolete_path(task, k);
    lemma_asked(task, answers);
    if answers.len() > 0 {
        let before = answers.drop_last();
        lemma_asked(task, before);
        let (s, action) = run(task, before);
        let event = answers.last();
        let was = disks[disks.len() - 2];
        let now = disks.last();
        assert(disks.drop_last().last() == was);
        state::lemma_slots(folder, s.log.len());
        moves::lemma_apart_inside(state::staging(folder), path, state::slot(folder, s.log.len()));
        if k < settled_at(task, s, action).1 {
            lemma_obsolete_free(task, before, disks.drop_last(), k);
            if task.is_move(s.stage) && event is Done {
                moves::lemma_stays_free(was, task.ask(s)->step, path);
            }
            if s.stage == ApplyStage::Retiring && event is Done {
                moves::lemma_stays_free(was, retirement(task)->Retire_0, path);
            }
            if s.stage == ApplyStage::Discarding {
                assert forall|q: Seq<char>| #[trigger] now.contains_key(q) implies !moves::is_under(
                    path,
                    q,
                ) by {
                    if moves::is_under(path, q) {
                        if moves::is_under(state::discarded(folder), q) {
                            moves::lemma_apart(state::discarded(folder), path, q);
                        }
                        assert(was.contains_key(q));
                    }
                }
            }
        } else if s.stage is Deleting {
            moves::lemma_leaves_free(was, task.ask(s)->step);
        }
    }
}

/// Where an update ended well, no obsolete file is there any more.
pub proof fn law_obsolete_files_are_gone(
    task: ApplyTask,
    answers: Seq<ApplyEventView>,
    disks: Seq<Disk>,
    k: int,
)
    requires
        is_course(task, answers),
        is_history(task, answers, disks),
        run(task, answers).1 is Finish,
        0 <= k < task.index.delete_files.len(),
        is_out_of_the_way(task, obsolete_path(task, k)),
    ensures
        moves::is_free(disks.last(), obsolete_path(task, k)),
{
    lemma_asked(task, answers);
    lemma_obsolete_free(task, answers, disks, k);
}

}
