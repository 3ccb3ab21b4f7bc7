//! Moves of files that can be taken back, and the steps in which a staged file replaces another one.
//!
//! The old file is first moved beside its place as `.bak`, then the new one moves in, then the backup
//! moves to where old files are kept. Every step is one rename, so a step that fails has changed
//! nothing, and what was done is undone by the same renames the other way, the newest first.

use vstd::prelude::*;

use crate::atomic;
use crate::atomic::Disk;
use crate::paths;

verus! {

/// A rename.
#[derive(Debug)]
pub struct Move {
    pub from: String,
    pub to: String,
}

/// The model of [`Move`].
#[verifier::ext_equal]
pub struct MoveView {
    pub from: Seq<char>,
    pub to: Seq<char>,
}

impl DeepView for Move {
    type V = MoveView;

    open spec fn deep_view(&self) -> MoveView {
        MoveView { from: self.from@, to: self.to@ }
    }
}

impl Clone for Move {
    fn clone(&self) -> (r: Self)
        ensures
            r.deep_view() == self.deep_view(),
            r.from@ == self.from@,
            r.to@ == self.to@,
    {
        Move { from: self.from.clone(), to: self.to.clone() }
    }
}

impl MoveView {
    /// The move the other way.
    pub open spec fn back(self) -> MoveView {
        MoveView { from: self.to, to: self.from }
    }
}

/// Whether a path is a folder or something below it.
pub open spec fn is_under(dir: Seq<char>, p: Seq<char>) -> bool {
    p == dir || (p.len() > dir.len() && p.take(dir.len() as int) == dir && p[dir.len() as int]
        == '/')
}

/// Whether neither of two paths is the other one or below it.
pub open spec fn are_apart(a: Seq<char>, b: Seq<char>) -> bool {
    !is_under(a, b) && !is_under(b, a)
}

/// Whether nothing lies at a path or below it.
pub open spec fn is_free(disk: Disk, p: Seq<char>) -> bool {
    forall|q: Seq<char>| #[trigger] disk.contains_key(q) ==> !is_under(p, q)
}

/// A disk after a move: whatever lay at a path or below it lies at the other path now, in the place
/// of what was there.
pub open spec fn moved(disk: Disk, m: MoveView) -> Disk {
    Map::new(
        |p: Seq<char>|
            if is_under(m.to, p) {
                disk.contains_key(m.from + p.skip(m.to.len() as int))
            } else {
                disk.contains_key(p) && !is_under(m.from, p)
            },
        |p: Seq<char>|
            if is_under(m.to, p) {
                disk[m.from + p.skip(m.to.len() as int)]
            } else {
                disk[p]
            },
    )
}

/// A disk after moves, one after the other.
pub open spec fn all_moved(disk: Disk, log: Seq<MoveView>) -> Disk
    decreases log.len(),
{
    if log.len() == 0 {
        disk
    } else {
        moved(all_moved(disk, log.drop_last()), log.last())
    }
}

/// Whether each of some moves goes where nothing lies, once those before it are made.
pub open spec fn all_free(disk: Disk, log: Seq<MoveView>) -> bool
    decreases log.len(),
{
    log.len() > 0 ==> all_free(disk, log.drop_last()) && is_free(
        all_moved(disk, log.drop_last()),
        log.last().to,
    )
}

/// What is below a folder is below it in any other place too.
proof fn lemma_rebased(dir: Seq<char>, other: Seq<char>, p: Seq<char>)
    requires
        is_under(dir, p),
    ensures
        p == dir + p.skip(dir.len() as int),
        is_under(other, other + p.skip(dir.len() as int)),
        (other + p.skip(dir.len() as int)).skip(other.len() as int) == p.skip(dir.len() as int),
{
    let rest = p.skip(dir.len() as int);
    let q = other + rest;
    assert(p =~= dir + rest);
    assert(q.skip(other.len() as int) =~= rest);
    if p == dir {
        assert(q =~= other);
    } else {
        assert(q.take(other.len() as int) =~= other);
        assert(q[other.len() as int] == rest[0]);
    }
}

/// A move to where nothing lay, made and then made the other way, leaves every file as it was.
pub proof fn law_move_back_restores(disk: Disk, m: MoveView)
    requires
        is_free(disk, m.to),
    ensures
        moved(moved(disk, m), m.back()) == disk,
{
    let there = moved(disk, m);
    let back = moved(there, m.back());
    assert forall|p: Seq<char>| back.contains_key(p) <==> disk.contains_key(p) by {
        if is_under(m.from, p) {
            lemma_rebased(m.from, m.to, p);
        }
    }
    assert forall|p: Seq<char>| back.contains_key(p) implies back[p] == disk[p] by {
        if is_under(m.from, p) {
            lemma_rebased(m.from, m.to, p);
        }
    }
    assert(back =~= disk);
}

/// Two folders that are apart have nothing in common.
pub proof fn lemma_apart(a: Seq<char>, b: Seq<char>, p: Seq<char>)
    requires
        is_under(a, p),
        is_under(b, p),
    ensures
        !are_apart(a, b),
{
    if a.len() <= b.len() {
        assert(b.take(a.len() as int) =~= a) by {
            assert(p.take(b.len() as int).take(a.len() as int) =~= p.take(a.len() as int));
        }
        if a.len() < b.len() {
            assert(b[a.len() as int] == p[a.len() as int]);
        } else {
            assert(a =~= b);
        }
    } else {
        assert(a.take(b.len() as int) =~= b) by {
            assert(p.take(a.len() as int).take(b.len() as int) =~= p.take(b.len() as int));
        }
        assert(a[b.len() as int] == p[b.len() as int]);
    }
}

/// What is below a folder that is below another one is below that one.
pub proof fn lemma_under_is_transitive(a: Seq<char>, b: Seq<char>, p: Seq<char>)
    requires
        is_under(a, b),
        is_under(b, p),
    ensures
        is_under(a, p),
{
    if a != b && b != p {
        assert(p.take(a.len() as int) =~= p.take(b.len() as int).take(a.len() as int));
        assert(p[a.len() as int] == p.take(b.len() as int)[a.len() as int]);
    }
}

/// What is apart from a folder is apart from what lies in it.
pub proof fn lemma_apart_inside(dir: Seq<char>, a: Seq<char>, p: Seq<char>)
    requires
        are_apart(dir, a),
        is_under(dir, p),
    ensures
        are_apart(a, p),
{
    if is_under(a, p) {
        lemma_apart(dir, a, p);
    }
    if is_under(p, a) {
        lemma_under_is_transitive(dir, p, a);
    }
}

/// A relative path seen from a folder is below it.
pub proof fn lemma_joined_is_under(base: Seq<char>, rel: Seq<char>)
    requires
        base.len() > 0,
        base.last() != '/',
        rel.len() == 0 || rel[0] != '/',
    ensures
        is_under(base, paths::joined(base, rel)),
        paths::joined(base, rel).skip((base.len() + 1) as int) == rel,
{
    reveal_strlit("/");
    let p = base + "/"@ + rel;
    assert(p.take(base.len() as int) =~= base);
    assert(p[base.len() as int] == '/');
    assert(p.skip((base.len() + 1) as int) =~= rel);
}

/// Two names without a slash in one folder are apart where they differ.
pub proof fn lemma_names_are_apart(base: Seq<char>, a: Seq<char>, b: Seq<char>)
    requires
        base.len() > 0,
        base.last() != '/',
        a != b,
        forall|i: int| 0 <= i < a.len() ==> #[trigger] a[i] != '/',
        forall|i: int| 0 <= i < b.len() ==> #[trigger] b[i] != '/',
    ensures
        are_apart(paths::joined(base, a), paths::joined(base, b)),
{
    reveal_strlit("/");
    lemma_joined_is_under(base, a);
    lemma_joined_is_under(base, b);
    let p = paths::joined(base, a);
    let q = paths::joined(base, b);
    let n = base.len() + 1;
    assert(p.len() == n + a.len() && q.len() == n + b.len());
    assert(forall|i: int| 0 <= i < a.len() ==> #[trigger] a[i] == p[n + i]);
    assert(forall|i: int| 0 <= i < b.len() ==> #[trigger] b[i] == q[n + i]);
    if is_under(p, q) && p != q {
        assert(q[p.len() as int] == b[p.len() - n]);
    }
    if is_under(q, p) && p != q {
        assert(p[q.len() as int] == a[q.len() - n]);
    }
}

/// A move leaves free what is free and apart from where it goes.
pub proof fn lemma_stays_free(disk: Disk, m: MoveView, p: Seq<char>)
    requires
        is_free(disk, p),
        are_apart(m.to, p),
    ensures
        is_free(moved(disk, m), p),
{
    assert forall|q: Seq<char>| #[trigger] moved(disk, m).contains_key(q) implies !is_under(p, q) by {
        if is_under(p, q) {
            if is_under(m.to, q) {
                lemma_apart(m.to, p, q);
            } else {
                assert(disk.contains_key(q));
            }
        }
    }
}

/// A move frees the place that it leaves.
pub proof fn lemma_leaves_free(disk: Disk, m: MoveView)
    requires
        are_apart(m.from, m.to),
    ensures
        is_free(moved(disk, m), m.from),
{
    assert forall|q: Seq<char>| #[trigger] moved(disk, m).contains_key(q) implies !is_under(
        m.from,
        q,
    ) by {
        if is_under(m.from, q) && is_under(m.to, q) {
            lemma_apart(m.from, m.to, q);
        }
    }
}

/// Moves that each went where nothing lay leave every file as it was once they are made the other
/// way, the newest first.
pub proof fn law_moves_back_restore(disk: Disk, log: Seq<MoveView>)
    requires
        log.len() > 0,
        all_free(disk, log),
    ensures
        moved(all_moved(disk, log), log.last().back()) == all_moved(disk, log.drop_last()),
{
    law_move_back_restores(all_moved(disk, log.drop_last()), log.last());
}

/// A staged file and the file that it replaces.
#[derive(Debug)]
pub struct Swap {
    pub staged: String,
    pub target: String,
}

/// The model of [`Swap`].
#[verifier::ext_equal]
pub struct SwapView {
    pub staged: Seq<char>,
    pub target: Seq<char>,
}

impl DeepView for Swap {
    type V = SwapView;

    open spec fn deep_view(&self) -> SwapView {
        SwapView { staged: self.staged@, target: self.target@ }
    }
}

/// The steps of a swap.
#[derive(Debug, Clone, Copy, PartialEq, Eq, Structural)]
pub enum SwapStep {
    /// Whether the target is there is being seen.
    FindTarget,
    /// Whether its backup is there is being seen; it is known whether the target is.
    FindBackup(bool),
    /// A stale backup is being moved away.
    ShelveBackup,
    /// The target is being moved beside its place.
    MoveTarget,
    /// The staged file is being moved in; it is known whether there is a backup to keep then.
    Install(bool),
    /// The backup is being moved to where old files are kept.
    KeepBackup,
}

impl SwapStep {
    /// Whether the step looks for a file.
    pub open spec fn is_look(self) -> bool {
        self is FindTarget || self is FindBackup
    }

    /// The step after this one, given what was seen where the step looks for a file; none after the
    /// last.
    pub open spec fn after(self, there: bool) -> Option<SwapStep> {
        match self {
            SwapStep::FindTarget => Some(SwapStep::FindBackup(there)),
            SwapStep::FindBackup(target) => Some(
                if !target {
                    SwapStep::Install(there)
                } else if there {
                    SwapStep::ShelveBackup
                } else {
                    SwapStep::MoveTarget
                },
            ),
            SwapStep::ShelveBackup => Some(SwapStep::MoveTarget),
            SwapStep::MoveTarget => Some(SwapStep::Install(true)),
            SwapStep::Install(keep) => if keep {
                Some(SwapStep::KeepBackup)
            } else {
                None
            },
            SwapStep::KeepBackup => None,
        }
    }

    /// Whether the step looks for a file.
    pub fn looks(self) -> (r: bool)
        ensures
            r == self.is_look(),
    {
        matches!(self, SwapStep::FindTarget | SwapStep::FindBackup(_))
    }

    /// The step after this one, given what was seen where the step looks for a file; none after the
    /// last.
    pub fn next(self, there: bool) -> (r: Option<SwapStep>)
        ensures
            r == self.after(there),
    {
        match self {
            SwapStep::FindTarget => Some(SwapStep::FindBackup(there)),
            SwapStep::FindBackup(target) => if !target {
                Some(SwapStep::Install(there))
            } else if there {
                Some(SwapStep::ShelveBackup)
            } else {
                Some(SwapStep::MoveTarget)
            },
            SwapStep::ShelveBackup => Some(SwapStep::MoveTarget),
            SwapStep::MoveTarget => Some(SwapStep::Install(true)),
            SwapStep::Install(keep) => if keep {
                Some(SwapStep::KeepBackup)
            } else {
                None
            },
            SwapStep::KeepBackup => None,
        }
    }
}

impl SwapView {
    /// The backup of the target.
    pub open spec fn backup(self) -> Seq<char> {
        atomic::backup_of(self.target)
    }

    /// Where a step looks for a file.
    pub open spec fn looked(self, step: SwapStep) -> Seq<char> {
        if step is FindTarget {
            self.target
        } else {
            self.backup()
        }
    }

    /// The move of a step; what is kept goes to `slot`.
    pub open spec fn step_move(self, step: SwapStep, slot: Seq<char>) -> MoveView {
        match step {
            SwapStep::MoveTarget => MoveView { from: self.target, to: self.backup() },
            SwapStep::Install(_) => MoveView { from: self.staged, to: self.target },
            _ => MoveView { from: self.backup(), to: slot },
        }
    }
}

impl Swap {
    /// Where a step looks for a file.
    pub fn looked(&self, step: SwapStep) -> (r: String)
        ensures
            r@ == self.deep_view().looked(step),
    {
        match step {
            SwapStep::FindTarget => self.target.clone(),
            _ => atomic::backup_path(self.target.as_str()),
        }
    }

    /// The move of a step; what is kept goes to `slot`.
    pub fn step_move(&self, step: SwapStep, slot: String) -> (r: Move)
        ensures
            r.deep_view() == self.deep_view().step_move(step, slot@),
    {
        match step {
            SwapStep::MoveTarget => Move {
                from: self.target.clone(),
                to: atomic::backup_path(self.target.as_str()),
            },
            SwapStep::Install(_) => Move {
                from: self.staged.clone(),
                to: self.target.clone(),
            },
            _ => Move { from: atomic::backup_path(self.target.as_str()), to: slot },
        }
    }
}

/// A file and its backup are apart.
pub proof fn lemma_backup_is_apart(target: Seq<char>)
    ensures
        are_apart(target, atomic::backup_of(target)),
{
    reveal_strlit(".bak");
    let backup = atomic::backup_of(target);
    assert(backup[target.len() as int] == '.');
}

/// While a file is being replaced it is never lost: until the new file is in place the old one is
/// its backup, and the recovery of an interrupted replacement brings it back.
pub proof fn law_replaced_file_is_never_lost(disk: Disk, swap: SwapView)
    requires
        disk.contains_key(swap.target),
        is_free(disk, swap.backup()),
    ensures
        ({
            let m = swap.step_move(SwapStep::MoveTarget, swap.target);
            let aside = moved(disk, m);
            let back = atomic::recovered(aside, swap.target);
            &&& aside.contains_key(swap.backup())
            &&& aside[swap.backup()] == disk[swap.target]
            &&& back.contains_key(swap.target)
            &&& back[swap.target] == disk[swap.target]
        }),
{
    lemma_backup_is_apart(swap.target);
    let m = swap.step_move(SwapStep::MoveTarget, swap.target);
    let aside = moved(disk, m);
    lemma_leaves_free(disk, m);
    assert(m.from + swap.backup().skip(m.to.len() as int) =~= swap.target);
    assert(is_under(swap.target, swap.target));
    assert(!aside.contains_key(swap.target));
}

/// The steps of a swap: the target and its backup are looked for; a target that is there goes beside its
/// place, after a stale backup went to where old files are kept; the staged file moves in; and a backup
/// goes to where old files are kept.
pub proof fn law_steps_of_a_swap(swap: SwapView, kept: Seq<char>, there: bool)
    ensures
        swap.looked(SwapStep::FindTarget) == swap.target,
        swap.looked(SwapStep::FindBackup(there)) == swap.target + ".bak"@,
        swap.step_move(SwapStep::ShelveBackup, kept) == (MoveView {
            from: swap.target + ".bak"@,
            to: kept,
        }),
        swap.step_move(SwapStep::MoveTarget, kept) == (MoveView {
            from: swap.target,
            to: swap.target + ".bak"@,
        }),
        swap.step_move(SwapStep::Install(there), kept) == (MoveView {
            from: swap.staged,
            to: swap.target,
        }),
        swap.step_move(SwapStep::KeepBackup, kept) == (MoveView {
            from: swap.target + ".bak"@,
            to: kept,
        }),
        SwapStep::FindTarget.after(there) == Some(SwapStep::FindBackup(there)),
        SwapStep::FindBackup(true).after(true) == Some(SwapStep::ShelveBackup),
        SwapStep::FindBackup(true).after(false) == Some(SwapStep::MoveTarget),
        SwapStep::FindBackup(false).after(there) == Some(SwapStep::Install(there)),
        SwapStep::ShelveBackup.after(there) == Some(SwapStep::MoveTarget),
        SwapStep::MoveTarget.after(there) == Some(SwapStep::Install(true)),
        SwapStep::Install(true).after(there) == Some(SwapStep::KeepBackup),
        SwapStep::Install(false).after(there) is None,
        SwapStep::KeepBackup.after(there) is None,
{
}

}
