//! Replacing a file so that an interruption never loses it.
//!
//! The old file is moved aside as `.bak`, the new file is moved in, then the backup is removed.
//! The steps are decided here, one at a time; whoever performs them tells before each step which
//! of the files exist.

use vstd::prelude::*;

verus! {

/// A change of the file system.
#[derive(Debug)]
pub enum FileOp {
    Rename { from: String, to: String },
    Remove { path: String },
}

/// The model of [`FileOp`].
pub enum FileOpView {
    Rename { from: Seq<char>, to: Seq<char> },
    Remove { path: Seq<char> },
}

impl DeepView for FileOp {
    type V = FileOpView;

    open spec fn deep_view(&self) -> FileOpView {
        match self {
            FileOp::Rename { from, to } => FileOpView::Rename { from: from@, to: to@ },
            FileOp::Remove { path } => FileOpView::Remove { path: path@ },
        }
    }
}

/// The files of a disk: what each path holds.
pub type Disk = Map<Seq<char>, Seq<u8>>;

/// A disk after a change.
pub open spec fn after_op(disk: Disk, op: FileOpView) -> Disk {
    match op {
        FileOpView::Rename { from, to } => disk.remove(from).insert(to, disk[from]),
        FileOpView::Remove { path } => disk.remove(path),
    }
}

/// Where the backup of a file lies.
pub open spec fn backup_of(path: Seq<char>) -> Seq<char> {
    path + ".bak"@
}

/// Where the backup of a file lies.
pub fn backup_path(path: &str) -> (r: String)
    ensures
        r@ == backup_of(path@),
        r@ == path@ + ".bak"@,
{
    path.to_owned().concat(".bak")
}

/// How far a replacement has come.
#[derive(Debug, Clone, Copy, PartialEq, Eq, Structural)]
pub enum SwapStage {
    Start,
    /// A stale backup is gone; the old file is still in place.
    Aside,
    /// The place of the file is free.
    Install,
    /// The new file is in place.
    Cleanup,
    Done,
}

/// The next change of a replacement of `dest` by `src`, and how far it will have come then.
pub open spec fn swap_step(
    src: Seq<char>,
    dest: Seq<char>,
    stage: SwapStage,
    dest_exists: bool,
    backup_exists: bool,
) -> (Option<FileOpView>, SwapStage) {
    let backup = backup_of(dest);
    match stage {
        SwapStage::Start => if !dest_exists {
            (Some(FileOpView::Rename { from: src, to: dest }), SwapStage::Cleanup)
        } else if backup_exists {
            (Some(FileOpView::Remove { path: backup }), SwapStage::Aside)
        } else {
            (Some(FileOpView::Rename { from: dest, to: backup }), SwapStage::Install)
        },
        SwapStage::Aside => (
            Some(FileOpView::Rename { from: dest, to: backup }),
            SwapStage::Install,
        ),
        SwapStage::Install => (
            Some(FileOpView::Rename { from: src, to: dest }),
            SwapStage::Cleanup,
        ),
        SwapStage::Cleanup => if backup_exists {
            (Some(FileOpView::Remove { path: backup }), SwapStage::Done)
        } else {
            (None, SwapStage::Done)
        },
        SwapStage::Done => (None, SwapStage::Done),
    }
}

/// A replacement of one file by another.
#[derive(Debug)]
pub struct SafeReplace {
    pub src: String,
    pub dest: String,
    pub stage: SwapStage,
}

/// Starts the replacement of `dest` by `src`, which must be complete.
pub fn safe_replace(src: &str, dest: &str) -> (r: SafeReplace)
    ensures
        r.src@ == src@,
        r.dest@ == dest@,
        r.stage == SwapStage::Start,
{
    SafeReplace { src: src.to_owned(), dest: dest.to_owned(), stage: SwapStage::Start }
}

impl SafeReplace {
    /// The next change to make, given which of the files exist now; none where the replacement is
    /// complete.
    pub fn next(&mut self, dest_exists: bool, backup_exists: bool) -> (r: Option<FileOp>)
        ensures
            final(self).src == old(self).src,
            final(self).dest == old(self).dest,
            (r.deep_view(), final(self).stage) == swap_step(
                old(self).src@,
                old(self).dest@,
                old(self).stage,
                dest_exists,
                backup_exists,
            ),
    {
        let backup = backup_path(self.dest.as_str());
        match self.stage {
            SwapStage::Start => if !dest_exists {
                self.stage = SwapStage::Cleanup;
                Some(FileOp::Rename { from: self.src.clone(), to: self.dest.clone() })
            } else if backup_exists {
                self.stage = SwapStage::Aside;
                Some(FileOp::Remove { path: backup })
            } else {
                self.stage = SwapStage::Install;
                Some(FileOp::Rename { from: self.dest.clone(), to: backup })
            },
            SwapStage::Aside => {
                self.stage = SwapStage::Install;
                Some(FileOp::Rename { from: self.dest.clone(), to: backup })
            },
            SwapStage::Install => {
                self.stage = SwapStage::Cleanup;
                Some(FileOp::Rename { from: self.src.clone(), to: self.dest.clone() })
            },
            SwapStage::Cleanup => {
                self.stage = SwapStage::Done;
                if backup_exists {
                    Some(FileOp::Remove { path: backup })
                } else {
                    None
                }
            },
            SwapStage::Done => None,
        }
    }
}

/// The change that undoes an interrupted replacement of `dest`: a backup comes back where the
/// file is missing.
pub open spec fn recovery(
    dest: Seq<char>,
    dest_exists: bool,
    backup_exists: bool,
) -> Option<FileOpView> {
    if !dest_exists && backup_exists {
        Some(FileOpView::Rename { from: backup_of(dest), to: dest })
    } else {
        None
    }
}

/// The change that undoes an interrupted replacement of `dest`, if one is needed.
pub fn recover_backup(dest: &str, dest_exists: bool, backup_exists: bool) -> (r: Option<FileOp>)
    ensures
        r.deep_view() == recovery(dest@, dest_exists, backup_exists),
        r is Some <==> !dest_exists && backup_exists,
        r is Some ==> r->0.deep_view() == (FileOpView::Rename {
            from: dest@ + ".bak"@,
            to: dest@,
        }),
{
    if !dest_exists && backup_exists {
        Some(FileOp::Rename { from: backup_path(dest), to: dest.to_owned() })
    } else {
        None
    }
}

/// A disk after the recovery of `dest`.
pub open spec fn recovered(disk: Disk, dest: Seq<char>) -> Disk {
    match recovery(dest, disk.contains_key(dest), disk.contains_key(backup_of(dest))) {
        Some(op) => after_op(disk, op),
        None => disk,
    }
}

/// The disk and the stage after `n` steps of a replacement of `dest` by `src`.
pub open spec fn swap_after(disk: Disk, src: Seq<char>, dest: Seq<char>, n: nat) -> (
    Disk,
    SwapStage,
)
    decreases n,
{
    if n == 0 {
        (disk, SwapStage::Start)
    } else {
        let (d, stage) = swap_after(disk, src, dest, (n - 1) as nat);
        let (op, next) = swap_step(
            src,
            dest,
            stage,
            d.contains_key(dest),
            d.contains_key(backup_of(dest)),
        );
        match op {
            Some(o) => (after_op(d, o), next),
            None => (d, next),
        }
    }
}

/// What is known of the disk at each stage of a replacement.
spec fn swap_shape(disk: Disk, src: Seq<char>, dest: Seq<char>, d: Disk, stage: SwapStage) -> bool {
    let backup = backup_of(dest);
    match stage {
        SwapStage::Start => d == disk,
        SwapStage::Aside => disk.contains_key(dest) && d == disk.remove(backup),
        SwapStage::Install => disk.contains_key(dest) && d == disk.remove(dest).insert(
            backup,
            disk[dest],
        ),
        SwapStage::Cleanup => if disk.contains_key(dest) {
            d == disk.remove(src).insert(backup, disk[dest]).insert(dest, disk[src])
        } else {
            d == disk.remove(src).insert(dest, disk[src])
        },
        SwapStage::Done => d == disk.remove(src).remove(backup).insert(dest, disk[src]),
    }
}

proof fn lemma_swap_shape(disk: Disk, src: Seq<char>, dest: Seq<char>, n: nat)
    requires
        disk.contains_key(src),
        src != dest,
        src != backup_of(dest),
    ensures
        swap_shape(disk, src, dest, swap_after(disk, src, dest, n).0, swap_after(disk, src, dest, n).1),
    decreases n,
{
    let backup = backup_of(dest);
    assert(backup.len() != dest.len()) by {
        reveal_strlit(".bak");
    }
    if n > 0 {
        lemma_swap_shape(disk, src, dest, (n - 1) as nat);
        let (d0, s0) = swap_after(disk, src, dest, (n - 1) as nat);
        let (d, s) = swap_after(disk, src, dest, n);
        match s {
            SwapStage::Start => {},
            SwapStage::Aside => {
                assert(d =~= disk.remove(backup));
            },
            SwapStage::Install => {
                assert(d =~= disk.remove(dest).insert(backup, disk[dest]));
            },
            SwapStage::Cleanup => {
                if disk.contains_key(dest) {
                    assert(d =~= disk.remove(src).insert(backup, disk[dest]).insert(
                        dest,
                        disk[src],
                    ));
                } else {
                    assert(d =~= disk.remove(src).insert(dest, disk[src]));
                }
            },
            SwapStage::Done => {
                assert(d =~= disk.remove(src).remove(backup).insert(dest, disk[src]));
            },
        }
    }
}

/// A replacement that is not interrupted takes at most four steps. Then `dest` holds what `src`
/// held, `src` and the backup are gone, and no other file has changed.
pub proof fn law_swap_completes(disk: Disk, src: Seq<char>, dest: Seq<char>, n: nat)
    requires
        disk.contains_key(src),
        src != dest,
        src != backup_of(dest),
        n >= 4,
    ensures
        swap_after(disk, src, dest, n).1 == SwapStage::Done,
        swap_after(disk, src, dest, n).0 == disk.remove(src).remove(backup_of(dest)).insert(
            dest,
            disk[src],
        ),
    decreases n,
{
    lemma_swap_shape(disk, src, dest, n);
    if n > 4 {
        law_swap_completes(disk, src, dest, (n - 1) as nat);
    } else {
        reveal_with_fuel(swap_after, 5);
    }
}

/// A replacement may be interrupted after any step. Recovery then leaves in `dest` either what it
/// held before or what `src` held, and never nothing where there was a file; the new content is
/// still in `src` or already in `dest`; and no other file has changed.
pub proof fn law_swap_survives_interruption(disk: Disk, src: Seq<char>, dest: Seq<char>, n: nat)
    requires
        disk.contains_key(src),
        src != dest,
        src != backup_of(dest),
    ensures
        ({
            let d = recovered(swap_after(disk, src, dest, n).0, dest);
            let before = recovered(disk, dest);
            &&& before.contains_key(dest) ==> d.contains_key(dest)
            &&& d.contains_key(dest) ==> d[dest] == disk[src] || (before.contains_key(dest)
                && d[dest] == before[dest])
            &&& (d.contains_key(src) && d[src] == disk[src]) || (d.contains_key(dest) && d[dest]
                == disk[src])
            &&& forall|p: Seq<char>|
                p != src && p != dest && p != backup_of(dest) ==> (d.contains_key(p)
                    <==> disk.contains_key(p)) && (d.contains_key(p) ==> d[p] == disk[p])
        }),
{
    assert(backup_of(dest).len() != dest.len()) by {
        reveal_strlit(".bak");
    }
    lemma_swap_shape(disk, src, dest, n);
}

/// The steps of a replacement: a file that is there goes aside as its backup, after a stale backup is
/// removed; the new one moves in; and the backup is removed.
pub proof fn law_steps_of_a_replacement(src: Seq<char>, dest: Seq<char>, dest_there: bool, backup_there: bool)
    ensures
        swap_step(src, dest, SwapStage::Start, false, backup_there) == (
            Some(FileOpView::Rename { from: src, to: dest }),
            SwapStage::Cleanup,
        ),
        swap_step(src, dest, SwapStage::Start, true, true) == (
            Some(FileOpView::Remove { path: dest + ".bak"@ }),
            SwapStage::Aside,
        ),
        swap_step(src, dest, SwapStage::Start, true, false) == (
            Some(FileOpView::Rename { from: dest, to: dest + ".bak"@ }),
            SwapStage::Install,
        ),
        swap_step(src, dest, SwapStage::Aside, dest_there, backup_there) == (
            Some(FileOpView::Rename { from: dest, to: dest + ".bak"@ }),
            SwapStage::Install,
        ),
        swap_step(src, dest, SwapStage::Install, dest_there, backup_there) == (
            Some(FileOpView::Rename { from: src, to: dest }),
            SwapStage::Cleanup,
        ),
        swap_step(src, dest, SwapStage::Cleanup, dest_there, true) == (
            Some(FileOpView::Remove { path: dest + ".bak"@ }),
            SwapStage::Done,
        ),
        swap_step(src, dest, SwapStage::Cleanup, dest_there, false).0 is None,
        swap_step(src, dest, SwapStage::Done, dest_there, backup_there).0 is None,
{
}

}
