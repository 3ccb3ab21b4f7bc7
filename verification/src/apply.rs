//! Applying an update that was fetched: merge the patches, check the digest of everything that is
//! staged, and only then swap the new files in. What is replaced or removed is kept until the new
//! version is recorded and the staging folder is moved away; where a step fails, every move is taken
//! back, the newest first.
//!
//! The course is decided here, one action at a time; whoever performs the actions answers each of
//! them with an event.

use vstd::hash_set::StringHashSet;
use vstd::prelude::*;

use crate::client;
use crate::client::ApiClient;
use crate::error::{Error, ErrorView};
use crate::game::GameManager;
use crate::manifest;
use crate::manifest::{DestIndex, FetchJob, FetchJobView};
use crate::merge::{GroupOutcome, GroupOutcomeView};
use crate::moves::{Move, MoveView, Swap, SwapStep, SwapView};
use crate::order;
use crate::paths;
use crate::state;
use crate::text;
use crate::types::{
    FileRef, FileRefView, GroupInfo, GroupInfoView, LauncherIndex, LocalConfig, LocalConfigView,
    PatchConfig, PatchIndex, PatchIndexView, ResourceItemView,
};

verus! {

/// Groups that are merged at the same time.
pub const MERGE_CONCURRENCY: usize = 4;

/// What an update changed.
#[derive(Debug)]
pub struct ApplyReport {
    /// Groups merged.
    pub merged: usize,
    /// Groups that were applied before.
    pub skipped: usize,
    /// Groups of which files were fetched whole.
    pub fallback: usize,
    /// Files swapped in.
    pub swapped: usize,
    /// Files removed.
    pub deleted: Vec<String>,
}

/// The model of [`ApplyReport`].
#[verifier::ext_equal]
pub struct ApplyReportView {
    pub merged: nat,
    pub skipped: nat,
    pub fallback: nat,
    pub swapped: nat,
    pub deleted: Seq<Seq<char>>,
}

impl DeepView for ApplyReport {
    type V = ApplyReportView;

    open spec fn deep_view(&self) -> ApplyReportView {
        ApplyReportView {
            merged: self.merged as nat,
            skipped: self.skipped as nat,
            fallback: self.fallback as nat,
            swapped: self.swapped as nat,
            deleted: self.deleted.deep_view(),
        }
    }
}

/// The report of an update that changed nothing.
pub open spec fn empty_report() -> ApplyReportView {
    ApplyReportView { merged: 0, skipped: 0, fallback: 0, swapped: 0, deleted: Seq::empty() }
}

impl Default for ApplyReport {
    fn default() -> (r: Self)
        ensures
            r.deep_view() == empty_report(),
    {
        let r = ApplyReport {
            merged: 0,
            skipped: 0,
            fallback: 0,
            swapped: 0,
            deleted: Vec::new(),
        };
        assert(r.deep_view() =~= empty_report());
        r
    }
}

impl Clone for ApplyReport {
    fn clone(&self) -> (r: Self)
        ensures
            r.deep_view() == self.deep_view(),
            r.merged == self.merged,
            r.skipped == self.skipped,
            r.fallback == self.fallback,
            r.swapped == self.swapped,
            r.deleted.deep_view() == self.deleted.deep_view(),
    {
        let r = ApplyReport {
            merged: self.merged,
            skipped: self.skipped,
            fallback: self.fallback,
            swapped: self.swapped,
            deleted: self.deleted.clone(),
        };
        assert(r.deep_view() =~= self.deep_view());
        r
    }
}

/// Whether a manifest lists a file as one that is fetched whole.
pub open spec fn is_complete(list: Seq<ResourceItemView>, dest: Seq<char>) -> bool {
    !manifest::is_patch(dest) && manifest::entry_for(list, dest) is Some
}

/// The files that the groups produce, in the order of the groups, but for the groups that were
/// applied before.
pub open spec fn results(groups: Seq<GroupInfoView>, skipped: Seq<bool>) -> Seq<FileRefView>
    decreases groups.len(),
{
    if groups.len() == 0 {
        Seq::empty()
    } else {
        let before = results(groups.drop_last(), skipped);
        if skipped[groups.len() - 1] {
            before
        } else {
            before + groups.last().dst_files
        }
    }
}

/// As many flags as there are groups, none of them set.
pub open spec fn none_skipped(n: nat) -> Seq<bool> {
    Seq::new(n, |g: int| false)
}

/// Whether the group at `g` was applied before, where the outcomes are those of the groups in this
/// order.
pub open spec fn was_skipped(order: Seq<usize>, outcomes: Seq<GroupOutcomeView>, g: int) -> bool {
    exists|i: int| 0 <= i < order.len() && #[trigger] order[i] == g && outcomes[i] is Skipped
}

fn no_flags(n: usize) -> (r: Vec<bool>)
    ensures
        r@ == none_skipped(n as nat),
{
    let mut r: Vec<bool> = Vec::new();
    let mut i: usize = 0;
    while i < n
        invariant
            i <= n,
            r@ == none_skipped(i as nat),
        decreases n - i,
    {
        r.push(false);
        i = i + 1;
        assert(r@ =~= none_skipped(i as nat));
    }
    r
}

/// The groups that were applied before, by their positions.
fn skipped_groups(order: &Vec<usize>, outcomes: &Vec<GroupOutcome>) -> (r: Vec<bool>)
    requires
        order@.len() == outcomes@.len(),
        forall|i: int| 0 <= i < order@.len() ==> #[trigger] order@[i] < order@.len(),
    ensures
        r@ == Seq::new(
            order@.len(),
            |g: int| was_skipped(order@, outcomes.deep_view(), g),
        ),
{
    let n: usize = order.len();
    let ghost all = outcomes.deep_view();
    let mut r = no_flags(n);
    let mut i: usize = 0;
    while i < n
        invariant
            i <= n,
            n == order@.len(),
            n == outcomes@.len(),
            n == r@.len(),
            all == outcomes.deep_view(),
            forall|k: int| 0 <= k < order@.len() ==> #[trigger] order@[k] < n,
            forall|g: int|
                0 <= g < n ==> #[trigger] r@[g] == was_skipped(order@.take(i as int), all, g),
        decreases n - i,
    {
        let ghost before = r@;
        let ghost prior = order@.take(i as int);
        let ghost now = order@.take(i + 1);
        let skipped = matches!(&outcomes[i], GroupOutcome::Skipped);
        if skipped {
            r.set(order[i], true);
        }
        proof {
            assert forall|g: int| 0 <= g < n implies #[trigger] r@[g] == was_skipped(now, all, g) by {
                assert(before[g] == was_skipped(prior, all, g));
                if was_skipped(prior, all, g) {
                    let k = choose|k: int|
                        0 <= k < prior.len() && #[trigger] prior[k] == g && all[k] is Skipped;
                    assert(now[k] == g);
                }
                if g == order@[i as int] && skipped {
                    assert(now[i as int] == g);
                }
                if was_skipped(now, all, g) && !was_skipped(prior, all, g) {
                    let k = choose|k: int|
                        0 <= k < now.len() && #[trigger] now[k] == g && all[k] is Skipped;
                    assert(k == i || prior[k] == g);
                }
            }
        }
        i = i + 1;
    }
    assert(order@.take(n as int) =~= order@);
    assert(r@ =~= Seq::new(order@.len(), |g: int| was_skipped(order@, all, g)));
    r
}

/// The files that the groups produce, but for the groups that were applied before.
fn collect_results(groups: &Vec<GroupInfo>, skipped: &Vec<bool>) -> (r: Vec<FileRef>)
    requires
        skipped@.len() == groups@.len(),
    ensures
        r.deep_view() == results(groups.deep_view(), skipped@),
{
    let ghost all = groups.deep_view();
    let mut r: Vec<FileRef> = Vec::new();
    let mut i: usize = 0;
    assert(r.deep_view() =~= results(all.take(0), skipped@));
    while i < groups.len()
        invariant
            i <= groups@.len(),
            all == groups.deep_view(),
            skipped@.len() == groups@.len(),
            r.deep_view() == results(all.take(i as int), skipped@),
        decreases groups@.len() - i,
    {
        proof {
            assert(all.take(i + 1).drop_last() =~= all.take(i as int));
            assert(all.take(i + 1).last() == groups@[i as int].deep_view());
        }
        if !skipped[i] {
            push_files(&groups[i].dst_files, &mut r);
        }
        i = i + 1;
    }
    assert(all.take(all.len() as int) =~= all);
    r
}

fn push_files(files: &Vec<FileRef>, out: &mut Vec<FileRef>)
    ensures
        final(out).deep_view() == old(out).deep_view() + files.deep_view(),
{
    let ghost start = out.deep_view();
    let ghost all = files.deep_view();
    let mut i: usize = 0;
    assert(start + all.take(0) =~= start);
    while i < files.len()
        invariant
            i <= files@.len(),
            all == files.deep_view(),
            out.deep_view() == start + all.take(i as int),
        decreases files@.len() - i,
    {
        let ghost before = out.deep_view();
        out.push(files[i].clone());
        proof {
            assert(out.deep_view() =~= before.push(all[i as int]));
            assert(start + all.take(i + 1) =~= before.push(all[i as int]));
        }
        i = i + 1;
    }
    assert(all.take(all.len() as int) =~= all);
}

/// The paths of some files.
fn collect_names(files: &Vec<FileRef>) -> (r: StringHashSet)
    ensures
        forall|d: Seq<char>| #[trigger] r@.contains(d) <==> names(files.deep_view(), d),
{
    let ghost all = files.deep_view();
    let mut set = StringHashSet::new();
    let mut i: usize = 0;
    while i < files.len()
        invariant
            i <= files@.len(),
            all == files.deep_view(),
            forall|d: Seq<char>|
                #[trigger] set@.contains(d) <==> names(all.take(i as int), d),
        decreases files@.len() - i,
    {
        let ghost before = set@;
        let ghost prior = all.take(i as int);
        let ghost now = all.take(i + 1);
        set.insert(files[i].dest.clone());
        proof {
            assert(all[i as int].dest == files@[i as int].dest@);
            assert forall|d: Seq<char>| #[trigger] set@.contains(d) <==> names(now, d) by {
                assert(before.contains(d) <==> names(prior, d));
                if names(prior, d) {
                    let k = choose|k: int| 0 <= k < prior.len() && (#[trigger] prior[k]).dest == d;
                    assert(now[k].dest == d);
                }
                if names(now, d) && !names(prior, d) {
                    let k = choose|k: int| 0 <= k < now.len() && (#[trigger] now[k]).dest == d;
                    assert(k == i || prior[k].dest == d);
                }
                if d == all[i as int].dest {
                    assert(now[i as int].dest == d);
                }
            }
        }
        i = i + 1;
    }
    assert(all.take(all.len() as int) =~= all);
    set
}

fn matches_digest(found: &Option<String>, md5: &str) -> (r: bool)
    ensures
        r == is_good(found.deep_view(), md5@),
        r <==> found is Some && (md5@.len() == 0 || found->0@ == md5@),
{
    match found {
        Some(m) => md5.is_empty() || text::same_text(m.as_str(), md5),
        None => false,
    }
}

/// The files that must be fetched whole, in the order of the outcomes.
pub open spec fn whole_files(outcomes: Seq<GroupOutcomeView>) -> Seq<FileRefView>
    decreases outcomes.len(),
{
    if outcomes.len() == 0 {
        Seq::empty()
    } else {
        let before = whole_files(outcomes.drop_last());
        match outcomes.last() {
            GroupOutcomeView::Fallback(files) => before + files,
            _ => before,
        }
    }
}

/// Whether some file of a list has this path.
pub open spec fn names(files: Seq<FileRefView>, dest: Seq<char>) -> bool {
    exists|i: int| 0 <= i < files.len() && (#[trigger] files[i]).dest == dest
}

/// The files of a list without those whose path occurred before.
pub open spec fn first_of_each(files: Seq<FileRefView>) -> Seq<FileRefView>
    decreases files.len(),
{
    if files.len() == 0 {
        Seq::empty()
    } else {
        let before = first_of_each(files.drop_last());
        if names(files.drop_last(), files.last().dest) {
            before
        } else {
            before.push(files.last())
        }
    }
}

/// How many groups were merged.
pub open spec fn merged_count(outcomes: Seq<GroupOutcomeView>) -> nat
    decreases outcomes.len(),
{
    if outcomes.len() == 0 {
        0
    } else {
        merged_count(outcomes.drop_last()) + if outcomes.last() is Merged {
            1nat
        } else {
            0nat
        }
    }
}

/// How many groups had been applied before.
pub open spec fn skipped_count(outcomes: Seq<GroupOutcomeView>) -> nat
    decreases outcomes.len(),
{
    if outcomes.len() == 0 {
        0
    } else {
        skipped_count(outcomes.drop_last()) + if outcomes.last() is Skipped {
            1nat
        } else {
            0nat
        }
    }
}

/// How many groups had files that were fetched whole.
pub open spec fn fallback_count(outcomes: Seq<GroupOutcomeView>) -> nat
    decreases outcomes.len(),
{
    if outcomes.len() == 0 {
        0
    } else {
        fallback_count(outcomes.drop_last()) + if outcomes.last() is Fallback {
            1nat
        } else {
            0nat
        }
    }
}

fn push_new(files: &Vec<FileRef>, seen: &mut StringHashSet, out: &mut Vec<FileRef>, Ghost(earlier):
    Ghost<Seq<FileRefView>>)
    requires
        forall|d: Seq<char>| #[trigger] old(seen)@.contains(d) <==> names(earlier, d),
        old(out).deep_view() == first_of_each(earlier),
    ensures
        forall|d: Seq<char>|
            #[trigger] final(seen)@.contains(d) <==> names(earlier + files.deep_view(), d),
        final(out).deep_view() == first_of_each(earlier + files.deep_view()),
{
    let ghost all = files.deep_view();
    let mut i: usize = 0;
    assert(earlier + all.take(0) =~= earlier);
    while i < files.len()
        invariant
            i <= files@.len(),
            all == files.deep_view(),
            forall|d: Seq<char>|
                #[trigger] seen@.contains(d) <==> names(earlier + all.take(i as int), d),
            out.deep_view() == first_of_each(earlier + all.take(i as int)),
        decreases files@.len() - i,
    {
        let ghost prior = earlier + all.take(i as int);
        let ghost now = earlier + all.take(i + 1);
        let ghost known = seen@;
        let ghost before = out.deep_view();
        let file = &files[i];
        proof {
            assert(now.drop_last() =~= prior);
            assert(now.last() == file.deep_view());
        }
        let fresh = !seen.contains(file.dest.as_str());
        if fresh {
            seen.insert(file.dest.clone());
            out.push(file.clone());
            assert(out.deep_view() =~= before.push(file.deep_view()));
        }
        proof {
            assert forall|d: Seq<char>| #[trigger] seen@.contains(d) <==> names(now, d) by {
                assert(known.contains(d) <==> names(prior, d));
                if names(prior, d) {
                    let k = choose|k: int| 0 <= k < prior.len() && (#[trigger] prior[k]).dest == d;
                    assert(now[k].dest == d);
                }
                if names(now, d) && !names(prior, d) {
                    let k = choose|k: int| 0 <= k < now.len() && (#[trigger] now[k]).dest == d;
                    assert(k == prior.len() || prior[k].dest == d);
                }
                if d == file.dest@ {
                    assert(now[prior.len() as int].dest == d);
                }
            }
        }
        i = i + 1;
    }
    assert(all.take(all.len() as int) =~= all);
}

/// The files to fetch whole after the merges, each once.
pub fn collect_fallbacks(outcomes: &Vec<GroupOutcome>) -> (r: Vec<FileRef>)
    ensures
        r.deep_view() == first_of_each(whole_files(outcomes.deep_view())),
{
    let ghost all = outcomes.deep_view();
    let mut seen = StringHashSet::new();
    let mut r: Vec<FileRef> = Vec::new();
    let mut i: usize = 0;
    assert(r.deep_view() =~= first_of_each(whole_files(all.take(0))));
    while i < outcomes.len()
        invariant
            i <= outcomes@.len(),
            all == outcomes.deep_view(),
            forall|d: Seq<char>|
                #[trigger] seen@.contains(d) <==> names(whole_files(all.take(i as int)), d),
            r.deep_view() == first_of_each(whole_files(all.take(i as int))),
        decreases outcomes@.len() - i,
    {
        proof {
            assert(all.take(i + 1).drop_last() =~= all.take(i as int));
            assert(all.take(i + 1).last() == outcomes@[i as int].deep_view());
        }
        if let GroupOutcome::Fallback(files) = &outcomes[i] {
            push_new(files, &mut seen, &mut r, Ghost(whole_files(all.take(i as int))));
        }
        i = i + 1;
    }
    assert(all.take(all.len() as int) =~= all);
    r
}

fn count_outcomes(outcomes: &Vec<GroupOutcome>) -> (r: (usize, usize, usize))
    ensures
        r.0 == merged_count(outcomes.deep_view()),
        r.1 == skipped_count(outcomes.deep_view()),
        r.2 == fallback_count(outcomes.deep_view()),
{
    let ghost all = outcomes.deep_view();
    let mut merged: usize = 0;
    let mut skipped: usize = 0;
    let mut whole: usize = 0;
    let mut i: usize = 0;
    while i < outcomes.len()
        invariant
            i <= outcomes@.len(),
            all == outcomes.deep_view(),
            merged == merged_count(all.take(i as int)),
            skipped == skipped_count(all.take(i as int)),
            whole == fallback_count(all.take(i as int)),
            merged <= i,
            skipped <= i,
            whole <= i,
        decreases outcomes@.len() - i,
    {
        proof {
            assert(all.take(i + 1).drop_last() =~= all.take(i as int));
            assert(all.take(i + 1).last() == outcomes@[i as int].deep_view());
        }
        match &outcomes[i] {
            GroupOutcome::Merged => {
                merged = merged + 1;
            },
            GroupOutcome::Skipped => {
                skipped = skipped + 1;
            },
            GroupOutcome::Fallback(_) => {
                whole = whole + 1;
            },
        }
        i = i + 1;
    }
    assert(all.take(all.len() as int) =~= all);
    (merged, skipped, whole)
}

/// What to do next for an update.
#[derive(Debug)]
pub enum ApplyAction {
    /// See whether something lies at this path; answer with [`ApplyEvent::Exists`].
    Probe(String),
    /// Merge the groups at these positions, started in this order; answer with
    /// [`ApplyEvent::Merged`], the outcomes in the same order.
    Merge(Vec<usize>),
    /// Fetch a file, making the folder for it first; answer with [`ApplyEvent::Done`].
    Fetch(FetchJob),
    /// Hash this file; answer with [`ApplyEvent::Digest`].
    Digest(String),
    /// Remove this folder where there is one; answer with [`ApplyEvent::Done`].
    Clear(String),
    /// Write the local configuration to this file, making the folder for it first; answer with
    /// [`ApplyEvent::Done`].
    StageRecord { config: LocalConfig, path: String },
    /// Make this move, making the folder for it first; where `only_file` is set, a folder is not
    /// moved, and that is a failure. Answer with [`ApplyEvent::Done`].
    Rename { step: Move, only_file: bool },
    /// Move the staging folder away; answer with [`ApplyEvent::Done`].
    Retire(Move),
    /// Remove the folder that the staging folder has become; answer with [`ApplyEvent::Done`].
    Discard(String),
    /// Make this move the other way; answer with [`ApplyEvent::Done`].
    Undo(Move),
    /// The update is applied.
    Finish(ApplyReport),
    /// The update failed.
    Fail(Error),
}

/// The model of [`ApplyAction`].
#[verifier::ext_equal]
pub enum ApplyActionView {
    Probe(Seq<char>),
    Merge(Seq<usize>),
    Fetch(FetchJobView),
    Digest(Seq<char>),
    Clear(Seq<char>),
    StageRecord { config: LocalConfigView, path: Seq<char> },
    Rename { step: MoveView, only_file: bool },
    Retire(MoveView),
    Discard(Seq<char>),
    Undo(MoveView),
    Finish(ApplyReportView),
    Fail(ErrorView),
}

impl DeepView for ApplyAction {
    type V = ApplyActionView;

    open spec fn deep_view(&self) -> ApplyActionView {
        match self {
            ApplyAction::Probe(p) => ApplyActionView::Probe(p@),
            ApplyAction::Merge(o) => ApplyActionView::Merge(o@),
            ApplyAction::Fetch(j) => ApplyActionView::Fetch(j.deep_view()),
            ApplyAction::Digest(p) => ApplyActionView::Digest(p@),
            ApplyAction::Clear(p) => ApplyActionView::Clear(p@),
            ApplyAction::StageRecord { config, path } => ApplyActionView::StageRecord {
                config: config.deep_view(),
                path: path@,
            },
            ApplyAction::Rename { step, only_file } => ApplyActionView::Rename {
                step: step.deep_view(),
                only_file: *only_file,
            },
            ApplyAction::Retire(m) => ApplyActionView::Retire(m.deep_view()),
            ApplyAction::Discard(p) => ApplyActionView::Discard(p@),
            ApplyAction::Undo(m) => ApplyActionView::Undo(m.deep_view()),
            ApplyAction::Finish(r) => ApplyActionView::Finish(r.deep_view()),
            ApplyAction::Fail(e) => ApplyActionView::Fail(e.deep_view()),
        }
    }
}

impl ApplyActionView {
    /// Whether the action changes the files of the game or its recorded version.
    pub open spec fn changes_game(self) -> bool {
        self is Rename
    }
}

/// The answer to an action.
#[derive(Debug)]
pub enum ApplyEvent {
    Begin,
    Exists(bool),
    Merged(Vec<GroupOutcome>),
    /// The digest of the file, none where there is no file.
    Digest(Option<String>),
    Done,
    Failed(Error),
}

/// The model of [`ApplyEvent`].
pub enum ApplyEventView {
    Begin,
    Exists(bool),
    Merged(Seq<GroupOutcomeView>),
    Digest(Option<Seq<char>>),
    Done,
    Failed(ErrorView),
}

impl DeepView for ApplyEvent {
    type V = ApplyEventView;

    open spec fn deep_view(&self) -> ApplyEventView {
        match self {
            ApplyEvent::Begin => ApplyEventView::Begin,
            ApplyEvent::Exists(b) => ApplyEventView::Exists(*b),
            ApplyEvent::Merged(o) => ApplyEventView::Merged(o.deep_view()),
            ApplyEvent::Digest(d) => ApplyEventView::Digest(d.deep_view()),
            ApplyEvent::Done => ApplyEventView::Done,
            ApplyEvent::Failed(e) => ApplyEventView::Failed(e.deep_view()),
        }
    }
}

/// Which answer an update waits for.
#[derive(Debug, Clone, Copy, PartialEq, Eq, Structural)]
pub enum ApplyStage {
    Start,
    FindingStaging,
    Merging,
    /// The file at this position of those to fetch whole is being fetched.
    Fetching(usize),
    /// The result at this position is being hashed as it was fetched whole.
    CheckingFull(usize),
    /// The result at this position is being hashed as its group staged it.
    CheckingOutput(usize),
    /// The entry at this position of the manifest is being hashed.
    CheckingFile(usize),
    /// What an earlier update kept is being removed.
    Preparing,
    /// The new version is being written into the staging folder.
    StagingRecord,
    /// Whether an earlier staging folder is left is being seen.
    FindingLeftover,
    /// An earlier staging folder is being moved into this one.
    ShelvingLeftover,
    /// The file at this position of those to swap in is being swapped in.
    Swapping(usize, SwapStep),
    /// Whether the obsolete file at this position is there is being seen.
    FindingObsolete(usize),
    /// The obsolete file at this position is being removed.
    Deleting(usize),
    /// The new version is being recorded.
    Recording(SwapStep),
    /// The staging folder is being moved away.
    Retiring,
    /// What was the staging folder is being removed.
    Discarding,
    /// The move at this position is being taken back.
    Undoing(usize),
    Ended,
}

/// What an update works on.
pub struct ApplyTask {
    pub game_folder: Seq<char>,
    pub cdn: Seq<char>,
    pub base_url: Seq<char>,
    pub app_id: Seq<char>,
    pub to_version: Seq<char>,
    pub index: PatchIndexView,
}

/// How far an update has come.
#[verifier::ext_equal]
pub struct ApplyState {
    pub stage: ApplyStage,
    /// The files to fetch whole.
    pub fallbacks: Seq<FileRefView>,
    /// Which groups were applied before.
    pub skipped: Seq<bool>,
    /// The files to swap in.
    pub swaps: Seq<SwapView>,
    /// The moves that were made.
    pub log: Seq<MoveView>,
    /// Why the moves are taken back.
    pub failure: Option<ErrorView>,
    pub report: ApplyReportView,
}

/// The error for an update that was not fetched.
pub open spec fn not_fetched() -> ErrorView {
    ErrorView::MissingField(".incremental_download — run predownload first"@)
}

/// The error for a result that is not staged.
pub open spec fn not_staged(dest: Seq<char>) -> ErrorView {
    ErrorView::Patch(
        "staged output missing for "@ + dest + " — rerun predownload/apply"@,
    )
}

/// Whether a file that was hashed is there and has the digest that a manifest gives; an empty one
/// matches any.
pub open spec fn is_good(found: Option<Seq<char>>, md5: Seq<char>) -> bool {
    found is Some && (md5.len() == 0 || found->0 == md5)
}

/// How a file is fetched whole after its patch failed: as the manifest describes it where that
/// names a folder for it, else in one stream from beside the patches.
pub open spec fn fallback_job(task: ApplyTask, file: FileRefView) -> FetchJobView {
    let target = state::staged_output(task.game_folder, file.dest);
    let tmp = paths::with_ext(target, "tmp"@);
    let (url, chunks, md5) = match manifest::entry_for(task.index.resource, file.dest) {
        Some(item) if item.from_folder is Some => (
            client::resource_address(task.cdn, item.from_folder->0, file.dest),
            item.chunk_infos,
            item.md5,
        ),
        _ => (
            client::resource_address(task.cdn, task.base_url, file.dest),
            Seq::empty(),
            file.md5,
        ),
    };
    FetchJobView {
        name: file.dest,
        url,
        tmp,
        target,
        size: Some(file.size),
        md5: Some(
            if chunks.len() == 0 {
                file.md5
            } else {
                md5
            },
        ),
        chunks,
    }
}

impl ApplyTask {
    /// The files that the groups produce, where these groups were applied before.
    pub open spec fn results(self, skipped: Seq<bool>) -> Seq<FileRefView> {
        results(self.index.group_infos, skipped)
    }

    /// The order in which the groups are merged.
    pub open spec fn merge_order(self) -> Seq<usize> {
        choose|o: Seq<usize>| order::is_merge_order(self.index.group_infos, o)
    }

    /// Which groups were applied before, by the outcomes of the merges.
    pub open spec fn skipped(self, outcomes: Seq<GroupOutcomeView>) -> Seq<bool> {
        Seq::new(
            self.index.group_infos.len(),
            |g: int| was_skipped(self.merge_order(), outcomes, g),
        )
    }

    /// Whether the entry at `i` of the manifest is a full file that no group produces; of several
    /// entries for one file the last counts.
    pub open spec fn is_loose(self, skipped: Seq<bool>, i: int) -> bool {
        let dest = self.index.resource[i].dest;
        &&& !manifest::is_patch(dest)
        &&& manifest::entry_at(self.index.resource, dest) == Some(i)
        &&& !names(self.results(skipped), dest)
    }

    /// The first position from `i` on of a full file that no group produces.
    pub open spec fn next_loose(self, skipped: Seq<bool>, i: int) -> int
        decreases self.index.resource.len() - i,
    {
        if i < 0 || i >= self.index.resource.len() || self.is_loose(skipped, i) {
            i
        } else {
            self.next_loose(skipped, i + 1)
        }
    }

    /// The swap of a file of the game for a staged one.
    pub open spec fn swap(self, staged: Seq<char>, dest: Seq<char>) -> SwapView {
        SwapView { staged, target: paths::inside(self.game_folder, dest) }
    }

    /// The swap that records the new version.
    pub open spec fn record(self) -> SwapView {
        SwapView {
            staged: state::staged_config(self.game_folder),
            target: state::config_file(self.game_folder),
        }
    }

    /// Where the next thing is kept.
    pub open spec fn slot(self, s: ApplyState) -> Seq<char> {
        state::slot(self.game_folder, s.log.len())
    }

    /// What a step of a swap asks for.
    pub open spec fn ask_swap(self, s: ApplyState, swap: SwapView, step: SwapStep) -> ApplyActionView {
        if step.is_look() {
            ApplyActionView::Probe(swap.looked(step))
        } else {
            ApplyActionView::Rename { step: swap.step_move(step, self.slot(s)), only_file: false }
        }
    }

    /// What a state asks for.
    pub open spec fn ask(self, s: ApplyState) -> ApplyActionView {
        let folder = self.game_folder;
        match s.stage {
            ApplyStage::Merging => ApplyActionView::Merge(self.merge_order()),
            ApplyStage::Fetching(i) => ApplyActionView::Fetch(
                fallback_job(self, s.fallbacks[i as int]),
            ),
            ApplyStage::CheckingFull(j) => ApplyActionView::Digest(
                state::staged_resource(folder, self.results(s.skipped)[j as int].dest),
            ),
            ApplyStage::CheckingOutput(j) => ApplyActionView::Digest(
                state::staged_output(folder, self.results(s.skipped)[j as int].dest),
            ),
            ApplyStage::CheckingFile(k) => ApplyActionView::Digest(
                state::staged_resource(folder, self.index.resource[k as int].dest),
            ),
            ApplyStage::Preparing => ApplyActionView::Clear(state::kept_folder(folder)),
            ApplyStage::StagingRecord => ApplyActionView::StageRecord {
                config: state::config_of(self.to_version, self.app_id),
                path: state::staged_config(folder),
            },
            ApplyStage::FindingLeftover => ApplyActionView::Probe(state::discarded(folder)),
            ApplyStage::ShelvingLeftover => ApplyActionView::Rename {
                step: MoveView { from: state::discarded(folder), to: self.slot(s) },
                only_file: false,
            },
            ApplyStage::Swapping(i, step) => self.ask_swap(s, s.swaps[i as int], step),
            ApplyStage::FindingObsolete(i) => ApplyActionView::Probe(
                paths::inside(folder, self.index.delete_files[i as int]),
            ),
            ApplyStage::Deleting(i) => ApplyActionView::Rename {
                step: MoveView {
                    from: paths::inside(folder, self.index.delete_files[i as int]),
                    to: self.slot(s),
                },
                only_file: true,
            },
            ApplyStage::Recording(step) => self.ask_swap(s, self.record(), step),
            ApplyStage::Retiring => ApplyActionView::Retire(
                MoveView { from: state::staging(folder), to: state::discarded(folder) },
            ),
            ApplyStage::Discarding => ApplyActionView::Discard(state::discarded(folder)),
            ApplyStage::Undoing(k) => ApplyActionView::Undo(s.log[k as int]),
            _ => ApplyActionView::Probe(state::staging(folder)),
        }
    }

    /// The state at another stage, and what it asks for.
    pub open spec fn go(self, s: ApplyState, stage: ApplyStage) -> (ApplyState, ApplyActionView) {
        let to = ApplyState { stage, ..s };
        (to, self.ask(to))
    }

    /// The end of the update.
    pub open spec fn end(self, s: ApplyState, action: ApplyActionView) -> (
        ApplyState,
        ApplyActionView,
    ) {
        (ApplyState { stage: ApplyStage::Ended, ..s }, action)
    }

    /// What to do once the files to fetch before `i` are there.
    pub open spec fn fetch_from(self, s: ApplyState, i: int) -> (ApplyState, ApplyActionView) {
        if i < s.fallbacks.len() {
            self.go(s, ApplyStage::Fetching(i as usize))
        } else {
            self.check_from(s, 0)
        }
    }

    /// What to do once the results before `j` are known to be good. Of a result that the manifest
    /// lists too, the file that was fetched whole is looked at first.
    pub open spec fn check_from(self, s: ApplyState, j: int) -> (ApplyState, ApplyActionView) {
        if j >= self.results(s.skipped).len() {
            self.file_from(s, 0)
        } else if is_complete(self.index.resource, self.results(s.skipped)[j].dest) {
            self.go(s, ApplyStage::CheckingFull(j as usize))
        } else {
            self.go(s, ApplyStage::CheckingOutput(j as usize))
        }
    }

    /// What to do once the entries of the manifest before `i` are looked at.
    pub open spec fn file_from(self, s: ApplyState, i: int) -> (ApplyState, ApplyActionView) {
        let k = self.next_loose(s.skipped, i);
        if k < self.index.resource.len() {
            self.go(s, ApplyStage::CheckingFile(k as usize))
        } else {
            self.go(s, ApplyStage::Preparing)
        }
    }

    /// What to do once the files to swap in before `i` are swapped in.
    pub open spec fn swap_from(self, s: ApplyState, i: int) -> (ApplyState, ApplyActionView) {
        if i < s.swaps.len() {
            self.go(s, ApplyStage::Swapping(i as usize, SwapStep::FindTarget))
        } else {
            self.obsolete_from(s, 0)
        }
    }

    /// What to do once the obsolete files before `i` are gone.
    pub open spec fn obsolete_from(self, s: ApplyState, i: int) -> (ApplyState, ApplyActionView) {
        if i < self.index.delete_files.len() {
            self.go(s, ApplyStage::FindingObsolete(i as usize))
        } else {
            self.go(s, ApplyStage::Recording(SwapStep::FindTarget))
        }
    }

    /// What to do once the moves from `n` on are taken back.
    pub open spec fn undo_from(self, s: ApplyState, n: int) -> (ApplyState, ApplyActionView) {
        if n > 0 {
            self.go(s, ApplyStage::Undoing((n - 1) as usize))
        } else {
            self.end(s, ApplyActionView::Fail(s.failure->0))
        }
    }

    /// What to do after a step of the swap at `i`.
    pub open spec fn after_swap_step(self, s: ApplyState, i: int, next: Option<SwapStep>) -> (
        ApplyState,
        ApplyActionView,
    ) {
        match next {
            Some(step) => self.go(s, ApplyStage::Swapping(i as usize, step)),
            None => self.swap_from(
                ApplyState {
                    report: ApplyReportView { swapped: s.report.swapped + 1, ..s.report },
                    ..s
                },
                i + 1,
            ),
        }
    }

    /// What to do after a step of the record.
    pub open spec fn after_record_step(self, s: ApplyState, next: Option<SwapStep>) -> (
        ApplyState,
        ApplyActionView,
    ) {
        match next {
            Some(step) => self.go(s, ApplyStage::Recording(step)),
            None => self.go(s, ApplyStage::Retiring),
        }
    }

    /// Whether a stage makes a move that can be taken back.
    pub open spec fn is_move(self, stage: ApplyStage) -> bool {
        match stage {
            ApplyStage::ShelvingLeftover => true,
            ApplyStage::Swapping(_, step) => !step.is_look(),
            ApplyStage::Deleting(_) => true,
            ApplyStage::Recording(step) => !step.is_look(),
            _ => false,
        }
    }

    /// Whether a state speaks of files and moves that the update has, and counts no swap twice.
    pub open spec fn stands(self, s: ApplyState) -> bool {
        let checked = self.results(s.skipped).len();
        &&& s.skipped.len() == self.index.group_infos.len()
        &&& match s.stage {
            ApplyStage::Fetching(i) => i < s.fallbacks.len() && s.report.swapped == 0,
            ApplyStage::CheckingFull(j) => j < checked && s.report.swapped == 0,
            ApplyStage::CheckingOutput(j) => j < checked && s.report.swapped == 0,
            ApplyStage::CheckingFile(k) => k < self.index.resource.len() && s.report.swapped == 0,
            ApplyStage::Swapping(i, _) => i < s.swaps.len() && s.report.swapped == i,
            ApplyStage::FindingObsolete(i) => i < self.index.delete_files.len(),
            ApplyStage::Deleting(i) => i < self.index.delete_files.len(),
            ApplyStage::Recording(_) => true,
            ApplyStage::Retiring => true,
            ApplyStage::Discarding => true,
            ApplyStage::Undoing(k) => k < s.log.len() && s.failure is Some,
            ApplyStage::Ended => true,
            _ => s.report.swapped == 0,
        }
    }

    /// Whether an event answers what a stage waits for.
    pub open spec fn answers(self, stage: ApplyStage, event: ApplyEventView) -> bool {
        match stage {
            ApplyStage::Start => event is Begin,
            ApplyStage::FindingStaging => event is Exists,
            ApplyStage::Merging => match event {
                ApplyEventView::Merged(outcomes) => outcomes.len() == self.index.group_infos.len(),
                _ => event is Failed,
            },
            ApplyStage::CheckingFull(_) => event is Digest || event is Failed,
            ApplyStage::CheckingOutput(_) => event is Digest || event is Failed,
            ApplyStage::CheckingFile(_) => event is Digest || event is Failed,
            ApplyStage::FindingLeftover => event is Exists,
            ApplyStage::Swapping(_, step) => if step.is_look() {
                event is Exists
            } else {
                event is Done || event is Failed
            },
            ApplyStage::FindingObsolete(_) => event is Exists,
            ApplyStage::Recording(step) => if step.is_look() {
                event is Exists
            } else {
                event is Done || event is Failed
            },
            ApplyStage::Ended => false,
            _ => event is Done || event is Failed,
        }
    }

    /// What to do after a failure. A move that failed has changed nothing; those before it are taken
    /// back. What was the staging folder is of no account any more.
    pub open spec fn after_failure(self, s: ApplyState, e: ErrorView) -> (
        ApplyState,
        ApplyActionView,
    ) {
        if self.is_move(s.stage) || s.stage == ApplyStage::Retiring {
            self.undo_from(ApplyState { failure: Some(e), ..s }, s.log.len() as int)
        } else {
            match s.stage {
                ApplyStage::Undoing(k) => self.undo_from(s, k as int),
                ApplyStage::Discarding => self.end(s, ApplyActionView::Finish(s.report)),
                _ => self.end(s, ApplyActionView::Fail(e)),
            }
        }
    }

    /// The state after its move was made.
    pub open spec fn noted(self, s: ApplyState) -> ApplyState {
        ApplyState { log: s.log.push(self.ask(s)->step), ..s }
    }

    /// What to do after something was done.
    pub open spec fn after_done(self, s: ApplyState) -> (ApplyState, ApplyActionView) {
        match s.stage {
            ApplyStage::Fetching(i) => self.fetch_from(s, i + 1),
            ApplyStage::Preparing => self.go(s, ApplyStage::StagingRecord),
            ApplyStage::StagingRecord => self.go(s, ApplyStage::FindingLeftover),
            ApplyStage::ShelvingLeftover => self.swap_from(self.noted(s), 0),
            ApplyStage::Swapping(i, step) => self.after_swap_step(
                self.noted(s),
                i as int,
                step.after(true),
            ),
            ApplyStage::Deleting(i) => {
                let noted = self.noted(s);
                let file = self.index.delete_files[i as int];
                let report = ApplyReportView {
                    deleted: s.report.deleted.push(file),
                    ..s.report
                };
                self.obsolete_from(ApplyState { report, ..noted }, i + 1)
            },
            ApplyStage::Recording(step) => self.after_record_step(
                self.noted(s),
                step.after(true),
            ),
            ApplyStage::Retiring => self.go(s, ApplyStage::Discarding),
            ApplyStage::Undoing(k) => self.undo_from(s, k as int),
            _ => self.end(s, ApplyActionView::Finish(s.report)),
        }
    }

    /// What to do after it was seen whether something is there.
    pub open spec fn after_probe(self, s: ApplyState, there: bool) -> (ApplyState, ApplyActionView) {
        match s.stage {
            ApplyStage::FindingLeftover => if there {
                self.go(s, ApplyStage::ShelvingLeftover)
            } else {
                self.swap_from(s, 0)
            },
            ApplyStage::Swapping(i, step) => self.after_swap_step(s, i as int, step.after(there)),
            ApplyStage::FindingObsolete(i) => if there {
                self.go(s, ApplyStage::Deleting(i))
            } else {
                self.obsolete_from(s, i + 1)
            },
            ApplyStage::Recording(step) => self.after_record_step(s, step.after(there)),
            _ => if there {
                self.go(s, ApplyStage::Merging)
            } else {
                self.end(s, ApplyActionView::Fail(not_fetched()))
            },
        }
    }

    /// The error for a staged file that has another digest than it should.
    pub open spec fn mismatch(self, s: ApplyState, expected: Seq<char>, actual: Seq<char>) -> ErrorView {
        ErrorView::ChecksumMismatch { path: self.ask(s)->Digest_0, expected, actual }
    }

    /// The state with one more file to swap in: the one that was hashed.
    pub open spec fn planned(self, s: ApplyState, dest: Seq<char>) -> ApplyState {
        ApplyState { swaps: s.swaps.push(self.swap(self.ask(s)->Digest_0, dest)), ..s }
    }

    /// What to do after a file was hashed.
    pub open spec fn after_digest(self, s: ApplyState, found: Option<Seq<char>>) -> (
        ApplyState,
        ApplyActionView,
    ) {
        match s.stage {
            ApplyStage::CheckingFull(j) => {
                let file = self.results(s.skipped)[j as int];
                if is_good(found, file.md5) {
                    self.check_from(self.planned(s, file.dest), j + 1)
                } else {
                    self.go(s, ApplyStage::CheckingOutput(j))
                }
            },
            ApplyStage::CheckingOutput(j) => {
                let file = self.results(s.skipped)[j as int];
                if is_good(found, file.md5) {
                    self.check_from(self.planned(s, file.dest), j + 1)
                } else if let Some(md5) = found {
                    self.end(s, ApplyActionView::Fail(self.mismatch(s, file.md5, md5)))
                } else {
                    self.end(s, ApplyActionView::Fail(not_staged(file.dest)))
                }
            },
            ApplyStage::CheckingFile(k) => {
                let item = self.index.resource[k as int];
                if is_good(found, item.md5) {
                    self.file_from(self.planned(s, item.dest), k + 1)
                } else if let Some(md5) = found {
                    self.end(s, ApplyActionView::Fail(self.mismatch(s, item.md5, md5)))
                } else {
                    self.file_from(s, k + 1)
                }
            },
            _ => self.end(s, ApplyActionView::Finish(s.report)),
        }
    }

    /// What to do after the groups were merged.
    pub open spec fn after_merge(self, s: ApplyState, outcomes: Seq<GroupOutcomeView>) -> (
        ApplyState,
        ApplyActionView,
    ) {
        let merged = ApplyState {
            fallbacks: first_of_each(whole_files(outcomes)),
            skipped: self.skipped(outcomes),
            report: ApplyReportView {
                merged: merged_count(outcomes),
                skipped: skipped_count(outcomes),
                fallback: fallback_count(outcomes),
                ..s.report
            },
            ..s
        };
        self.fetch_from(merged, 0)
    }

    /// What to do after an event: the next state and the action.
    #[verifier::opaque]
    pub open spec fn next(self, s: ApplyState, event: ApplyEventView) -> (
        ApplyState,
        ApplyActionView,
    ) {
        match event {
            ApplyEventView::Begin => self.go(s, ApplyStage::FindingStaging),
            ApplyEventView::Exists(there) => self.after_probe(s, there),
            ApplyEventView::Merged(outcomes) => self.after_merge(s, outcomes),
            ApplyEventView::Digest(found) => self.after_digest(s, found),
            ApplyEventView::Done => self.after_done(s),
            ApplyEventView::Failed(e) => self.after_failure(s, e),
        }
    }

    /// The state in which an update starts.
    pub open spec fn start(self) -> ApplyState {
        ApplyState {
            stage: ApplyStage::Start,
            fallbacks: Seq::empty(),
            skipped: none_skipped(self.index.group_infos.len()),
            swaps: Seq::empty(),
            log: Seq::empty(),
            failure: None,
            report: empty_report(),
        }
    }

    /// Whether what the update lists, and what a state collected, can be counted.
    pub open spec fn fits(self, s: ApplyState) -> bool {
        &&& self.index.resource.len() <= usize::MAX
        &&& self.index.delete_files.len() <= usize::MAX
        &&& self.results(s.skipped).len() <= usize::MAX
        &&& s.fallbacks.len() <= usize::MAX
        &&& s.swaps.len() <= usize::MAX
        &&& s.log.len() <= usize::MAX
    }
}

/// Between a position and the next full file that no group produces there is none.
pub proof fn lemma_next_loose(task: ApplyTask, skipped: Seq<bool>, i: int)
    requires
        0 <= i <= task.index.resource.len(),
    ensures
        i <= task.next_loose(skipped, i) <= task.index.resource.len(),
        forall|k: int|
            i <= k < task.next_loose(skipped, i) ==> !(#[trigger] task.is_loose(skipped, k)),
        task.next_loose(skipped, i) < task.index.resource.len() ==> task.is_loose(
            skipped,
            task.next_loose(skipped, i),
        ),
    decreases task.index.resource.len() - i,
{
    if i < task.index.resource.len() && !task.is_loose(skipped, i) {
        lemma_next_loose(task, skipped, i + 1);
    }
}

/// A state that stands leads to one that stands, as long as what it collects can be counted.
pub proof fn law_apply_stands(task: ApplyTask, s: ApplyState, event: ApplyEventView)
    requires
        task.stands(s),
        task.answers(s.stage, event),
        task.fits(task.next(s, event).0),
    ensures
        task.stands(task.next(s, event).0),
{
    reveal(ApplyTask::next);
    lemma_next_loose(task, task.next(s, event).0.skipped, 0);
    if let ApplyStage::CheckingFile(k) = s.stage {
        lemma_next_loose(task, s.skipped, k + 1);
    }
}

/// The course of an update.
pub struct ApplyRun {
    pub game_folder: String,
    pub cdn: String,
    pub base_url: String,
    pub app_id: String,
    pub to_version: String,
    pub index: PatchIndex,
    pub by_dest: DestIndex,
    /// Which groups were applied before.
    pub skipped: Vec<bool>,
    /// The files that the groups produce.
    pub results: Vec<FileRef>,
    /// The paths of the files that the groups produce.
    pub result_names: StringHashSet,
    pub stage: ApplyStage,
    /// The files to fetch whole.
    pub fallbacks: Vec<FileRef>,
    /// The files to swap in.
    pub swaps: Vec<Swap>,
    /// The moves that were made.
    pub log: Vec<Move>,
    /// Why the moves are taken back.
    pub failure: Option<Error>,
    pub report: ApplyReport,
}

impl ApplyRun {
    /// What the update works on.
    pub open spec fn task(&self) -> ApplyTask {
        ApplyTask {
            game_folder: self.game_folder@,
            cdn: self.cdn@,
            base_url: self.base_url@,
            app_id: self.app_id@,
            to_version: self.to_version@,
            index: self.index.deep_view(),
        }
    }

    /// How far the update has come.
    pub open spec fn state(&self) -> ApplyState {
        ApplyState {
            stage: self.stage,
            fallbacks: self.fallbacks.deep_view(),
            skipped: self.skipped@,
            swaps: self.swaps.deep_view(),
            log: self.log.deep_view(),
            failure: self.failure.deep_view(),
            report: self.report.deep_view(),
        }
    }

    /// The collected lists are those of the manifest.
    pub open spec fn lists_stand(&self) -> bool {
        &&& self.by_dest.indexes(self.index.deep_view().resource)
        &&& self.results.deep_view() == self.task().results(self.skipped@)
        &&& forall|d: Seq<char>|
            #[trigger] self.result_names@.contains(d) <==> names(
                self.task().results(self.skipped@),
                d,
            )
    }

    /// The collected lists are those of the manifest, and the state stands.
    pub open spec fn wf(&self) -> bool {
        &&& self.lists_stand()
        &&& self.task().stands(self.state())
    }

    /// Whether an event answers what the update waits for.
    pub fn accepts(&self, event: &ApplyEvent) -> (r: bool)
        ensures
            r == self.task().answers(self.stage, event.deep_view()),
    {
        let exists = matches!(event, ApplyEvent::Exists(_));
        let failed = matches!(event, ApplyEvent::Failed(_));
        let done = matches!(event, ApplyEvent::Done) || failed;
        let digest = matches!(event, ApplyEvent::Digest(_)) || failed;
        match self.stage {
            ApplyStage::Start => matches!(event, ApplyEvent::Begin),
            ApplyStage::FindingStaging => exists,
            ApplyStage::Merging => match event {
                ApplyEvent::Merged(outcomes) => outcomes.len() == self.index.group_infos.len(),
                _ => failed,
            },
            ApplyStage::CheckingFull(_) => digest,
            ApplyStage::CheckingOutput(_) => digest,
            ApplyStage::CheckingFile(_) => digest,
            ApplyStage::FindingLeftover => exists,
            ApplyStage::Swapping(_, step) => if step.looks() {
                exists
            } else {
                done
            },
            ApplyStage::FindingObsolete(_) => exists,
            ApplyStage::Recording(step) => if step.looks() {
                exists
            } else {
                done
            },
            ApplyStage::Ended => false,
            _ => done,
        }
    }

    fn fallback_job(&self, file: &FileRef) -> (r: FetchJob)
        requires
            self.by_dest.indexes(self.index.deep_view().resource),
        ensures
            r.deep_view() == fallback_job(self.task(), file.deep_view()),
    {
        let dest = file.dest.as_str();
        let target = state::staged_output_path(self.game_folder.as_str(), dest);
        let tmp = paths::with_extension(target.as_str(), "tmp");
        if let Some(item) = self.by_dest.get(&self.index.resource, dest) {
            if let Some(folder) = &item.from_folder {
                let chunks = item.chunk_infos.clone();
                assert(chunks.deep_view() =~= item.chunk_infos.deep_view());
                let md5 = if chunks.len() == 0 {
                    file.md5.clone()
                } else {
                    item.md5.clone()
                };
                let r = FetchJob {
                    name: file.dest.clone(),
                    url: ApiClient::resource_url(self.cdn.as_str(), folder.as_str(), dest),
                    tmp,
                    target,
                    size: Some(file.size),
                    md5: Some(md5),
                    chunks,
                };
                assert(r.deep_view() =~= fallback_job(self.task(), file.deep_view()));
                return r;
            }
        }
        let r = FetchJob {
            name: file.dest.clone(),
            url: ApiClient::resource_url(self.cdn.as_str(), self.base_url.as_str(), dest),
            tmp,
            target,
            size: Some(file.size),
            md5: Some(file.md5.clone()),
            chunks: Vec::new(),
        };
        assert(r.chunks.deep_view() =~= Seq::empty());
        assert(r.deep_view() =~= fallback_job(self.task(), file.deep_view()));
        r
    }

    fn merge_order(&self) -> (r: Vec<usize>)
        ensures
            r@ == self.task().merge_order(),
            order::is_merge_order(self.index.deep_view().group_infos, r@),
    {
        let r = order::merge_order(&self.index.group_infos);
        proof {
            order::law_merge_order_is_unique(
                self.index.deep_view().group_infos,
                r@,
                self.task().merge_order(),
            );
        }
        r
    }

    fn slot(&self) -> (r: String)
        ensures
            r@ == self.task().slot(self.state()),
    {
        state::slot_path(self.game_folder.as_str(), self.log.len())
    }

    /// The path of the file that is being hashed.
    fn hashed(&self) -> (r: String)
        requires
            self.lists_stand(),
            self.task().stands(self.state()),
            self.stage is CheckingFull || self.stage is CheckingOutput || self.stage is CheckingFile,
        ensures
            self.task().ask(self.state()) == ApplyActionView::Digest(r@),
    {
        let folder = self.game_folder.as_str();
        match self.stage {
            ApplyStage::CheckingFull(j) => {
                assert(self.results.deep_view()[j as int].dest == self.results@[j as int].dest@);
                state::staged_resource_path(folder, self.results[j].dest.as_str())
            },
            ApplyStage::CheckingOutput(j) => {
                assert(self.results.deep_view()[j as int].dest == self.results@[j as int].dest@);
                state::staged_output_path(folder, self.results[j].dest.as_str())
            },
            ApplyStage::CheckingFile(k) => {
                assert(self.index.deep_view().resource[k as int].dest
                    == self.index.resource@[k as int].dest@);
                state::staged_resource_path(folder, self.index.resource[k].dest.as_str())
            },
            _ => String::new(),
        }
    }

    fn record(&self) -> (r: Swap)
        ensures
            r.deep_view() == self.task().record(),
    {
        Swap {
            staged: state::staged_config_path(self.game_folder.as_str()),
            target: state::local_config_path(self.game_folder.as_str()),
        }
    }

    /// The move that the stage makes.
    fn current_move(&self) -> (r: Move)
        requires
            self.lists_stand(),
            self.task().stands(self.state()),
            self.task().is_move(self.stage),
        ensures
            self.task().ask(self.state()) is Rename,
            r.deep_view() == self.task().ask(self.state())->step,
    {
        let folder = self.game_folder.as_str();
        match self.stage {
            ApplyStage::Swapping(i, step) => {
                assert(self.swaps.deep_view()[i as int] == self.swaps@[i as int].deep_view());
                self.swaps[i].step_move(step, self.slot())
            },
            ApplyStage::Deleting(i) => {
                assert(self.index.deep_view().delete_files[i as int]
                    == self.index.delete_files@[i as int]@);
                Move {
                    from: paths::join_inside(folder, self.index.delete_files[i].as_str()),
                    to: self.slot(),
                }
            },
            ApplyStage::Recording(step) => self.record().step_move(step, self.slot()),
            _ => Move { from: state::discarded_dir(folder), to: self.slot() },
        }
    }

    /// What the update asks for.
    fn ask(&self) -> (r: ApplyAction)
        requires
            self.lists_stand(),
            self.task().stands(self.state()),
        ensures
            r.deep_view() == self.task().ask(self.state()),
    {
        let folder = self.game_folder.as_str();
        match self.stage {
            ApplyStage::Merging => ApplyAction::Merge(self.merge_order()),
            ApplyStage::Fetching(i) => {
                assert(self.fallbacks.deep_view()[i as int]
                    == self.fallbacks@[i as int].deep_view());
                ApplyAction::Fetch(self.fallback_job(&self.fallbacks[i]))
            },
            ApplyStage::CheckingFull(_) => ApplyAction::Digest(self.hashed()),
            ApplyStage::CheckingOutput(_) => ApplyAction::Digest(self.hashed()),
            ApplyStage::CheckingFile(_) => ApplyAction::Digest(self.hashed()),
            ApplyStage::Preparing => ApplyAction::Clear(state::kept_dir(folder)),
            ApplyStage::StagingRecord => ApplyAction::StageRecord {
                config: state::new_local_config(self.to_version.as_str(), self.app_id.as_str()),
                path: state::staged_config_path(folder),
            },
            ApplyStage::FindingLeftover => ApplyAction::Probe(state::discarded_dir(folder)),
            ApplyStage::ShelvingLeftover => ApplyAction::Rename {
                step: self.current_move(),
                only_file: false,
            },
            ApplyStage::Swapping(i, step) => {
                assert(self.swaps.deep_view()[i as int] == self.swaps@[i as int].deep_view());
                if step.looks() {
                    ApplyAction::Probe(self.swaps[i].looked(step))
                } else {
                    ApplyAction::Rename { step: self.current_move(), only_file: false }
                }
            },
            ApplyStage::FindingObsolete(i) => {
                assert(self.index.deep_view().delete_files[i as int]
                    == self.index.delete_files@[i as int]@);
                ApplyAction::Probe(
                    paths::join_inside(folder, self.index.delete_files[i].as_str()),
                )
            },
            ApplyStage::Deleting(_) => ApplyAction::Rename {
                step: self.current_move(),
                only_file: true,
            },
            ApplyStage::Recording(step) => if step.looks() {
                ApplyAction::Probe(self.record().looked(step))
            } else {
                ApplyAction::Rename { step: self.current_move(), only_file: false }
            },
            ApplyStage::Retiring => ApplyAction::Retire(
                Move { from: state::incremental_dir(folder), to: state::discarded_dir(folder) },
            ),
            ApplyStage::Discarding => ApplyAction::Discard(state::discarded_dir(folder)),
            ApplyStage::Undoing(k) => {
                assert(self.log.deep_view()[k as int] == self.log@[k as int].deep_view());
                ApplyAction::Undo(self.log[k].clone())
            },
            _ => ApplyAction::Probe(state::incremental_dir(folder)),
        }
    }

    /// Goes to a stage.
    fn go(&mut self, stage: ApplyStage) -> (r: ApplyAction)
        requires
            old(self).lists_stand(),
            old(self).task().stands(ApplyState { stage, ..old(self).state() }),
        ensures
            final(self).lists_stand(),
            final(self).task() == old(self).task(),
            (final(self).state(), r.deep_view()) == old(self).task().go(old(self).state(), stage),
    {
        self.stage = stage;
        self.ask()
    }

    fn end(&mut self, action: ApplyAction) -> (r: ApplyAction)
        requires
            old(self).lists_stand(),
        ensures
            final(self).lists_stand(),
            final(self).task() == old(self).task(),
            (final(self).state(), r.deep_view()) == old(self).task().end(
                old(self).state(),
                action.deep_view(),
            ),
    {
        self.stage = ApplyStage::Ended;
        action
    }

    fn finish(&mut self) -> (r: ApplyAction)
        requires
            old(self).lists_stand(),
        ensures
            final(self).lists_stand(),
            final(self).task() == old(self).task(),
            (final(self).state(), r.deep_view()) == old(self).task().end(
                old(self).state(),
                ApplyActionView::Finish(old(self).state().report),
            ),
    {
        let report = self.report.clone();
        self.end(ApplyAction::Finish(report))
    }

    fn is_complete(&self, dest: &str) -> (r: bool)
        requires
            self.lists_stand(),
        ensures
            r == is_complete(self.index.deep_view().resource, dest@),
    {
        !manifest::is_krpdiff(dest) && self.by_dest.get(&self.index.resource, dest).is_some()
    }

    fn is_loose(&self, i: usize) -> (r: bool)
        requires
            self.lists_stand(),
            i < self.index.resource@.len(),
        ensures
            r == self.task().is_loose(self.skipped@, i as int),
    {
        assert(self.index.deep_view().resource[i as int].dest
            == self.index.resource@[i as int].dest@);
        let dest = self.index.resource[i].dest.as_str();
        if manifest::is_krpdiff(dest) || self.result_names.contains(dest) {
            return false;
        }
        match self.by_dest.position(Ghost(self.index.deep_view().resource), dest) {
            Some(k) => k == i,
            None => false,
        }
    }

    fn obsolete_from(&mut self, i: usize) -> (r: ApplyAction)
        requires
            old(self).wf(),
            i <= old(self).index.delete_files@.len(),
        ensures
            final(self).lists_stand(),
            final(self).task() == old(self).task(),
            (final(self).state(), r.deep_view()) == old(self).task().obsolete_from(
                old(self).state(),
                i as int,
            ),
    {
        if i < self.index.delete_files.len() {
            self.go(ApplyStage::FindingObsolete(i))
        } else {
            self.go(ApplyStage::Recording(SwapStep::FindTarget))
        }
    }

    fn swap_from(&mut self, i: usize) -> (r: ApplyAction)
        requires
            old(self).wf(),
            i <= old(self).swaps@.len(),
            old(self).report.swapped == i,
        ensures
            final(self).lists_stand(),
            final(self).task() == old(self).task(),
            (final(self).state(), r.deep_view()) == old(self).task().swap_from(
                old(self).state(),
                i as int,
            ),
    {
        if i < self.swaps.len() {
            self.go(ApplyStage::Swapping(i, SwapStep::FindTarget))
        } else {
            self.obsolete_from(0)
        }
    }

    fn file_from(&mut self, i: usize) -> (r: ApplyAction)
        requires
            old(self).wf(),
            i <= old(self).index.resource@.len(),
            old(self).report.swapped == 0,
        ensures
            final(self).lists_stand(),
            final(self).task() == old(self).task(),
            (final(self).state(), r.deep_view()) == old(self).task().file_from(
                old(self).state(),
                i as int,
            ),
    {
        let n: usize = self.index.resource.len();
        let mut k: usize = i;
        while k < n && !self.is_loose(k)
            invariant
                i <= k <= n,
                n == self.index.resource@.len(),
                self.lists_stand(),
                self.task().next_loose(self.skipped@, i as int) == self.task().next_loose(
                    self.skipped@,
                    k as int,
                ),
            decreases n - k,
        {
            k = k + 1;
        }
        if k < n {
            self.go(ApplyStage::CheckingFile(k))
        } else {
            self.go(ApplyStage::Preparing)
        }
    }

    fn check_from(&mut self, j: usize) -> (r: ApplyAction)
        requires
            old(self).wf(),
            j <= old(self).results@.len(),
            old(self).report.swapped == 0,
        ensures
            final(self).lists_stand(),
            final(self).task() == old(self).task(),
            (final(self).state(), r.deep_view()) == old(self).task().check_from(
                old(self).state(),
                j as int,
            ),
    {
        if j >= self.results.len() {
            return self.file_from(0);
        }
        assert(self.results.deep_view()[j as int].dest == self.results@[j as int].dest@);
        if self.is_complete(self.results[j].dest.as_str()) {
            self.go(ApplyStage::CheckingFull(j))
        } else {
            self.go(ApplyStage::CheckingOutput(j))
        }
    }

    fn fetch_from(&mut self, i: usize) -> (r: ApplyAction)
        requires
            old(self).wf(),
            i <= old(self).fallbacks@.len(),
            old(self).report.swapped == 0,
        ensures
            final(self).lists_stand(),
            final(self).task() == old(self).task(),
            (final(self).state(), r.deep_view()) == old(self).task().fetch_from(
                old(self).state(),
                i as int,
            ),
    {
        if i < self.fallbacks.len() {
            self.go(ApplyStage::Fetching(i))
        } else {
            self.check_from(0)
        }
    }

    fn undo_from(&mut self, n: usize) -> (r: ApplyAction)
        requires
            old(self).wf(),
            n <= old(self).log@.len(),
            old(self).failure is Some,
        ensures
            final(self).lists_stand(),
            final(self).task() == old(self).task(),
            (final(self).state(), r.deep_view()) == old(self).task().undo_from(
                old(self).state(),
                n as int,
            ),
    {
        if n > 0 {
            self.go(ApplyStage::Undoing(n - 1))
        } else {
            let failure = self.failure.as_ref().unwrap().clone();
            self.end(ApplyAction::Fail(failure))
        }
    }

    fn after_swap_step(&mut self, i: usize, next: Option<SwapStep>) -> (r: ApplyAction)
        requires
            old(self).wf(),
            i < old(self).swaps@.len(),
            old(self).report.swapped == i,
        ensures
            final(self).lists_stand(),
            final(self).task() == old(self).task(),
            (final(self).state(), r.deep_view()) == old(self).task().after_swap_step(
                old(self).state(),
                i as int,
                next,
            ),
    {
        match next {
            Some(step) => self.go(ApplyStage::Swapping(i, step)),
            None => {
                let count: usize = self.swaps.len();
                assert(i < count);
                self.stage = ApplyStage::Ended;
                self.report.swapped = i + 1;
                self.swap_from(i + 1)
            },
        }
    }

    fn after_record_step(&mut self, next: Option<SwapStep>) -> (r: ApplyAction)
        requires
            old(self).wf(),
        ensures
            final(self).lists_stand(),
            final(self).task() == old(self).task(),
            (final(self).state(), r.deep_view()) == old(self).task().after_record_step(
                old(self).state(),
                next,
            ),
    {
        match next {
            Some(step) => self.go(ApplyStage::Recording(step)),
            None => self.go(ApplyStage::Retiring),
        }
    }

    /// Notes the move that was made.
    fn note(&mut self)
        requires
            old(self).wf(),
            old(self).task().is_move(old(self).stage),
        ensures
            final(self).wf(),
            final(self).task() == old(self).task(),
            final(self).index == old(self).index,
            final(self).swaps == old(self).swaps,
            final(self).report == old(self).report,
            final(self).state() == old(self).task().noted(old(self).state()),
    {
        let ghost before = self.log.deep_view();
        let step = self.current_move();
        let ghost noted = step.deep_view();
        self.log.push(step);
        assert(self.log.deep_view() =~= before.push(noted));
    }

    /// What to do after an event that answers the last action.
    pub fn next(&mut self, event: ApplyEvent) -> (r: ApplyAction)
        requires
            old(self).wf(),
            old(self).task().answers(old(self).stage, event.deep_view()),
        ensures
            final(self).wf(),
            final(self).task() == old(self).task(),
            (final(self).state(), r.deep_view()) == old(self).task().next(
                old(self).state(),
                event.deep_view(),
            ),
    {
        let ghost said = event.deep_view();
        proof {
            reveal(ApplyTask::next);
        }
        let r = match event {
            ApplyEvent::Begin => self.go(ApplyStage::FindingStaging),
            ApplyEvent::Exists(there) => self.on_probe(there),
            ApplyEvent::Merged(outcomes) => self.on_merged(&outcomes),
            ApplyEvent::Digest(found) => self.on_digest(found),
            ApplyEvent::Done => self.on_done(),
            ApplyEvent::Failed(e) => self.on_failed(e),
        };
        assert(self.fallbacks.len() <= usize::MAX && self.swaps.len() <= usize::MAX
            && self.log.len() <= usize::MAX && self.results.len() <= usize::MAX
            && self.index.resource.len() <= usize::MAX && self.index.delete_files.len()
            <= usize::MAX);
        proof {
            law_apply_stands(old(self).task(), old(self).state(), said);
        }
        r
    }

    fn on_merged(&mut self, outcomes: &Vec<GroupOutcome>) -> (r: ApplyAction)
        requires
            old(self).wf(),
            old(self).stage == ApplyStage::Merging,
            outcomes@.len() == old(self).index.group_infos@.len(),
        ensures
            final(self).lists_stand(),
            final(self).task() == old(self).task(),
            (final(self).state(), r.deep_view()) == old(self).task().after_merge(
                old(self).state(),
                outcomes.deep_view(),
            ),
    {
        let order = self.merge_order();
        let (merged, skipped, whole) = count_outcomes(outcomes);
        self.report.merged = merged;
        self.report.skipped = skipped;
        self.report.fallback = whole;
        self.fallbacks = collect_fallbacks(outcomes);
        self.skipped = skipped_groups(&order, outcomes);
        assert(self.skipped@ =~= self.task().skipped(outcomes.deep_view()));
        self.results = collect_results(&self.index.group_infos, &self.skipped);
        self.result_names = collect_names(&self.results);
        self.fetch_from(0)
    }

    fn on_probe(&mut self, there: bool) -> (r: ApplyAction)
        requires
            old(self).wf(),
            old(self).task().answers(old(self).stage, ApplyEventView::Exists(there)),
        ensures
            final(self).lists_stand(),
            final(self).task() == old(self).task(),
            (final(self).state(), r.deep_view()) == old(self).task().after_probe(
                old(self).state(),
                there,
            ),
    {
        match self.stage {
            ApplyStage::FindingLeftover => if there {
                self.go(ApplyStage::ShelvingLeftover)
            } else {
                self.swap_from(0)
            },
            ApplyStage::Swapping(i, step) => self.after_swap_step(i, step.next(there)),
            ApplyStage::FindingObsolete(i) => {
                let count: usize = self.index.delete_files.len();
                assert(i < count);
                if there {
                    self.go(ApplyStage::Deleting(i))
                } else {
                    self.obsolete_from(i + 1)
                }
            },
            ApplyStage::Recording(step) => self.after_record_step(step.next(there)),
            _ => {
                if there {
                    self.go(ApplyStage::Merging)
                } else {
                    self.end(
                        ApplyAction::Fail(
                            Error::MissingField(".incremental_download — run predownload first"),
                        ),
                    )
                }
            },
        }
    }

    /// Plans to swap in the file that was hashed.
    fn plan(&mut self, dest: &str)
        requires
            old(self).wf(),
            old(self).stage is CheckingFull || old(self).stage is CheckingOutput
                || old(self).stage is CheckingFile,
        ensures
            final(self).wf(),
            final(self).task() == old(self).task(),
            final(self).index == old(self).index,
            final(self).results == old(self).results,
            final(self).report == old(self).report,
            final(self).state() == old(self).task().planned(old(self).state(), dest@),
    {
        let ghost before = self.swaps.deep_view();
        let swap = Swap {
            staged: self.hashed(),
            target: paths::join_inside(self.game_folder.as_str(), dest),
        };
        let ghost planned = swap.deep_view();
        self.swaps.push(swap);
        assert(self.swaps.deep_view() =~= before.push(planned));
    }

    /// Ends the update because of a file that has another digest than it should.
    fn reject(&mut self, expected: &str, actual: String) -> (r: ApplyAction)
        requires
            old(self).wf(),
            old(self).stage is CheckingFull || old(self).stage is CheckingOutput
                || old(self).stage is CheckingFile,
        ensures
            final(self).lists_stand(),
            final(self).task() == old(self).task(),
            (final(self).state(), r.deep_view()) == old(self).task().end(
                old(self).state(),
                ApplyActionView::Fail(
                    old(self).task().mismatch(old(self).state(), expected@, actual@),
                ),
            ),
    {
        let path = self.hashed();
        self.end(
            ApplyAction::Fail(
                Error::ChecksumMismatch { path, expected: expected.to_owned(), actual },
            ),
        )
    }

    fn on_digest(&mut self, found: Option<String>) -> (r: ApplyAction)
        requires
            old(self).wf(),
            old(self).task().answers(
                old(self).stage,
                ApplyEventView::Digest(found.deep_view()),
            ),
        ensures
            final(self).lists_stand(),
            final(self).task() == old(self).task(),
            (final(self).state(), r.deep_view()) == old(self).task().after_digest(
                old(self).state(),
                found.deep_view(),
            ),
    {
        match self.stage {
            ApplyStage::CheckingFull(j) => {
                let count: usize = self.results.len();
                assert(j < count);
                assert(self.results.deep_view()[j as int] == self.results@[j as int].deep_view());
                if matches_digest(&found, self.results[j].md5.as_str()) {
                    let dest = self.results[j].dest.clone();
                    self.plan(dest.as_str());
                    self.check_from(j + 1)
                } else {
                    self.go(ApplyStage::CheckingOutput(j))
                }
            },
            ApplyStage::CheckingOutput(j) => {
                let count: usize = self.results.len();
                assert(j < count);
                assert(self.results.deep_view()[j as int] == self.results@[j as int].deep_view());
                if matches_digest(&found, self.results[j].md5.as_str()) {
                    let dest = self.results[j].dest.clone();
                    self.plan(dest.as_str());
                    self.check_from(j + 1)
                } else {
                    match found {
                        Some(md5) => {
                            let expected = self.results[j].md5.clone();
                            self.reject(expected.as_str(), md5)
                        },
                        None => {
                            let text = "staged output missing for ".to_owned().concat(
                                self.results[j].dest.as_str(),
                            ).concat(" — rerun predownload/apply");
                            self.end(ApplyAction::Fail(Error::Patch(text)))
                        },
                    }
                }
            },
            ApplyStage::CheckingFile(k) => {
                let count: usize = self.index.resource.len();
                assert(k < count);
                assert(self.index.deep_view().resource[k as int]
                    == self.index.resource@[k as int].deep_view());
                if matches_digest(&found, self.index.resource[k].md5.as_str()) {
                    let dest = self.index.resource[k].dest.clone();
                    self.plan(dest.as_str());
                    self.file_from(k + 1)
                } else {
                    match found {
                        Some(md5) => {
                            let expected = self.index.resource[k].md5.clone();
                            self.reject(expected.as_str(), md5)
                        },
                        None => self.file_from(k + 1),
                    }
                }
            },
            _ => self.finish(),
        }
    }

    fn on_done(&mut self) -> (r: ApplyAction)
        requires
            old(self).wf(),
            old(self).task().answers(old(self).stage, ApplyEventView::Done),
        ensures
            final(self).lists_stand(),
            final(self).task() == old(self).task(),
            (final(self).state(), r.deep_view()) == old(self).task().after_done(
                old(self).state(),
            ),
    {
        match self.stage {
            ApplyStage::Fetching(i) => {
                let count: usize = self.fallbacks.len();
                assert(i < count);
                self.fetch_from(i + 1)
            },
            ApplyStage::Preparing => self.go(ApplyStage::StagingRecord),
            ApplyStage::StagingRecord => self.go(ApplyStage::FindingLeftover),
            ApplyStage::ShelvingLeftover => {
                self.note();
                self.swap_from(0)
            },
            ApplyStage::Swapping(i, step) => {
                self.note();
                self.after_swap_step(i, step.next(true))
            },
            ApplyStage::Deleting(i) => {
                let count: usize = self.index.delete_files.len();
                assert(i < count);
                self.note();
                let ghost before = self.report.deleted.deep_view();
                self.report.deleted.push(self.index.delete_files[i].clone());
                assert(self.report.deleted.deep_view() =~= before.push(
                    self.index.deep_view().delete_files[i as int],
                ));
                self.obsolete_from(i + 1)
            },
            ApplyStage::Recording(step) => {
                self.note();
                self.after_record_step(step.next(true))
            },
            ApplyStage::Retiring => self.go(ApplyStage::Discarding),
            ApplyStage::Undoing(k) => self.undo_from(k),
            _ => self.finish(),
        }
    }

    fn is_move(&self) -> (r: bool)
        ensures
            r == self.task().is_move(self.stage),
    {
        match self.stage {
            ApplyStage::ShelvingLeftover => true,
            ApplyStage::Swapping(_, step) => !step.looks(),
            ApplyStage::Deleting(_) => true,
            ApplyStage::Recording(step) => !step.looks(),
            _ => false,
        }
    }

    fn on_failed(&mut self, error: Error) -> (r: ApplyAction)
        requires
            old(self).wf(),
        ensures
            final(self).lists_stand(),
            final(self).task() == old(self).task(),
            (final(self).state(), r.deep_view()) == old(self).task().after_failure(
                old(self).state(),
                error.deep_view(),
            ),
    {
        if self.is_move() || self.stage == ApplyStage::Retiring {
            self.failure = Some(error);
            return self.undo_from(self.log.len());
        }
        match self.stage {
            ApplyStage::Undoing(k) => self.undo_from(k),
            ApplyStage::Discarding => self.finish(),
            _ => self.end(ApplyAction::Fail(error)),
        }
    }
}

/// What an update starts with.
pub enum ApplyChoice<'a> {
    /// The installed version is the one on the server.
    UpToDate,
    /// The update to apply, and the server to fetch from.
    Update { cdn: &'a str, patch: &'a PatchConfig },
}

impl GameManager {
    /// Decides which update to apply, from the local version and the index; `nanos` is the random
    /// number by which the server is picked.
    pub fn apply<'a>(&self, local: &Option<String>, index: &'a LauncherIndex, nanos: u64) -> (r:
        Result<ApplyChoice<'a>, Error>)
        requires
            client::total_weight(index.default.cdn_list@) <= u64::MAX,
        ensures
            ({
                let configs = index.default.config.patch_config@;
                let nodes = index.default.cdn_list@;
                let total = client::total_weight(nodes) as int;
                match local {
                    None => r is Err && r->Err_0.deep_view() == ErrorView::NoLocalConfig(
                        self.game_folder@,
                    ),
                    Some(v) => match r {
                        Ok(ApplyChoice::UpToDate) => v@ == index.default.version@,
                        Ok(ApplyChoice::Update { cdn, patch }) => {
                            &&& v@ != index.default.version@
                            &&& total > 0
                            &&& exists|i: int|
                                #[trigger] client::owns_roll(nodes, nanos as int % total, i)
                                    && cdn@ == nodes[i].url@
                            &&& exists|i: int|
                                #[trigger] manifest::update_from(configs, v@, i) && *patch
                                    == configs[i]
                        },
                        Err(e) => {
                            &&& v@ != index.default.version@
                            &&& if total == 0 {
                                e.deep_view() == ErrorView::NoCdnNode
                            } else {
                                e.deep_view() == manifest::no_update() && forall|i: int|
                                    0 <= i < configs.len() ==> (#[trigger] configs[i]).version@
                                        != v@
                            }
                        },
                    },
                }
            }),
    {
        match local {
            None => Err(Error::NoLocalConfig(self.game_folder.clone())),
            Some(v) => {
                if *v == index.default.version {
                    return Ok(ApplyChoice::UpToDate);
                }
                match ApiClient::pick_cdn(index, nanos) {
                    Err(e) => Err(e),
                    Ok(node) => match manifest::find_patch_config(
                        &index.default.config.patch_config,
                        v.as_str(),
                    ) {
                        Err(e) => Err(e),
                        Ok(patch) => Ok(ApplyChoice::Update { cdn: node.url.as_str(), patch }),
                    },
                }
            },
        }
    }

    /// Starts to apply an update that was fetched.
    pub fn apply_inner(
        &self,
        index: PatchIndex,
        cdn: &str,
        patch: &PatchConfig,
        to_version: &str,
    ) -> (r: ApplyRun)
        requires
            self.wf(),
        ensures
            r.wf(),
            r.task() == (ApplyTask {
                game_folder: self.game_folder@,
                cdn: cdn@,
                base_url: patch.base_url@,
                app_id: crate::config::entry_of(self.game, self.server)->0.app_id,
                to_version: to_version@,
                index: index.deep_view(),
            }),
            r.state() == r.task().start(),
            r.game_folder@ == self.game_folder@,
            r.cdn@ == cdn@,
            r.base_url@ == patch.base_url@,
            r.to_version@ == to_version@,
            r.index == index,
            self.game == crate::config::Game::WuWa && self.server == crate::config::Server::Cn
                ==> r.app_id@ == "10003"@,
            self.game == crate::config::Game::WuWa && self.server == crate::config::Server::Bilibili
                ==> r.app_id@ == "10004"@,
            self.game == crate::config::Game::WuWa && self.server == crate::config::Server::Global
                ==> r.app_id@ == "50004"@,
            self.game == crate::config::Game::Pgr && self.server == crate::config::Server::Global
                ==> r.app_id@ == "50015"@,
            self.game == crate::config::Game::Pgr && self.server == crate::config::Server::Cn
                ==> r.app_id@ == "10012"@,
    {
        let by_dest = DestIndex::new(&index.resource);
        let skipped = no_flags(index.group_infos.len());
        let results = collect_results(&index.group_infos, &skipped);
        let result_names = collect_names(&results);
        let r = ApplyRun {
            game_folder: self.game_folder.clone(),
            cdn: cdn.to_owned(),
            base_url: patch.base_url.clone(),
            app_id: self.server_entry().app_id.to_owned(),
            to_version: to_version.to_owned(),
            index,
            by_dest,
            skipped,
            results,
            result_names,
            stage: ApplyStage::Start,
            fallbacks: Vec::new(),
            swaps: Vec::new(),
            log: Vec::new(),
            failure: None,
            report: ApplyReport::default(),
        };
        assert(r.fallbacks.deep_view() =~= Seq::empty());
        assert(r.swaps.deep_view() =~= Seq::empty());
        assert(r.log.deep_view() =~= Seq::empty());
        r
    }
}

}
