//! Merging one patch group into staged files, or deciding that its files must be fetched whole.
//!
//! The course of a merge is decided here, one action at a time; whoever performs the actions
//! answers each of them with an event.

use vstd::prelude::*;

use crate::error::{Error, ErrorView};
use crate::manifest;
use crate::moves;
use crate::paths;
use crate::state;
use crate::text;
use crate::types::{FileRef, FileRefView, GroupInfo, GroupInfoView};

verus! {

/// What became of a group.
#[derive(Debug)]
pub enum GroupOutcome {
    /// All files that the group produces are staged.
    Merged,
    /// The group was applied before.
    Skipped,
    /// These files must be fetched whole.
    Fallback(Vec<FileRef>),
}

/// The model of [`GroupOutcome`].
pub enum GroupOutcomeView {
    Merged,
    Skipped,
    Fallback(Seq<FileRefView>),
}

impl DeepView for GroupOutcome {
    type V = GroupOutcomeView;

    open spec fn deep_view(&self) -> GroupOutcomeView {
        match self {
            GroupOutcome::Merged => GroupOutcomeView::Merged,
            GroupOutcome::Skipped => GroupOutcomeView::Skipped,
            GroupOutcome::Fallback(files) => GroupOutcomeView::Fallback(files.deep_view()),
        }
    }
}

/// What to do next for a group.
#[derive(Debug)]
pub enum MergeAction {
    /// Find the sizes of these files; answer with [`MergeEvent::Sizes`].
    Stat(Vec<String>),
    /// Hash this file; answer with [`MergeEvent::Hash`].
    Hash(String),
    /// Remove this folder where it exists; answer with [`MergeEvent::Done`].
    Clear(String),
    /// Apply a patch to a folder and put the results in another; answer with
    /// [`MergeEvent::Applied`].
    Apply { source: String, patch: String, out: String },
    /// Move a file into the staging folder; answer with [`MergeEvent::Done`].
    Stage { from: String, to: String },
    /// Try to remove this folder; answer with [`MergeEvent::Done`] in any case.
    Discard(String),
    /// The group is dealt with.
    Finish(GroupOutcome),
    /// The group failed.
    Fail(Error),
}

/// The model of [`MergeAction`].
pub enum MergeActionView {
    Stat(Seq<Seq<char>>),
    Hash(Seq<char>),
    Clear(Seq<char>),
    Apply { source: Seq<char>, patch: Seq<char>, out: Seq<char> },
    Stage { from: Seq<char>, to: Seq<char> },
    Discard(Seq<char>),
    Finish(GroupOutcomeView),
    Fail(ErrorView),
}

impl DeepView for MergeAction {
    type V = MergeActionView;

    open spec fn deep_view(&self) -> MergeActionView {
        match self {
            MergeAction::Stat(list) => MergeActionView::Stat(list.deep_view()),
            MergeAction::Hash(p) => MergeActionView::Hash(p@),
            MergeAction::Clear(p) => MergeActionView::Clear(p@),
            MergeAction::Apply { source, patch, out } => MergeActionView::Apply {
                source: source@,
                patch: patch@,
                out: out@,
            },
            MergeAction::Stage { from, to } => MergeActionView::Stage { from: from@, to: to@ },
            MergeAction::Discard(p) => MergeActionView::Discard(p@),
            MergeAction::Finish(o) => MergeActionView::Finish(o.deep_view()),
            MergeAction::Fail(e) => MergeActionView::Fail(e.deep_view()),
        }
    }
}

/// The answer to an action.
#[derive(Debug)]
pub enum MergeEvent {
    Begin,
    Sizes(Vec<Option<u64>>),
    /// The digest of the file, none where it could not be read.
    Hash(Option<String>),
    /// Whether the patch could be applied.
    Applied(bool),
    Done,
    Failed(Error),
}

/// The model of [`MergeEvent`].
pub enum MergeEventView {
    Begin,
    Sizes(Seq<Option<u64>>),
    Hash(Option<Seq<char>>),
    Applied(bool),
    Done,
    Failed(ErrorView),
}

impl DeepView for MergeEvent {
    type V = MergeEventView;

    open spec fn deep_view(&self) -> MergeEventView {
        match self {
            MergeEvent::Begin => MergeEventView::Begin,
            MergeEvent::Sizes(s) => MergeEventView::Sizes(s@),
            MergeEvent::Hash(h) => MergeEventView::Hash(h.deep_view()),
            MergeEvent::Applied(b) => MergeEventView::Applied(*b),
            MergeEvent::Done => MergeEventView::Done,
            MergeEvent::Failed(e) => MergeEventView::Failed(e.deep_view()),
        }
    }
}

/// Which answer a group waits for.
#[derive(Debug, Clone, Copy, PartialEq, Eq, Structural)]
pub enum MergeStage {
    Start,
    Statting,
    HashingSource,
    Clearing,
    Applying,
    /// The results before this one are dealt with; the digest of this one is awaited.
    Checking(usize),
    /// This result is being staged.
    Staging(usize),
    /// The results are being thrown away because the patch could not be applied.
    GivingUp,
    /// The folder of the results is being thrown away.
    Discarding,
    Ended,
}

/// What a merge works on.
pub struct MergeTask {
    pub game_folder: Seq<char>,
    pub staging: Seq<char>,
    pub group: GroupInfoView,
    pub idx: nat,
}

impl MergeTask {
    /// The folder for the results.
    pub open spec fn out_dir(self) -> Seq<char> {
        paths::joined(
            paths::joined(self.staging, ".apply_tmp"@),
            "group_"@ + text::decimal(self.idx),
        )
    }

    /// The number of files that the group produces.
    pub open spec fn count(self) -> int {
        self.group.dst_files.len() as int
    }

    /// Where the result `i` lies.
    pub open spec fn result(self, i: int) -> Seq<char> {
        paths::inside(self.out_dir(), self.group.dst_files[i].dest)
    }

    /// Where the result `i` is staged.
    pub open spec fn staged(self, i: int) -> Seq<char> {
        paths::inside(self.staging, self.group.dst_files[i].dest)
    }

    /// The first file that the group reads.
    pub open spec fn source(self) -> FileRefView {
        self.group.src_files[0]
    }

    /// The files that the group produces, inside the game folder.
    pub open spec fn targets(self) -> Seq<Seq<char>> {
        Seq::new(
            self.group.dst_files.len(),
            |i: int| paths::inside(self.game_folder, self.group.dst_files[i].dest),
        )
    }

    /// Whether the first source is in a state that the patch can be tried on: it is the old file,
    /// or already one of the new ones.
    pub open spec fn source_fits(self, md5: Seq<char>) -> bool {
        md5 == self.source().md5 || exists|i: int|
            0 <= i < self.count() && (#[trigger] self.group.dst_files[i]).md5 == md5
    }

    /// The files at the given positions.
    pub open spec fn files_at(self, positions: Seq<usize>) -> Seq<FileRefView> {
        positions.map_values(|i: usize| self.group.dst_files[i as int])
    }

    /// The outcome where the results at the positions `missing` were not good.
    pub open spec fn verdict(self, missing: Seq<usize>) -> GroupOutcomeView {
        if missing.len() == 0 {
            GroupOutcomeView::Merged
        } else {
            GroupOutcomeView::Fallback(self.files_at(missing))
        }
    }

    /// What to do once the results before `i` are dealt with.
    pub open spec fn proceed(self, i: int) -> (MergeStage, MergeActionView) {
        if i < self.count() {
            (MergeStage::Checking(i as usize), MergeActionView::Hash(self.result(i)))
        } else {
            (MergeStage::Discarding, MergeActionView::Discard(self.out_dir()))
        }
    }

    /// All files of the group must be fetched whole.
    pub open spec fn fall_back(self) -> (MergeStage, MergeActionView) {
        (
            MergeStage::Ended,
            MergeActionView::Finish(GroupOutcomeView::Fallback(self.group.dst_files)),
        )
    }

    /// Whether a stage speaks of files that the group has.
    pub open spec fn stands(self, stage: MergeStage) -> bool {
        match stage {
            MergeStage::HashingSource => self.group.src_files.len() > 0,
            MergeStage::Checking(i) => i < self.count(),
            MergeStage::Staging(i) => i < self.count(),
            _ => true,
        }
    }

    /// Whether an event answers what a stage waits for.
    pub open spec fn answers(self, stage: MergeStage, event: MergeEventView) -> bool {
        match stage {
            MergeStage::Start => event is Begin,
            MergeStage::Statting => event is Sizes,
            MergeStage::HashingSource => event is Hash,
            MergeStage::Clearing => event is Done || event is Failed,
            MergeStage::Applying => event is Applied || event is Failed,
            MergeStage::Checking(_) => event is Hash,
            MergeStage::Staging(_) => event is Done || event is Failed,
            MergeStage::GivingUp => event is Done,
            MergeStage::Discarding => event is Done,
            MergeStage::Ended => false,
        }
    }

    /// What to do after an event: the next stage, the positions of the bad results so far, and the
    /// action.
    pub open spec fn next(
        self,
        stage: MergeStage,
        missing: Seq<usize>,
        event: MergeEventView,
    ) -> (MergeStage, Seq<usize>, MergeActionView) {
        if let MergeEventView::Failed(e) = event {
            (MergeStage::Ended, missing, MergeActionView::Fail(e))
        } else {
            match stage {
                MergeStage::Start => (
                    MergeStage::Statting,
                    missing,
                    MergeActionView::Stat(self.targets()),
                ),
                MergeStage::Statting => if manifest::at_target(self.group, event->Sizes_0) {
                    (
                        MergeStage::Ended,
                        missing,
                        MergeActionView::Finish(GroupOutcomeView::Skipped),
                    )
                } else if self.group.src_files.len() == 0 {
                    (self.fall_back().0, missing, self.fall_back().1)
                } else {
                    (
                        MergeStage::HashingSource,
                        missing,
                        MergeActionView::Hash(
                            paths::inside(self.game_folder, self.source().dest),
                        ),
                    )
                },
                MergeStage::HashingSource => match event->Hash_0 {
                    Some(md5) if self.source_fits(md5) => (
                        MergeStage::Clearing,
                        missing,
                        MergeActionView::Clear(self.out_dir()),
                    ),
                    _ => (self.fall_back().0, missing, self.fall_back().1),
                },
                MergeStage::Clearing => (
                    MergeStage::Applying,
                    missing,
                    MergeActionView::Apply {
                        source: self.game_folder,
                        patch: paths::joined(self.staging, self.group.dest),
                        out: self.out_dir(),
                    },
                ),
                MergeStage::Applying => if event->Applied_0 {
                    (self.proceed(0).0, missing, self.proceed(0).1)
                } else {
                    (MergeStage::GivingUp, missing, MergeActionView::Discard(self.out_dir()))
                },
                MergeStage::Checking(i) => if event->Hash_0 == Some(
                    self.group.dst_files[i as int].md5,
                ) {
                    (
                        MergeStage::Staging(i),
                        missing,
                        MergeActionView::Stage {
                            from: self.result(i as int),
                            to: self.staged(i as int),
                        },
                    )
                } else {
                    (self.proceed(i + 1).0, missing.push(i), self.proceed(i + 1).1)
                },
                MergeStage::Staging(i) => (
                    self.proceed(i + 1).0,
                    missing,
                    self.proceed(i + 1).1,
                ),
                MergeStage::GivingUp => (self.fall_back().0, missing, self.fall_back().1),
                MergeStage::Discarding => (
                    MergeStage::Ended,
                    missing,
                    MergeActionView::Finish(self.verdict(missing)),
                ),
                MergeStage::Ended => (
                    MergeStage::Ended,
                    missing,
                    MergeActionView::Finish(self.verdict(missing)),
                ),
            }
        }
    }
}

/// The course of the merge of one group.
#[derive(Debug)]
pub struct MergeRun {
    pub game_folder: String,
    pub staging: String,
    pub group: GroupInfo,
    /// The position of the group in the order of the merges.
    pub idx: usize,
    pub stage: MergeStage,
    /// The positions of the results that were not good.
    pub missing: Vec<usize>,
}

/// Starts the merge of one group.
pub fn merge_one_group(game_folder: &str, staging: &str, group: GroupInfo, idx: usize) -> (r:
    MergeRun)
    ensures
        r.wf(),
        r.task() == (MergeTask {
            game_folder: game_folder@,
            staging: staging@,
            group: group.deep_view(),
            idx: idx as nat,
        }),
        r.stage == MergeStage::Start,
        r.missing@.len() == 0,
        r.game_folder@ == game_folder@,
        r.staging@ == staging@,
        r.group == group,
        r.idx == idx,
{
    MergeRun {
        game_folder: game_folder.to_owned(),
        staging: staging.to_owned(),
        group,
        idx,
        stage: MergeStage::Start,
        missing: Vec::new(),
    }
}

impl MergeRun {
    /// The stage and the positions of the bad results speak of files of the group.
    pub open spec fn wf(&self) -> bool {
        &&& self.task().stands(self.stage)
        &&& forall|i: int|
            0 <= i < self.missing@.len() ==> #[trigger] self.missing@[i] < self.group.dst_files@.len()
    }

    /// What the merge works on.
    pub open spec fn task(&self) -> MergeTask {
        MergeTask {
            game_folder: self.game_folder@,
            staging: self.staging@,
            group: self.group.deep_view(),
            idx: self.idx as nat,
        }
    }

    /// Whether an event answers what the group waits for.
    pub fn accepts(&self, event: &MergeEvent) -> (r: bool)
        ensures
            r == self.task().answers(self.stage, event.deep_view()),
    {
        let done = matches!(event, MergeEvent::Done);
        let failed = matches!(event, MergeEvent::Failed(_));
        let hash = matches!(event, MergeEvent::Hash(_));
        match self.stage {
            MergeStage::Start => matches!(event, MergeEvent::Begin),
            MergeStage::Statting => matches!(event, MergeEvent::Sizes(_)),
            MergeStage::HashingSource => hash,
            MergeStage::Clearing => done || failed,
            MergeStage::Applying => matches!(event, MergeEvent::Applied(_)) || failed,
            MergeStage::Checking(_) => hash,
            MergeStage::Staging(_) => done || failed,
            MergeStage::GivingUp => done,
            MergeStage::Discarding => done,
            MergeStage::Ended => false,
        }
    }

    fn out_dir(&self) -> (r: String)
        ensures
            r@ == self.task().out_dir(),
    {
        let tmp = paths::join(self.staging.as_str(), ".apply_tmp");
        let number = text::number(self.idx as u64);
        let name = "group_".to_owned().concat(number.as_str());
        paths::join(tmp.as_str(), name.as_str())
    }

    fn proceed(&self, i: usize) -> (r: (MergeStage, MergeAction))
        requires
            i <= self.group.dst_files@.len(),
        ensures
            (r.0, r.1.deep_view()) == self.task().proceed(i as int),
    {
        let out = self.out_dir();
        if i < self.group.dst_files.len() {
            let path = paths::join_inside(out.as_str(), self.group.dst_files[i].dest.as_str());
            (MergeStage::Checking(i), MergeAction::Hash(path))
        } else {
            (MergeStage::Discarding, MergeAction::Discard(out))
        }
    }

    fn all_files(&self) -> (r: MergeAction)
        ensures
            r.deep_view() == self.task().fall_back().1,
    {
        let files = self.group.dst_files.clone();
        assert(files.deep_view() =~= self.group.dst_files.deep_view());
        MergeAction::Finish(GroupOutcome::Fallback(files))
    }

    fn source_fits(&self, md5: &str) -> (r: bool)
        requires
            self.group.src_files@.len() > 0,
        ensures
            r == self.task().source_fits(md5@),
    {
        if text::same_text(md5, self.group.src_files[0].md5.as_str()) {
            return true;
        }
        let mut i: usize = 0;
        while i < self.group.dst_files.len()
            invariant
                i <= self.group.dst_files@.len(),
                forall|j: int|
                    0 <= j < i ==> (#[trigger] self.task().group.dst_files[j]).md5 != md5@,
            decreases self.group.dst_files@.len() - i,
        {
            if text::same_text(self.group.dst_files[i].md5.as_str(), md5) {
                assert(self.task().group.dst_files[i as int].md5 == md5@);
                return true;
            }
            i = i + 1;
        }
        false
    }

    fn verdict(&self) -> (r: GroupOutcome)
        requires
            self.wf(),
        ensures
            r.deep_view() == self.task().verdict(self.missing@),
    {
        if self.missing.len() == 0 {
            return GroupOutcome::Merged;
        }
        let mut files: Vec<FileRef> = Vec::new();
        let mut i: usize = 0;
        while i < self.missing.len()
            invariant
                self.wf(),
                i <= self.missing@.len(),
                files.deep_view() == self.task().files_at(self.missing@.take(i as int)),
            decreases self.missing@.len() - i,
        {
            let at: usize = self.missing[i];
            let ghost before = files.deep_view();
            files.push(self.group.dst_files[at].clone());
            proof {
                assert(files.deep_view() =~= before.push(self.task().group.dst_files[at as int]));
                assert(self.task().files_at(self.missing@.take(i + 1)) =~= before.push(
                    self.task().group.dst_files[at as int],
                ));
            }
            i = i + 1;
        }
        assert(self.missing@.take(self.missing@.len() as int) =~= self.missing@);
        GroupOutcome::Fallback(files)
    }

    /// What to do after an event that answers the last action.
    pub fn next(&mut self, event: MergeEvent) -> (r: MergeAction)
        requires
            old(self).wf(),
            old(self).task().answers(old(self).stage, event.deep_view()),
        ensures
            final(self).wf(),
            final(self).task() == old(self).task(),
            (final(self).stage, final(self).missing@, r.deep_view()) == old(self).task().next(
                old(self).stage,
                old(self).missing@,
                event.deep_view(),
            ),
    {
        let stage = self.stage;
        let count: usize = self.group.dst_files.len();
        match event {
            MergeEvent::Failed(e) => {
                self.stage = MergeStage::Ended;
                MergeAction::Fail(e)
            },
            MergeEvent::Begin => {
                self.stage = MergeStage::Statting;
                let list = manifest::target_paths(self.game_folder.as_str(), &self.group);
                assert(list.deep_view() =~= self.task().targets());
                MergeAction::Stat(list)
            },
            MergeEvent::Sizes(sizes) => {
                if manifest::group_already_target(&self.group, &sizes) {
                    self.stage = MergeStage::Ended;
                    MergeAction::Finish(GroupOutcome::Skipped)
                } else if self.group.src_files.len() == 0 {
                    self.stage = MergeStage::Ended;
                    self.all_files()
                } else {
                    self.stage = MergeStage::HashingSource;
                    MergeAction::Hash(
                        paths::join_inside(
                            self.game_folder.as_str(),
                            self.group.src_files[0].dest.as_str(),
                        ),
                    )
                }
            },
            MergeEvent::Hash(hash) => {
                if let MergeStage::Checking(i) = stage {
                    let good = match &hash {
                        Some(m) => *m == self.group.dst_files[i].md5,
                        None => false,
                    };
                    if good {
                        self.stage = MergeStage::Staging(i);
                        let dest = self.group.dst_files[i].dest.as_str();
                        let out = self.out_dir();
                        return MergeAction::Stage {
                            from: paths::join_inside(out.as_str(), dest),
                            to: paths::join_inside(self.staging.as_str(), dest),
                        };
                    }
                    self.missing.push(i);
                    assert(i < count);
                    let (next, action) = self.proceed(i + 1);
                    self.stage = next;
                    action
                } else {
                    let fits = match &hash {
                        Some(m) => self.source_fits(m.as_str()),
                        None => false,
                    };
                    if fits {
                        self.stage = MergeStage::Clearing;
                        MergeAction::Clear(self.out_dir())
                    } else {
                        self.stage = MergeStage::Ended;
                        self.all_files()
                    }
                }
            },
            MergeEvent::Applied(ok) => {
                if ok {
                    let (next, action) = self.proceed(0);
                    self.stage = next;
                    action
                } else {
                    self.stage = MergeStage::GivingUp;
                    MergeAction::Discard(self.out_dir())
                }
            },
            MergeEvent::Done => match stage {
                MergeStage::Clearing => {
                    self.stage = MergeStage::Applying;
                    MergeAction::Apply {
                        source: self.game_folder.clone(),
                        patch: paths::join(self.staging.as_str(), self.group.dest.as_str()),
                        out: self.out_dir(),
                    }
                },
                MergeStage::Staging(i) => {
                    assert(i < count);
                    let (next, action) = self.proceed(i + 1);
                    self.stage = next;
                    action
                },
                MergeStage::GivingUp => {
                    self.stage = MergeStage::Ended;
                    self.all_files()
                },
                _ => {
                    self.stage = MergeStage::Ended;
                    MergeAction::Finish(self.verdict())
                },
            },
        }
    }
}

/// The paths that an action writes to, or takes files from.
pub open spec fn touched(action: MergeActionView) -> Set<Seq<char>> {
    match action {
        MergeActionView::Clear(p) => set![p],
        MergeActionView::Apply { out, .. } => set![out],
        MergeActionView::Stage { from, to } => set![from, to],
        MergeActionView::Discard(p) => set![p],
        _ => Set::empty(),
    }
}

/// A merge reads the game and leaves it as it is: whatever it writes, moves or removes lies below the
/// staging folder.
pub proof fn law_merge_writes_staging_only(
    task: MergeTask,
    stage: MergeStage,
    missing: Seq<usize>,
    event: MergeEventView,
    path: Seq<char>,
)
    requires
        task.staging == state::staging(task.game_folder),
        task.stands(stage),
        task.answers(stage, event),
        touched(task.next(stage, missing, event).2).contains(path),
    ensures
        moves::is_under(task.staging, path),
{
    reveal_strlit(".apply_tmp");
    reveal_strlit("group_");
    state::lemma_staging_holds(task.game_folder, ".apply_tmp"@);
    let tmp = paths::joined(task.staging, ".apply_tmp"@);
    let name = "group_"@ + text::decimal(task.idx);
    text::lemma_decimal_is_digits(task.idx);
    assert(tmp.last() == 'p');
    moves::lemma_joined_is_under(tmp, name);
    assert(task.out_dir().last() == text::decimal(task.idx).last());
    moves::lemma_under_is_transitive(task.staging, tmp, task.out_dir());
    assert forall|i: int| 0 <= i < task.count() implies moves::is_under(
        task.staging,
        #[trigger] task.result(i),
    ) && moves::is_under(task.staging, task.staged(i)) by {
        let dest = task.group.dst_files[i].dest;
        paths::lemma_relative(dest);
        moves::lemma_joined_is_under(task.out_dir(), paths::relative(dest));
        moves::lemma_under_is_transitive(task.staging, task.out_dir(), task.result(i));
        state::lemma_staging_holds(task.game_folder, paths::relative(dest));
    }
    if let MergeStage::Checking(i) = stage {
        let _ = task.result(i as int);
    }
}

/// A file is staged only right after its digest was found to be the one that the manifest gives.
pub proof fn law_staged_files_are_verified(
    task: MergeTask,
    stage: MergeStage,
    missing: Seq<usize>,
    event: MergeEventView,
)
    requires
        task.stands(stage),
        task.answers(stage, event),
        task.next(stage, missing, event).2 is Stage,
    ensures
        exists|i: int|
            0 <= i < task.count() && event == MergeEventView::Hash(
                Some((#[trigger] task.group.dst_files[i]).md5),
            ) && task.next(stage, missing, event).2->to == task.staged(i),
{
    if let MergeStage::Checking(i) = stage {
        let _ = task.group.dst_files[i as int];
    }
}

/// The positions below `n` whose digest is not the one that the manifest gives.
pub open spec fn mismatched(
    files: Seq<FileRefView>,
    digests: Seq<Option<Seq<char>>>,
    n: int,
) -> Seq<usize>
    decreases n,
{
    if n <= 0 {
        Seq::empty()
    } else if digests[n - 1] == Some(files[n - 1].md5) {
        mismatched(files, digests, n - 1)
    } else {
        mismatched(files, digests, n - 1).push((n - 1) as usize)
    }
}

/// The stage and the bad results after the results below `n` were hashed, with the given digests,
/// and the good ones were staged.
pub open spec fn after_checks(
    task: MergeTask,
    digests: Seq<Option<Seq<char>>>,
    n: int,
) -> (MergeStage, Seq<usize>)
    decreases n,
{
    if n <= 0 {
        (task.proceed(0).0, Seq::empty())
    } else {
        let (stage, missing) = after_checks(task, digests, n - 1);
        let (s, m, action) = task.next(stage, missing, MergeEventView::Hash(digests[n - 1]));
        if action is Stage {
            let (s2, m2, _) = task.next(s, m, MergeEventView::Done);
            (s2, m2)
        } else {
            (s, m)
        }
    }
}

/// Once a patch was applied, the group counts as merged exactly where every result has the digest
/// that the manifest gives; otherwise exactly the files with another digest, or with none, must be
/// fetched whole.
pub proof fn law_merge_outcome(task: MergeTask, digests: Seq<Option<Seq<char>>>)
    requires
        digests.len() == task.count(),
        task.count() <= usize::MAX,
    ensures
        ({
            let (stage, missing) = after_checks(task, digests, task.count());
            let bad = mismatched(task.group.dst_files, digests, task.count());
            &&& stage == MergeStage::Discarding
            &&& task.next(stage, missing, MergeEventView::Done).2 == MergeActionView::Finish(
                task.verdict(bad),
            )
            &&& bad.len() == 0 <==> forall|i: int|
                0 <= i < task.count() ==> #[trigger] digests[i] == Some(
                    task.group.dst_files[i].md5,
                )
        }),
{
    lemma_after_checks(task, digests, task.count());
    lemma_mismatched_empty(task.group.dst_files, digests, task.count());
}

proof fn lemma_after_checks(task: MergeTask, digests: Seq<Option<Seq<char>>>, n: int)
    requires
        0 <= n <= task.count() <= usize::MAX,
    ensures
        after_checks(task, digests, n) == (
            task.proceed(n).0,
            mismatched(task.group.dst_files, digests, n),
        ),
    decreases n,
{
    if n > 0 {
        lemma_after_checks(task, digests, n - 1);
        assert(task.proceed(n - 1).0 == MergeStage::Checking((n - 1) as usize));
    }
}

proof fn lemma_mismatched_empty(
    files: Seq<FileRefView>,
    digests: Seq<Option<Seq<char>>>,
    n: int,
)
    requires
        0 <= n,
    ensures
        mismatched(files, digests, n).len() == 0 <==> forall|i: int|
            0 <= i < n ==> #[trigger] digests[i] == Some(files[i].md5),
    decreases n,
{
    if n > 0 {
        lemma_mismatched_empty(files, digests, n - 1);
        if digests[n - 1] != Some(files[n - 1].md5) {
            assert(mismatched(files, digests, n).len() > 0);
        }
    }
}

}
