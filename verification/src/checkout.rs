//! Switching an installed game to another channel by swapping the few files that differ.
//!
//! The course is decided here, one action at a time; whoever performs the actions answers each of
//! them with an event.

use vstd::prelude::*;

use crate::client;
use crate::client::ApiClient;
use crate::config;
use crate::config::Server;
use crate::error::{Error, ErrorView};
use crate::game::GameManager;
use crate::manifest;
use crate::manifest::{DestIndex, FetchJob, FetchJobView};
use crate::paths;
use crate::state;
use crate::types::{LocalConfig, LocalConfigView, PatchIndex, ResourceItem, ResourceItemView};

verus! {

/// What a switch of the channel changed.
#[derive(Debug)]
pub struct CheckoutReport {
    pub from_server: Server,
    pub to_server: Server,
    pub swapped_files: usize,
    pub new_version: String,
}

/// The model of [`CheckoutReport`].
#[verifier::ext_equal]
pub struct CheckoutReportView {
    pub from_server: Server,
    pub to_server: Server,
    pub swapped_files: nat,
    pub new_version: Seq<char>,
}

impl DeepView for CheckoutReport {
    type V = CheckoutReportView;

    open spec fn deep_view(&self) -> CheckoutReportView {
        CheckoutReportView {
            from_server: self.from_server,
            to_server: self.to_server,
            swapped_files: self.swapped_files as nat,
            new_version: self.new_version@,
        }
    }
}

impl Clone for CheckoutReport {
    fn clone(&self) -> (r: Self)
        ensures
            r.deep_view() == self.deep_view(),
            r.from_server == self.from_server,
            r.to_server == self.to_server,
            r.swapped_files == self.swapped_files,
            r.new_version@ == self.new_version@,
    {
        CheckoutReport {
            from_server: self.from_server,
            to_server: self.to_server,
            swapped_files: self.swapped_files,
            new_version: self.new_version.clone(),
        }
    }
}

/// What to do next for a switch.
#[derive(Debug)]
pub enum CheckoutAction {
    /// Fetch a file, making the folder for it first, and replace the target by it; answer with
    /// [`CheckoutEvent::Done`].
    Replace(FetchJob),
    /// Write the local configuration; answer with [`CheckoutEvent::Done`].
    Record(LocalConfig),
    /// The channel is switched.
    Finish(CheckoutReport),
    /// The switch failed.
    Fail(Error),
}

/// The model of [`CheckoutAction`].
pub enum CheckoutActionView {
    Replace(FetchJobView),
    Record(LocalConfigView),
    Finish(CheckoutReportView),
    Fail(ErrorView),
}

impl DeepView for CheckoutAction {
    type V = CheckoutActionView;

    open spec fn deep_view(&self) -> CheckoutActionView {
        match self {
            CheckoutAction::Replace(j) => CheckoutActionView::Replace(j.deep_view()),
            CheckoutAction::Record(c) => CheckoutActionView::Record(c.deep_view()),
            CheckoutAction::Finish(r) => CheckoutActionView::Finish(r.deep_view()),
            CheckoutAction::Fail(e) => CheckoutActionView::Fail(e.deep_view()),
        }
    }
}

/// The answer to an action.
#[derive(Debug)]
pub enum CheckoutEvent {
    Begin,
    Done,
    Failed(Error),
}

/// The model of [`CheckoutEvent`].
pub enum CheckoutEventView {
    Begin,
    Done,
    Failed(ErrorView),
}

impl DeepView for CheckoutEvent {
    type V = CheckoutEventView;

    open spec fn deep_view(&self) -> CheckoutEventView {
        match self {
            CheckoutEvent::Begin => CheckoutEventView::Begin,
            CheckoutEvent::Done => CheckoutEventView::Done,
            CheckoutEvent::Failed(e) => CheckoutEventView::Failed(e.deep_view()),
        }
    }
}

/// Which answer a switch waits for.
#[derive(Debug, Clone, Copy, PartialEq, Eq, Structural)]
pub enum CheckoutStage {
    Start,
    /// The file at this position is being replaced.
    Replacing(usize),
    Recording,
    Ended,
}

/// The error for a switch to the global channel.
pub open spec fn global_refused() -> ErrorView {
    ErrorView::Unimplemented(
        "global fast-switch is not supported (package differences) — full sync instead"@,
    )
}

/// The error for a switch that finds no file to swap.
pub open spec fn nothing_to_swap() -> ErrorView {
    ErrorView::Patch(
        "checkout: no channel files could be swapped (missing from target manifest) — config left unchanged"@,
    )
}

/// How a file of the other channel is fetched: in one stream, into a file beside its place.
pub open spec fn channel_job(
    game_folder: Seq<char>,
    cdn: Seq<char>,
    base_url: Seq<char>,
    dest: Seq<char>,
    md5: Seq<char>,
) -> FetchJobView {
    let target = paths::inside(game_folder, dest);
    FetchJobView {
        name: dest,
        url: client::resource_address(cdn, base_url, dest),
        tmp: paths::with_ext(target, "checkout.tmp"@),
        target,
        size: None,
        md5: Some(md5),
        chunks: Seq::empty(),
    }
}

/// How those of some files that a manifest lists are fetched.
pub open spec fn channel_jobs(
    game_folder: Seq<char>,
    cdn: Seq<char>,
    base_url: Seq<char>,
    list: Seq<ResourceItemView>,
    files: Seq<Seq<char>>,
) -> Seq<FetchJobView>
    decreases files.len(),
{
    if files.len() == 0 {
        Seq::empty()
    } else {
        let before = channel_jobs(game_folder, cdn, base_url, list, files.drop_last());
        match manifest::entry_for(list, files.last()) {
            Some(item) => before.push(
                channel_job(game_folder, cdn, base_url, files.last(), item.md5),
            ),
            None => before,
        }
    }
}

/// What a switch works on.
pub struct CheckoutTask {
    pub from_server: Server,
    pub to_server: Server,
    pub app_id: Seq<char>,
    pub version: Seq<char>,
    pub jobs: Seq<FetchJobView>,
}

impl CheckoutTask {
    /// What to do once the files before `i` are replaced.
    pub open spec fn proceed(self, i: int) -> (CheckoutStage, CheckoutActionView) {
        if i < self.jobs.len() {
            (CheckoutStage::Replacing(i as usize), CheckoutActionView::Replace(self.jobs[i]))
        } else if i == 0 {
            (CheckoutStage::Ended, CheckoutActionView::Fail(nothing_to_swap()))
        } else {
            (
                CheckoutStage::Recording,
                CheckoutActionView::Record(state::config_of(self.version, self.app_id)),
            )
        }
    }

    /// Whether a stage speaks of files that the switch has.
    pub open spec fn stands(self, stage: CheckoutStage) -> bool {
        stage is Replacing ==> stage->Replacing_0 < self.jobs.len()
    }

    /// Whether an event answers what a stage waits for.
    pub open spec fn answers(self, stage: CheckoutStage, event: CheckoutEventView) -> bool {
        match stage {
            CheckoutStage::Start => event is Begin,
            CheckoutStage::Ended => false,
            _ => event is Done || event is Failed,
        }
    }

    /// What to do after an event: the next stage and the action.
    pub open spec fn next(self, stage: CheckoutStage, event: CheckoutEventView) -> (
        CheckoutStage,
        CheckoutActionView,
    ) {
        if let CheckoutEventView::Failed(e) = event {
            (CheckoutStage::Ended, CheckoutActionView::Fail(e))
        } else {
            match stage {
                CheckoutStage::Start => self.proceed(0),
                CheckoutStage::Replacing(i) => self.proceed(i + 1),
                _ => (
                    CheckoutStage::Ended,
                    CheckoutActionView::Finish(
                        CheckoutReportView {
                            from_server: self.from_server,
                            to_server: self.to_server,
                            swapped_files: self.jobs.len(),
                            new_version: self.version,
                        },
                    ),
                ),
            }
        }
    }

    /// Where a switch stands after these answers, and what it asks for.
    pub open spec fn run(self, answers: Seq<CheckoutEventView>) -> (
        CheckoutStage,
        CheckoutActionView,
    )
        decreases answers.len(),
    {
        if answers.len() == 0 {
            self.next(CheckoutStage::Start, CheckoutEventView::Begin)
        } else {
            self.next(self.run(answers.drop_last()).0, answers.last())
        }
    }

    /// Whether each of these answers is one to what was asked for.
    pub open spec fn is_course(self, answers: Seq<CheckoutEventView>) -> bool
        decreases answers.len(),
    {
        answers.len() > 0 ==> self.is_course(answers.drop_last()) && self.answers(
            self.run(answers.drop_last()).0,
            answers.last(),
        )
    }
}

/// The course of a switch.
pub struct CheckoutRun {
    pub from_server: Server,
    pub to_server: Server,
    pub app_id: &'static str,
    pub version: String,
    pub jobs: Vec<FetchJob>,
    pub stage: CheckoutStage,
}

impl CheckoutRun {
    /// What the switch works on.
    pub open spec fn task(&self) -> CheckoutTask {
        CheckoutTask {
            from_server: self.from_server,
            to_server: self.to_server,
            app_id: self.app_id@,
            version: self.version@,
            jobs: self.jobs.deep_view(),
        }
    }

    /// The stage speaks of files that the switch has.
    pub open spec fn wf(&self) -> bool {
        self.task().stands(self.stage)
    }

    /// Whether an event answers what the switch waits for.
    pub fn accepts(&self, event: &CheckoutEvent) -> (r: bool)
        ensures
            r == self.task().answers(self.stage, event.deep_view()),
    {
        let done = matches!(event, CheckoutEvent::Done);
        let failed = matches!(event, CheckoutEvent::Failed(_));
        match self.stage {
            CheckoutStage::Start => matches!(event, CheckoutEvent::Begin),
            CheckoutStage::Ended => false,
            _ => done || failed,
        }
    }

    fn proceed(&self, i: usize) -> (r: (CheckoutStage, CheckoutAction))
        requires
            i <= self.jobs@.len(),
        ensures
            (r.0, r.1.deep_view()) == self.task().proceed(i as int),
            self.task().stands(r.0),
    {
        if i < self.jobs.len() {
            assert(self.jobs.deep_view()[i as int] == self.jobs@[i as int].deep_view());
            (CheckoutStage::Replacing(i), CheckoutAction::Replace(self.jobs[i].clone()))
        } else if i == 0 {
            (
                CheckoutStage::Ended,
                CheckoutAction::Fail(
                    Error::Patch(
                        "checkout: no channel files could be swapped (missing from target manifest) — config left unchanged".to_owned(),
                    ),
                ),
            )
        } else {
            let config = state::new_local_config(self.version.as_str(), self.app_id);
            (CheckoutStage::Recording, CheckoutAction::Record(config))
        }
    }

    /// What to do after an event that answers the last action.
    pub fn next(&mut self, event: CheckoutEvent) -> (r: CheckoutAction)
        requires
            old(self).wf(),
            old(self).task().answers(old(self).stage, event.deep_view()),
        ensures
            final(self).wf(),
            final(self).task() == old(self).task(),
            (final(self).stage, r.deep_view()) == old(self).task().next(
                old(self).stage,
                event.deep_view(),
            ),
    {
        if let CheckoutEvent::Failed(e) = event {
            self.stage = CheckoutStage::Ended;
            return CheckoutAction::Fail(e);
        }
        match self.stage {
            CheckoutStage::Start => {
                let (stage, action) = self.proceed(0);
                self.stage = stage;
                action
            },
            CheckoutStage::Replacing(i) => {
                let count: usize = self.jobs.len();
                assert(i < count);
                let (stage, action) = self.proceed(i + 1);
                self.stage = stage;
                action
            },
            _ => {
                self.stage = CheckoutStage::Ended;
                CheckoutAction::Finish(
                    CheckoutReport {
                        from_server: self.from_server,
                        to_server: self.to_server,
                        swapped_files: self.jobs.len(),
                        new_version: self.version.clone(),
                    },
                )
            },
        }
    }
}

fn collect_jobs(
    game_folder: &str,
    cdn: &str,
    base_url: &str,
    list: &Vec<ResourceItem>,
    files: &[&'static str],
) -> (r: Vec<FetchJob>)
    ensures
        r.deep_view() == channel_jobs(
            game_folder@,
            cdn@,
            base_url@,
            list.deep_view(),
            Seq::new(files@.len(), |i: int| files@[i]@),
        ),
{
    let by_dest = DestIndex::new(list);
    let ghost all = Seq::new(files@.len(), |i: int| files@[i]@);
    let ghost items = list.deep_view();
    let mut r: Vec<FetchJob> = Vec::new();
    let mut i: usize = 0;
    assert(r.deep_view() =~= channel_jobs(game_folder@, cdn@, base_url@, items, all.take(0)));
    while i < files.len()
        invariant
            i <= files@.len(),
            all == Seq::new(files@.len(), |i: int| files@[i]@),
            items == list.deep_view(),
            by_dest.indexes(items),
            r.deep_view() == channel_jobs(
                game_folder@,
                cdn@,
                base_url@,
                items,
                all.take(i as int),
            ),
        decreases files@.len() - i,
    {
        proof {
            assert(all.take(i + 1).drop_last() =~= all.take(i as int));
            assert(all.take(i + 1).last() == files@[i as int]@);
        }
        let ghost before = r.deep_view();
        let dest = files[i];
        if let Some(item) = by_dest.get(list, dest) {
            let target = paths::join_inside(game_folder, dest);
            let job = FetchJob {
                name: dest.to_owned(),
                url: ApiClient::resource_url(cdn, base_url, dest),
                tmp: paths::with_extension(target.as_str(), "checkout.tmp"),
                target,
                size: None,
                md5: Some(item.md5.clone()),
                chunks: Vec::new(),
            };
            assert(job.chunks.deep_view() =~= Seq::empty());
            let ghost said = job.deep_view();
            r.push(job);
            assert(r.deep_view() =~= before.push(said));
        }
        i = i + 1;
    }
    assert(all.take(all.len() as int) =~= all);
    r
}

impl GameManager {
    /// Whether the game can be switched to a channel by swapping files: to every one but the
    /// global one, which is a package of its own.
    pub fn checkout(&self, target: Server) -> (r: Result<(), Error>)
        ensures
            match r {
                Ok(()) => target != Server::Global,
                Err(e) => target == Server::Global && e.deep_view() == global_refused(),
            },
    {
        match target {
            Server::Global => Err(
                Error::Unimplemented(
                    "global fast-switch is not supported (package differences) — full sync instead",
                ),
            ),
            _ => Ok(()),
        }
    }

    /// Starts to switch the channel: `index` is the manifest of the target's release, which lies
    /// on the server `cdn` and has its files in the folder `base`.
    pub fn checkout_inner(
        &self,
        target: Server,
        cdn: &str,
        base: &str,
        to_version: &str,
        index: &PatchIndex,
    ) -> (r: CheckoutRun)
        requires
            config::entry_of(self.game, target) is Some,
        ensures
            r.wf(),
            r.stage == CheckoutStage::Start,
            r.from_server == self.server,
            r.to_server == target,
            r.version@ == to_version@,
            self.game == config::Game::WuWa && target == Server::Cn ==> r.app_id@ == "10003"@,
            self.game == config::Game::WuWa && target == Server::Bilibili ==> r.app_id@ == "10004"@,
            self.game == config::Game::WuWa && target == Server::Global ==> r.app_id@ == "50004"@,
            self.game == config::Game::Pgr && target == Server::Global ==> r.app_id@ == "50015"@,
            self.game == config::Game::Pgr && target == Server::Cn ==> r.app_id@ == "10012"@,
            r.task() == ({
                let entry = config::entry_of(self.game, target)->0;
                CheckoutTask {
                    from_server: self.server,
                    to_server: target,
                    app_id: entry.app_id,
                    version: to_version@,
                    jobs: channel_jobs(
                        self.game_folder@,
                        cdn@,
                        base@,
                        index.deep_view().resource,
                        entry.diff_files,
                    ),
                }
            }),
    {
        let entry = config::server_entry(self.game, target).unwrap();
        let jobs = collect_jobs(
            self.game_folder.as_str(),
            cdn,
            base,
            &index.resource,
            entry.diff_files,
        );
        CheckoutRun {
            from_server: self.server,
            to_server: target,
            app_id: entry.app_id,
            version: to_version.to_owned(),
            jobs,
            stage: CheckoutStage::Start,
        }
    }
}

/// A switch is recorded only where there is a file to swap, and once every one of them was
/// replaced.
pub proof fn law_checkout_records_last(task: CheckoutTask, answers: Seq<CheckoutEventView>)
    requires
        task.jobs.len() <= usize::MAX,
        task.is_course(answers),
        task.run(answers).1 is Record,
    ensures
        task.jobs.len() > 0,
        answers == Seq::new(task.jobs.len(), |i: int| CheckoutEventView::Done),
{
    lemma_course(task, answers);
}

/// A switch that fails leaves the recorded channel alone, unless writing the record is what failed.
pub proof fn law_failed_checkout_records_nothing(
    task: CheckoutTask,
    answers: Seq<CheckoutEventView>,
    k: int,
)
    requires
        task.jobs.len() <= usize::MAX,
        task.is_course(answers),
        task.run(answers).1 is Fail,
        0 <= k < answers.len(),
        task.run(answers.take(k)).1 is Record,
    ensures
        answers[k] is Failed,
{
    if k == answers.len() - 1 {
        assert(answers.take(k) =~= answers.drop_last());
        lemma_course(task, answers.drop_last());
    } else {
        lemma_prefix(task, answers, k);
        lemma_prefix(task, answers, k + 1);
        lemma_prefix(task, answers, k + 2);
        lemma_course(task, answers.take(k));
        assert(answers.take(k + 1).drop_last() =~= answers.take(k));
        assert(answers.take(k + 2).drop_last() =~= answers.take(k + 1));
    }
}

proof fn lemma_prefix(task: CheckoutTask, answers: Seq<CheckoutEventView>, n: int)
    requires
        task.is_course(answers),
        0 <= n <= answers.len(),
    ensures
        task.is_course(answers.take(n)),
    decreases answers.len(),
{
    if n < answers.len() {
        assert(answers.drop_last().take(n) =~= answers.take(n));
        lemma_prefix(task, answers.drop_last(), n);
    } else {
        assert(answers.take(n) =~= answers);
    }
}

proof fn lemma_course(task: CheckoutTask, answers: Seq<CheckoutEventView>)
    requires
        task.jobs.len() <= usize::MAX,
        task.is_course(answers),
    ensures
        ({
            let (stage, action) = task.run(answers);
            &&& task.stands(stage)
            &&& stage != CheckoutStage::Start
            &&& stage is Replacing ==> answers == Seq::new(
                stage->Replacing_0 as nat,
                |i: int| CheckoutEventView::Done,
            )
            &&& stage == CheckoutStage::Recording ==> answers == Seq::new(
                task.jobs.len(),
                |i: int| CheckoutEventView::Done,
            ) && task.jobs.len() > 0
            &&& action is Record <==> stage == CheckoutStage::Recording
        }),
    decreases answers.len(),
{
    if answers.len() == 0 {
        assert(answers =~= Seq::new(0, |i: int| CheckoutEventView::Done));
    } else {
        let before = answers.drop_last();
        lemma_course(task, before);
        assert(answers =~= before.push(answers.last()));
        if task.run(before).0 is Replacing && answers.last() is Done {
            let i = task.run(before).0->Replacing_0 as int;
            assert(answers =~= Seq::new((i + 1) as nat, |i: int| CheckoutEventView::Done));
        }
    }
}

}
