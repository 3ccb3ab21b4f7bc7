//! Fetching an update ahead of its installation.

use vstd::prelude::*;

use crate::client;
use crate::client::ApiClient;
use crate::download;
use crate::error::{Error, ErrorView};
use crate::game::GameManager;
use crate::manifest;
use crate::manifest::{DestIndex, FetchJob, FetchJobView, FileProbe};
use crate::paths;
use crate::plan_laws;
use crate::progress::{ProgressEvent, ProgressEventView};
use crate::state;
use crate::text;
use crate::types::{
    LauncherIndex, PatchConfig, PatchIndex, PatchIndexView, ResourceItem, ResourceItemView,
};

verus! {

/// A file of an update, and whether it is staged already.
#[derive(Debug)]
pub struct PendingGroup {
    pub name: String,
    pub size: u64,
    pub local_ready: bool,
}

/// The model of [`PendingGroup`].
#[verifier::ext_equal]
pub struct PendingGroupView {
    pub name: Seq<char>,
    pub size: u64,
    pub local_ready: bool,
}

impl DeepView for PendingGroup {
    type V = PendingGroupView;

    open spec fn deep_view(&self) -> PendingGroupView {
        PendingGroupView {
            name: self.name@,
            size: self.size,
            local_ready: self.local_ready,
        }
    }
}

/// What an update would fetch.
#[derive(Debug)]
pub struct PredownloadPlan {
    pub from_version: String,
    pub to_version: String,
    pub patch_groups: Vec<PendingGroup>,
    pub full_files: Vec<PendingGroup>,
    /// How many bytes are not staged yet.
    pub total_bytes: u64,
}

/// What was found on the disk before an update is planned.
#[derive(Debug)]
pub struct PlanProbes {
    /// For each group, the sizes of the files that it produces, inside the game folder.
    pub group_sizes: Vec<Vec<Option<u64>>>,
    /// For each group, its staged patch.
    pub patches: Vec<FileProbe>,
    /// For each entry of the manifest, its staged file.
    pub files: Vec<FileProbe>,
}

impl PlanProbes {
    /// There is a finding for everything that the manifest lists.
    pub open spec fn fits(&self, index: PatchIndexView) -> bool {
        &&& self.group_sizes@.len() == index.group_infos.len()
        &&& self.patches@.len() == index.group_infos.len()
        &&& self.files@.len() == index.resource.len()
    }
}

/// A patch of the plan: its size and digest are those of the manifest entry with its name.
pub open spec fn pending_patch(
    name: Seq<char>,
    list: Seq<ResourceItemView>,
    found: FileProbe,
) -> PendingGroupView {
    let (size, md5) = match manifest::entry_for(list, name) {
        Some(item) => (item.size, item.md5),
        None => (0, Seq::empty()),
    };
    PendingGroupView {
        name,
        size,
        local_ready: manifest::is_intact(found.size, found.md5.deep_view(), size, md5),
    }
}

/// The patches of the plan: those of the first `n` groups that were not applied already.
pub open spec fn planned_patches(index: PatchIndexView, probes: PlanProbes, n: int) -> Seq<
    PendingGroupView,
>
    decreases n,
{
    if n <= 0 {
        Seq::empty()
    } else {
        let group = index.group_infos[n - 1];
        let before = planned_patches(index, probes, n - 1);
        if manifest::at_target(group, probes.group_sizes@[n - 1]@) {
            before
        } else {
            before.push(pending_patch(group.dest, index.resource, probes.patches@[n - 1]))
        }
    }
}

/// The full files of the plan: those of the first `n` entries that are no patches and say where
/// they lie.
pub open spec fn planned_files(index: PatchIndexView, probes: PlanProbes, n: int) -> Seq<
    PendingGroupView,
>
    decreases n,
{
    if n <= 0 {
        Seq::empty()
    } else {
        let item = index.resource[n - 1];
        let found = probes.files@[n - 1];
        let before = planned_files(index, probes, n - 1);
        if manifest::is_patch(item.dest) || item.from_folder is None {
            before
        } else {
            before.push(
                PendingGroupView {
                    name: item.dest,
                    size: item.size,
                    local_ready: manifest::is_intact(
                        found.size,
                        found.md5.deep_view(),
                        item.size,
                        item.md5,
                    ),
                },
            )
        }
    }
}

/// How many bytes of a list are not staged yet.
pub open spec fn missing_bytes(list: Seq<PendingGroupView>) -> nat
    decreases list.len(),
{
    if list.len() == 0 {
        0
    } else {
        missing_bytes(list.drop_last()) + if list.last().local_ready {
            0
        } else {
            list.last().size as nat
        }
    }
}

/// How many bytes of an update are not staged yet.
pub open spec fn plan_bytes(index: PatchIndexView, probes: PlanProbes) -> nat {
    missing_bytes(planned_patches(index, probes, index.group_infos.len() as int)) + missing_bytes(
        planned_files(index, probes, index.resource.len() as int),
    )
}

fn plan_patches(index: &PatchIndex, probes: &PlanProbes) -> (r: Vec<PendingGroup>)
    requires
        probes.fits(index.deep_view()),
    ensures
        r.deep_view() == planned_patches(
            index.deep_view(),
            *probes,
            index.group_infos@.len() as int,
        ),
{
    let by_dest = DestIndex::new(&index.resource);
    let mut r: Vec<PendingGroup> = Vec::new();
    let ghost iv = index.deep_view();
    let mut i: usize = 0;
    assert(r.deep_view() =~= Seq::empty());
    while i < index.group_infos.len()
        invariant
            i <= index.group_infos@.len(),
            iv == index.deep_view(),
            probes.fits(iv),
            by_dest.indexes(index.resource.deep_view()),
            r.deep_view() == planned_patches(iv, *probes, i as int),
        decreases index.group_infos@.len() - i,
    {
        let group = &index.group_infos[i];
        assert(iv.group_infos[i as int] == group.deep_view());
        if !manifest::group_already_target(group, &probes.group_sizes[i]) {
            let info = by_dest.get(&index.resource, group.dest.as_str());
            let found = &probes.patches[i];
            let next = match info {
                Some(item) => PendingGroup {
                    name: group.dest.clone(),
                    size: item.size,
                    local_ready: manifest::file_matches(found, item.size, item.md5.as_str()),
                },
                None => {
                    proof {
                        reveal_strlit("");
                    }
                    assert(""@ =~= Seq::empty());
                    PendingGroup {
                        name: group.dest.clone(),
                        size: 0,
                        local_ready: manifest::file_matches(found, 0, ""),
                    }
                },
            };
            let ghost before = r.deep_view();
            assert(next.deep_view() == pending_patch(
                group.dest@,
                iv.resource,
                probes.patches@[i as int],
            ));
            r.push(next);
            assert(r.deep_view() =~= before.push(
                pending_patch(group.dest@, iv.resource, probes.patches@[i as int]),
            ));
        }
        i = i + 1;
    }
    r
}

fn plan_files(index: &PatchIndex, probes: &PlanProbes) -> (r: Vec<PendingGroup>)
    requires
        probes.fits(index.deep_view()),
    ensures
        r.deep_view() == planned_files(index.deep_view(), *probes, index.resource@.len() as int),
{
    let mut r: Vec<PendingGroup> = Vec::new();
    let ghost iv = index.deep_view();
    let mut i: usize = 0;
    assert(r.deep_view() =~= Seq::empty());
    while i < index.resource.len()
        invariant
            i <= index.resource@.len(),
            iv == index.deep_view(),
            probes.fits(iv),
            r.deep_view() == planned_files(iv, *probes, i as int),
        decreases index.resource@.len() - i,
    {
        let item = &index.resource[i];
        assert(iv.resource[i as int] == item.deep_view());
        if !manifest::is_krpdiff(item.dest.as_str()) && item.from_folder.is_some() {
            let next = PendingGroup {
                name: item.dest.clone(),
                size: item.size,
                local_ready: manifest::file_matches(
                    &probes.files[i],
                    item.size,
                    item.md5.as_str(),
                ),
            };
            let ghost before = r.deep_view();
            let ghost nv = next.deep_view();
            r.push(next);
            assert(r.deep_view() =~= before.push(nv));
        }
        i = i + 1;
    }
    r
}

/// The missing bytes of a list, or none where the number does not fit.
fn count_missing(list: &Vec<PendingGroup>, start: u64) -> (r: Option<u64>)
    ensures
        match r {
            Some(n) => n == start + missing_bytes(list.deep_view()),
            None => start + missing_bytes(list.deep_view()) > u64::MAX,
        },
{
    let mut sum: u64 = start;
    let ghost all = list.deep_view();
    let mut i: usize = 0;
    while i < list.len()
        invariant
            i <= list@.len(),
            all == list.deep_view(),
            sum == start + missing_bytes(all.take(i as int)),
        decreases list@.len() - i,
    {
        proof {
            assert(all.take(i + 1).drop_last() =~= all.take(i as int));
            assert(all.take(i + 1).last() == list@[i as int].deep_view());
        }
        if !list[i].local_ready {
            if list[i].size > u64::MAX - sum {
                proof {
                    lemma_missing_grows(all, i + 1);
                }
                return None;
            }
            sum = sum + list[i].size;
        }
        i = i + 1;
    }
    assert(all.take(all.len() as int) =~= all);
    Some(sum)
}

proof fn lemma_missing_grows(list: Seq<PendingGroupView>, n: int)
    requires
        0 <= n <= list.len(),
    ensures
        missing_bytes(list.take(n)) <= missing_bytes(list),
    decreases list.len() - n,
{
    if n < list.len() {
        lemma_missing_grows(list, n + 1);
        assert(list.take(n + 1).drop_last() =~= list.take(n));
    } else {
        assert(list.take(n) =~= list);
    }
}

impl GameManager {
    /// The plan where the installed version is the one on the server: there is nothing to fetch.
    pub fn plan_nothing(version: &str) -> (r: PredownloadPlan)
        ensures
            r.from_version@ == version@,
            r.to_version@ == version@,
            r.patch_groups@.len() == 0,
            r.full_files@.len() == 0,
            r.total_bytes == 0,
    {
        PredownloadPlan {
            from_version: version.to_owned(),
            to_version: version.to_owned(),
            patch_groups: Vec::new(),
            full_files: Vec::new(),
            total_bytes: 0,
        }
    }

    /// Whether the missing bytes of an update can be counted.
    pub fn plan_fits(index: &PatchIndex, probes: &PlanProbes) -> (r: bool)
        requires
            probes.fits(index.deep_view()),
        ensures
            r == (plan_bytes(index.deep_view(), *probes) <= u64::MAX),
    {
        let groups = plan_patches(index, probes);
        let files = plan_files(index, probes);
        match count_missing(&groups, 0) {
            Some(n) => count_missing(&files, n).is_some(),
            None => false,
        }
    }

    /// What an update would fetch: the patches of the groups that were not applied already, and
    /// the full files beside them. What is staged and intact counts as ready, all else as missing.
    pub fn plan_predownload(
        from_version: &str,
        to_version: &str,
        index: &PatchIndex,
        probes: &PlanProbes,
    ) -> (r: PredownloadPlan)
        requires
            probes.fits(index.deep_view()),
            plan_bytes(index.deep_view(), *probes) <= u64::MAX,
        ensures
            r.from_version@ == from_version@,
            r.to_version@ == to_version@,
            r.patch_groups.deep_view() == planned_patches(
                index.deep_view(),
                *probes,
                index.group_infos@.len() as int,
            ),
            r.full_files.deep_view() == planned_files(
                index.deep_view(),
                *probes,
                index.resource@.len() as int,
            ),
            r.total_bytes == missing_bytes(r.patch_groups.deep_view()) + missing_bytes(
                r.full_files.deep_view(),
            ),
            r.full_files.deep_view().map_values(|p: PendingGroupView| (p.name, p.size))
                == index.deep_view().resource.filter(
                |item: ResourceItemView| !manifest::is_patch(item.dest) && item.from_folder is Some,
            ).map_values(|item: ResourceItemView| (item.dest, item.size)),
            forall|i: int|
                0 <= i < index.resource@.len() && !manifest::is_patch(
                    (#[trigger] index.resource@[i]).dest@,
                ) && index.resource@[i].from_folder is Some ==> exists|k: int|
                    0 <= k < r.full_files@.len() && (#[trigger] r.full_files@[k]).name@
                        == index.resource@[i].dest@ && r.full_files@[k].size
                        == index.resource@[i].size,
    {
        proof {
            plan_laws::lemma_full_files_listed(index.deep_view(), *probes);
        }
        let patch_groups = plan_patches(index, probes);
        let full_files = plan_files(index, probes);
        let patches: u64 = count_missing(&patch_groups, 0).unwrap();
        let total_bytes: u64 = count_missing(&full_files, patches).unwrap();
        proof {
            let all = index.deep_view();
            let n = index.resource@.len() as int;
            assert forall|i: int|
                0 <= i < index.resource@.len() && !manifest::is_patch(
                    (#[trigger] index.resource@[i]).dest@,
                ) && index.resource@[i].from_folder is Some implies exists|k: int|
                0 <= k < full_files@.len() && (#[trigger] full_files@[k]).name@
                    == index.resource@[i].dest@ && full_files@[k].size
                    == index.resource@[i].size by {
                assert(all.resource[i] == index.resource@[i].deep_view());
                plan_laws::law_full_file_is_ready_when_staged(all, *probes, n, i);
                let listed = planned_files(all, *probes, n);
                let k = choose|k: int|
                    0 <= k < listed.len() && (#[trigger] listed[k]).name == all.resource[i].dest
                        && listed[k].size == all.resource[i].size;
                assert(full_files.deep_view()[k] == full_files@[k].deep_view());
            }
        }
        PredownloadPlan {
            from_version: from_version.to_owned(),
            to_version: to_version.to_owned(),
            patch_groups,
            full_files,
            total_bytes,
        }
    }
}

/// What to do about an update of an installed version: nothing, where the server has the same one.
pub enum UpdateChoice<'a> {
    UpToDate,
    Update(&'a PatchConfig),
}

impl GameManager {
    /// The update that leads from the installed version to the one on the server.
    pub fn choose_update<'a>(from_version: &str, index: &'a LauncherIndex) -> (r: Result<
        UpdateChoice<'a>,
        Error,
    >)
        ensures
            ({
                let configs = index.default.config.patch_config@;
                match r {
                    Ok(UpdateChoice::UpToDate) => from_version@ == index.default.version@,
                    Ok(UpdateChoice::Update(c)) => from_version@ != index.default.version@
                        && exists|i: int|
                        #[trigger] manifest::update_from(configs, from_version@, i) && *c
                            == configs[i],
                    Err(e) => {
                        &&& from_version@ != index.default.version@
                        &&& e.deep_view() == manifest::no_update()
                        &&& forall|i: int|
                            0 <= i < configs.len() ==> (#[trigger] configs[i]).version@
                                != from_version@
                    },
                }
            }),
    {
        if text::same_text(from_version, index.default.version.as_str()) {
            return Ok(UpdateChoice::UpToDate);
        }
        match manifest::find_patch_config(&index.default.config.patch_config, from_version) {
            Ok(c) => Ok(UpdateChoice::Update(c)),
            Err(e) => Err(e),
        }
    }
}

/// What the plan for an update starts with.
pub enum PlanChoice<'a> {
    /// The installed version, which is the one on the server.
    UpToDate(&'a str),
    /// The installed version, the update that leads from it, and the server to fetch from.
    Update { from: &'a str, cdn: &'a str, patch: &'a PatchConfig },
}

impl GameManager {
    /// Decides what the plan for an update starts with, from the local version and the index;
    /// `nanos` is the random number by which the server is picked.
    pub fn plan_choice<'a>(
        &self,
        local: &'a Option<String>,
        index: &'a LauncherIndex,
        nanos: u64,
    ) -> (r: Result<PlanChoice<'a>, Error>)
        requires
            client::total_weight(index.default.cdn_list@) <= u64::MAX,
        ensures
            ({
                let configs = index.default.config.patch_config@;
                let nodes = index.default.cdn_list@;
                let total = client::total_weight(nodes) as int;
                match local {
                    None => r is Err && r->Err_0.deep_view() == ErrorView::NoLocalConfig(
                        self.game_folder@,
                    ),
                    Some(v) => match r {
                        Ok(PlanChoice::UpToDate(from)) => total > 0 && from@ == v@ && v@
                            == index.default.version@,
                        Ok(PlanChoice::Update { from, cdn, patch }) => {
                            &&& total > 0
                            &&& from@ == v@
                            &&& v@ != index.default.version@
                            &&& exists|i: int|
                                #[trigger] client::owns_roll(nodes, nanos as int % total, i)
                                    && cdn@ == nodes[i].url@
                            &&& exists|i: int|
                                #[trigger] manifest::update_from(configs, v@, i) && *patch
                                    == configs[i]
                        },
                        Err(e) => if total == 0 {
                            e.deep_view() == ErrorView::NoCdnNode
                        } else {
                            &&& v@ != index.default.version@
                            &&& e.deep_view() == manifest::no_update()
                            &&& forall|i: int|
                                0 <= i < configs.len() ==> (#[trigger] configs[i]).version@ != v@
                        },
                    },
                }
            }),
    {
        match local {
            None => Err(Error::NoLocalConfig(self.game_folder.clone())),
            Some(v) => match ApiClient::pick_cdn(index, nanos) {
                Err(e) => Err(e),
                Ok(node) => match Self::choose_update(v.as_str(), index) {
                    Err(e) => Err(e),
                    Ok(UpdateChoice::UpToDate) => Ok(PlanChoice::UpToDate(v.as_str())),
                    Ok(UpdateChoice::Update(patch)) => Ok(
                        PlanChoice::Update { from: v.as_str(), cdn: node.url.as_str(), patch },
                    ),
                },
            },
        }
    }
}

/// The digest that a manifest gives for a patch, where it gives one.
pub open spec fn patch_digest(list: Seq<ResourceItemView>, name: Seq<char>) -> Option<Seq<char>> {
    match manifest::entry_for(list, name) {
        Some(item) if item.md5.len() > 0 => Some(item.md5),
        _ => None,
    }
}

/// How a patch of the plan is fetched: in one stream, into the staging folder, checked against the
/// digest of the manifest.
pub open spec fn patch_job(
    game_folder: Seq<char>,
    cdn: Seq<char>,
    base_url: Seq<char>,
    list: Seq<ResourceItemView>,
    p: PendingGroupView,
) -> FetchJobView {
    let target = state::staged_patch(game_folder, p.name);
    FetchJobView {
        name: p.name,
        url: client::krpdiff_address(cdn, base_url, p.name),
        tmp: paths::with_ext(target, "krpdiff.tmp"@),
        target,
        size: Some(p.size),
        md5: patch_digest(list, p.name),
        chunks: Seq::empty(),
    }
}

/// How a full file of the plan is fetched: as the manifest describes it, into the staging folder.
pub open spec fn file_job(
    game_folder: Seq<char>,
    cdn: Seq<char>,
    list: Seq<ResourceItemView>,
    name: Seq<char>,
) -> Result<FetchJobView, ErrorView> {
    match manifest::entry_for(list, name) {
        None => Err(ErrorView::MissingField("resource entry"@)),
        Some(item) => match item.from_folder {
            None => Err(ErrorView::MissingField("fromFolder"@)),
            Some(folder) => {
                let target = state::staged_resource(game_folder, item.dest);
                Ok(
                    FetchJobView {
                        name: item.dest,
                        url: client::resource_address(cdn, folder, item.dest),
                        tmp: paths::with_ext(target, "tmp"@),
                        target,
                        size: Some(item.size),
                        md5: Some(item.md5),
                        chunks: download::fetch_ranges(item.size, item.chunk_infos),
                    },
                )
            },
        },
    }
}

/// A job by its model.
pub open spec fn job_result(r: Result<FetchJob, Error>) -> Result<FetchJobView, ErrorView> {
    match r {
        Ok(j) => Ok(j.deep_view()),
        Err(e) => Err(e.deep_view()),
    }
}

/// What announces a file that is about to be fetched.
pub open spec fn announcement(p: PendingGroupView) -> Seq<ProgressEventView> {
    seq![
        ProgressEventView::GroupStart { name: p.name },
        ProgressEventView::FileProgress { name: p.name, bytes: 0, total: p.size },
    ]
}

/// What says that a file is fetched.
pub open spec fn completion(p: PendingGroupView) -> ProgressEventView {
    ProgressEventView::GroupDone { name: p.name, bytes: p.size }
}

/// What is said of the first `n` files of a queue: each one that is not staged is announced and then
/// said to be done, in their order.
pub open spec fn told(queue: Seq<PendingGroupView>, n: int) -> Seq<ProgressEventView>
    decreases n,
{
    if n <= 0 {
        Seq::empty()
    } else if queue[n - 1].local_ready {
        told(queue, n - 1)
    } else {
        (told(queue, n - 1) + announcement(queue[n - 1])).push(completion(queue[n - 1]))
    }
}

/// The next thing to do for an update that is fetched.
pub enum PredownloadStep {
    /// The file is staged already.
    Skip,
    /// Announce the file with these messages, fetch it or fail, and then say that it is done.
    Fetch { announced: Vec<ProgressEvent>, job: Result<FetchJob, Error>, done: ProgressEvent },
    /// Everything is staged; say so.
    Finished(ProgressEvent),
}

/// The course of an update that is fetched: first the patches, then the full files.
pub struct PredownloadRun {
    pub game_folder: String,
    pub cdn: String,
    pub base_url: String,
    pub plan: PredownloadPlan,
    pub resource: Vec<ResourceItem>,
    pub by_dest: DestIndex,
    /// How many patches of the plan are dealt with.
    pub done_patches: usize,
    /// How many full files of the plan are dealt with.
    pub done_files: usize,
}

impl PredownloadRun {
    pub open spec fn wf(&self) -> bool {
        &&& self.by_dest.indexes(self.resource.deep_view())
        &&& self.done_patches <= self.plan.patch_groups@.len()
        &&& self.done_files <= self.plan.full_files@.len()
        &&& self.done_files > 0 ==> self.done_patches == self.plan.patch_groups@.len()
    }

    /// How many files of the plan are dealt with.
    pub open spec fn done(&self) -> int {
        self.done_patches + self.done_files
    }

    /// Everything but how far the course has come.
    pub open spec fn same_task(&self, other: &Self) -> bool {
        &&& self.game_folder == other.game_folder
        &&& self.cdn == other.cdn
        &&& self.base_url == other.base_url
        &&& self.plan == other.plan
        &&& self.resource == other.resource
        &&& self.by_dest == other.by_dest
    }

    /// The files of the plan, the patches first.
    pub open spec fn queue(&self) -> Seq<PendingGroupView> {
        self.plan.patch_groups.deep_view() + self.plan.full_files.deep_view()
    }

    /// How the file at position `i` of the queue is fetched.
    pub open spec fn job_at(&self, i: int) -> Result<FetchJobView, ErrorView> {
        let p = self.queue()[i];
        if i < self.plan.patch_groups@.len() {
            Ok(
                patch_job(
                    self.game_folder@,
                    self.cdn@,
                    self.base_url@,
                    self.resource.deep_view(),
                    p,
                ),
            )
        } else {
            file_job(self.game_folder@, self.cdn@, self.resource.deep_view(), p.name)
        }
    }

    /// The next file of the plan.
    pub fn next(&mut self) -> (r: PredownloadStep)
        requires
            old(self).wf(),
        ensures
            final(self).wf(),
            final(self).same_task(old(self)),
            ({
                let i = old(self).done();
                if i < old(self).queue().len() {
                    &&& final(self).done() == i + 1
                    &&& match r {
                        PredownloadStep::Skip => old(self).queue()[i].local_ready,
                        PredownloadStep::Fetch { announced, job, done } => {
                            &&& !old(self).queue()[i].local_ready
                            &&& announced.deep_view() == announcement(old(self).queue()[i])
                            &&& job_result(job) == old(self).job_at(i)
                            &&& done.deep_view() == completion(old(self).queue()[i])
                        },
                        PredownloadStep::Finished(_) => false,
                    }
                } else {
                    &&& final(self).done() == i
                    &&& r is Finished
                    &&& r->Finished_0.deep_view() == ProgressEventView::Done
                }
            }),
    {
        let ghost at = self.done();
        if self.done_patches < self.plan.patch_groups.len() {
            self.done_patches = self.done_patches + 1;
            let p = &self.plan.patch_groups[self.done_patches - 1];
            assert(self.queue()[at] == p.deep_view());
            if p.local_ready {
                return PredownloadStep::Skip;
            }
            PredownloadStep::Fetch {
                announced: start_events(p.name.as_str(), p.size),
                job: Ok(self.fetch_patch(p)),
                done: ProgressEvent::GroupDone { name: p.name.clone(), bytes: p.size },
            }
        } else if self.done_files < self.plan.full_files.len() {
            self.done_files = self.done_files + 1;
            let p = &self.plan.full_files[self.done_files - 1];
            assert(self.queue()[at] == p.deep_view());
            if p.local_ready {
                return PredownloadStep::Skip;
            }
            PredownloadStep::Fetch {
                announced: start_events(p.name.as_str(), p.size),
                job: self.fetch_file(p.name.as_str()),
                done: ProgressEvent::GroupDone { name: p.name.clone(), bytes: p.size },
            }
        } else {
            PredownloadStep::Finished(ProgressEvent::Done)
        }
    }

    fn fetch_patch(&self, p: &PendingGroup) -> (r: FetchJob)
        requires
            self.by_dest.indexes(self.resource.deep_view()),
        ensures
            r.deep_view() == patch_job(
                self.game_folder@,
                self.cdn@,
                self.base_url@,
                self.resource.deep_view(),
                p.deep_view(),
            ),
    {
        let target = state::staged_patch_path(self.game_folder.as_str(), p.name.as_str());
        let patch = PatchConfig {
            version: String::new(),
            index_file: String::new(),
            base_url: self.base_url.clone(),
            size: 0,
        };
        let md5 = match self.by_dest.get(&self.resource, p.name.as_str()) {
            Some(item) => if item.md5.as_str().is_empty() {
                None
            } else {
                Some(item.md5.clone())
            },
            None => None,
        };
        let r = FetchJob {
            name: p.name.clone(),
            url: ApiClient::krpdiff_url(self.cdn.as_str(), &patch, p.name.as_str()),
            tmp: paths::with_extension(target.as_str(), "krpdiff.tmp"),
            target,
            size: Some(p.size),
            md5,
            chunks: Vec::new(),
        };
        assert(r.chunks.deep_view() =~= Seq::empty());
        r
    }

    fn fetch_file(&self, name: &str) -> (r: Result<FetchJob, Error>)
        requires
            self.by_dest.indexes(self.resource.deep_view()),
        ensures
            job_result(r) == file_job(
                self.game_folder@,
                self.cdn@,
                self.resource.deep_view(),
                name@,
            ),
    {
        let item = match self.by_dest.get(&self.resource, name) {
            Some(item) => item,
            None => {
                return Err(Error::MissingField("resource entry"));
            },
        };
        match &item.from_folder {
            None => Err(Error::MissingField("fromFolder")),
            Some(folder) => {
                let target = state::staged_resource_path(
                    self.game_folder.as_str(),
                    item.dest.as_str(),
                );
                Ok(
                    FetchJob {
                        name: item.dest.clone(),
                        url: ApiClient::resource_url(
                            self.cdn.as_str(),
                            folder.as_str(),
                            item.dest.as_str(),
                        ),
                        tmp: paths::with_extension(target.as_str(), "tmp"),
                        target,
                        size: Some(item.size),
                        md5: Some(item.md5.clone()),
                        chunks: download::effective_chunks(item.size, &item.chunk_infos),
                    },
                )
            },
        }
    }
}

impl GameManager {
    /// Starts to fetch an update that was planned.
    pub fn predownload(
        &self,
        plan: PredownloadPlan,
        cdn: &str,
        patch: &PatchConfig,
        index: PatchIndex,
    ) -> (r: PredownloadRun)
        ensures
            r.wf(),
            r.game_folder@ == self.game_folder@,
            r.cdn@ == cdn@,
            r.base_url@ == patch.base_url@,
            r.plan == plan,
            r.resource == index.resource,
            r.done() == 0,
    {
        let by_dest = DestIndex::new(&index.resource);
        PredownloadRun {
            game_folder: self.game_folder.clone(),
            cdn: cdn.to_owned(),
            base_url: patch.base_url.clone(),
            plan,
            resource: index.resource,
            by_dest,
            done_patches: 0,
            done_files: 0,
        }
    }
}

/// The announcement of a file that is about to be fetched.
fn start_events(name: &str, size: u64) -> (r: Vec<ProgressEvent>)
    ensures
        r.deep_view() == seq![
            ProgressEventView::GroupStart { name: name@ },
            ProgressEventView::FileProgress { name: name@, bytes: 0, total: size },
        ],
{
    let r = vec![
        ProgressEvent::GroupStart { name: name.to_owned() },
        ProgressEvent::FileProgress { name: name.to_owned(), bytes: 0, total: size },
    ];
    assert(r.deep_view() =~= seq![
        ProgressEventView::GroupStart { name: name@ },
        ProgressEventView::FileProgress { name: name@, bytes: 0, total: size },
    ]);
    r
}

/// How many bytes the files of a queue that are not staged have, from position `i` on.
pub open spec fn bytes_to_fetch(queue: Seq<PendingGroupView>, i: int) -> nat
    decreases queue.len() - i,
{
    if i < 0 || i >= queue.len() {
        0
    } else {
        bytes_to_fetch(queue, i + 1) + if queue[i].local_ready {
            0
        } else {
            queue[i].size as nat
        }
    }
}

/// The files that a course has to fetch have together as many bytes as the plan counts as missing.
pub proof fn law_run_fetches_the_missing(run: PredownloadRun)
    requires
        run.plan.total_bytes == missing_bytes(run.plan.patch_groups.deep_view()) + missing_bytes(
            run.plan.full_files.deep_view(),
        ),
    ensures
        bytes_to_fetch(run.queue(), 0) == run.plan.total_bytes,
{
    let a = run.plan.patch_groups.deep_view();
    let b = run.plan.full_files.deep_view();
    lemma_missing_split(a, b);
    lemma_bytes_to_fetch(run.queue(), 0);
    assert(run.queue().skip(0) =~= run.queue());
}

proof fn lemma_missing_split(a: Seq<PendingGroupView>, b: Seq<PendingGroupView>)
    ensures
        missing_bytes(a + b) == missing_bytes(a) + missing_bytes(b),
    decreases b.len(),
{
    if b.len() == 0 {
        assert(a + b =~= a);
    } else {
        assert((a + b).drop_last() =~= a + b.drop_last());
        lemma_missing_split(a, b.drop_last());
    }
}

proof fn lemma_bytes_to_fetch(queue: Seq<PendingGroupView>, i: int)
    requires
        0 <= i <= queue.len(),
    ensures
        bytes_to_fetch(queue, i) == missing_bytes(queue.skip(i)),
    decreases queue.len() - i,
{
    if i < queue.len() {
        lemma_bytes_to_fetch(queue, i + 1);
        let one = seq![queue[i]];
        assert(queue.skip(i) =~= one + queue.skip(i + 1));
        lemma_missing_split(one, queue.skip(i + 1));
        assert(one.drop_last() =~= Seq::empty());
        assert(missing_bytes(one.drop_last()) == 0);
    }
}

/// A patch that was fetched and passed its check counts as staged from then on.
pub proof fn law_fetched_patch_is_ready(
    list: Seq<ResourceItemView>,
    name: Seq<char>,
    before: FileProbe,
    after: FileProbe,
    game_folder: Seq<char>,
    cdn: Seq<char>,
    base_url: Seq<char>,
)
    requires
        after.size is Some,
        after.md5 is Some,
        ({
            let job = patch_job(
                game_folder,
                cdn,
                base_url,
                list,
                pending_patch(name, list, before),
            );
            download::flaw(job.tmp, job.size, job.md5, after.size->0, after.md5->0@) is None
        }),
    ensures
        pending_patch(name, list, after).local_ready,
{
}

/// Of each file of a queue that is not staged it is said, once what was to be said of the first `n`
/// files was said, that it is done, and nothing is said to be done that was not to be fetched.
pub proof fn law_every_fetch_is_reported(queue: Seq<PendingGroupView>, n: int, e: ProgressEventView)
    requires
        0 <= n <= queue.len(),
        e is GroupDone,
    ensures
        told(queue, n).contains(e) <==> exists|i: int|
            0 <= i < n && !(#[trigger] queue[i]).local_ready && e == completion(queue[i]),
    decreases n,
{
    if n > 0 {
        law_every_fetch_is_reported(queue, n - 1, e);
        let before = told(queue, n - 1);
        let last = queue[n - 1];
        if !last.local_ready {
            let now = told(queue, n);
            assert(now.len() == before.len() + 3);
            assert(now[before.len() as int + 2] == completion(last));
            if before.contains(e) {
                let k = choose|k: int| 0 <= k < before.len() && before[k] == e;
                assert(now[k] == e);
            }
            if now.contains(e) {
                let k = choose|k: int| 0 <= k < now.len() && now[k] == e;
                assert(k < before.len() ==> before[k] == e);
                assert(k >= before.len() ==> k == before.len() + 2);
            }
        }
    }
}

}
