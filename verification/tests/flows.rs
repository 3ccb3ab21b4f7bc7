//! Whole operations, played on a disk and a server that are held in memory.

use std::collections::{BTreeMap, BTreeSet};

use kuro::apply::{ApplyAction, ApplyEvent, ApplyReport};
use kuro::atomic::{backup_path, recover_backup, safe_replace, FileOp};
use kuro::checkout::{CheckoutAction, CheckoutEvent, CheckoutReport};
use kuro::client::ApiClient;
use kuro::config::{Game, Server};
use kuro::digest::{md5_bytes, md5_file};
use kuro::download;
use kuro::error::Error;
use kuro::game::GameManager;
use kuro::install::{exe_candidates, find_game_exe, RootEntry};
use kuro::manifest::{FetchJob, FileProbe};
use kuro::merge::{merge_one_group, GroupOutcome, MergeAction, MergeEvent};
use kuro::order::merge_order;
use kuro::predownload::{PlanProbes, PredownloadPlan, PredownloadStep, UpdateChoice};
use kuro::progress::ProgressEvent;
use kuro::state;
use kuro::sweep::{prune_empty_dirs, sweep_orphans, walk_files, Node};
use kuro::sync;
use kuro::sync::SyncReport;
use kuro::types::{
    CdnNode, ChunkInfo, DefaultSection, FileRef, GroupInfo, LauncherConfig, LauncherIndex,
    LocalConfig, PatchConfig, PatchIndex, ResourceItem,
};

const GAME: &str = "/base/game";

/// Files and folders by their paths, and what a server answers.
struct World {
    files: BTreeMap<String, Vec<u8>>,
    dirs: BTreeSet<String>,
    server: BTreeMap<String, Vec<u8>>,
    config: Option<LocalConfig>,
    /// What a patch makes, by the patch's path: the results, by their paths below the results.
    patches: BTreeMap<String, Vec<(String, Vec<u8>)>>,
    /// A rename or a write to this path fails.
    broken: Option<String>,
    /// This folder cannot be removed.
    stuck: Option<String>,
}

impl World {
    fn new() -> World {
        World {
            files: BTreeMap::new(),
            dirs: BTreeSet::new(),
            server: BTreeMap::new(),
            config: None,
            patches: BTreeMap::new(),
            broken: None,
            stuck: None,
        }
    }

    fn write(&mut self, path: &str, data: &[u8]) {
        let mut dir = path;
        while let Some(at) = dir.rfind('/') {
            dir = &dir[..at];
            self.dirs.insert(dir.to_string());
        }
        self.files.insert(path.to_string(), data.to_vec());
    }

    fn game(&mut self, rel: &str, data: &[u8]) {
        self.write(&format!("{GAME}/{rel}"), data);
    }

    fn read(&self, rel: &str) -> Option<&[u8]> {
        self.files.get(&format!("{GAME}/{rel}")).map(|v| v.as_slice())
    }

    fn there(&self, path: &str) -> bool {
        self.files.contains_key(path) || self.dirs.contains(path)
    }

    fn remove_dir(&mut self, path: &str) {
        let below = format!("{path}/");
        self.files.retain(|p, _| !p.starts_with(&below));
        self.dirs.retain(|p| p != path && !p.starts_with(&below));
    }

    fn perform(&mut self, op: FileOp) -> Result<(), Error> {
        match op {
            FileOp::Rename { from, to } => {
                if self.broken.as_deref() == Some(to.as_str()) {
                    return Err(Error::Io("no space".to_string()));
                }
                if let Some(data) = self.files.remove(&from) {
                    self.write(&to, &data);
                    return Ok(());
                }
                if !self.dirs.contains(&from) {
                    return Err(Error::Io(format!("no such file: {from}")));
                }
                let below = format!("{from}/");
                let tree: Vec<(String, Vec<u8>)> = self
                    .files
                    .iter()
                    .filter(|(p, _)| p.starts_with(&below))
                    .map(|(p, d)| (format!("{to}/{}", &p[below.len()..]), d.clone()))
                    .collect();
                self.remove_dir(&from);
                self.dirs.insert(to);
                for (path, data) in tree {
                    self.write(&path, &data);
                }
                Ok(())
            }
            FileOp::Remove { path } => match self.files.remove(&path) {
                Some(_) => Ok(()),
                None => Err(Error::Io(format!("no such file: {path}"))),
            },
        }
    }

    fn recover(&mut self, dest: &str) -> Result<(), Error> {
        let backup = backup_path(dest);
        match recover_backup(dest, self.there(dest), self.there(&backup)) {
            Some(op) => self.perform(op),
            None => Ok(()),
        }
    }

    fn replace(&mut self, src: &str, dest: &str) -> Result<(), Error> {
        let mut run = safe_replace(src, dest);
        let backup = backup_path(dest);
        while let Some(op) = run.next(self.there(dest), self.there(&backup)) {
            self.perform(op)?;
        }
        Ok(())
    }

    /// The local configuration, as it lies on the disk.
    fn recorded(&self) -> LocalConfig {
        let data = self.files.get(&state::local_config_path(GAME)).unwrap();
        let text = String::from_utf8(data.clone()).unwrap();
        let fields: Vec<&str> = text.split(' ').collect();
        LocalConfig {
            version: fields[0].to_string(),
            app_id: fields[1].to_string(),
            group: fields[2].to_string(),
        }
    }

    /// The files of the game, without what is staged.
    fn game_files(&self) -> BTreeMap<String, Vec<u8>> {
        let staging = format!("{}/", state::incremental_dir(GAME));
        let mut files = self.files.clone();
        files.retain(|p, _| !p.starts_with(&staging));
        files
    }

    fn probe(&self, path: &str) -> FileProbe {
        match self.files.get(path) {
            Some(data) => FileProbe {
                size: Some(data.len() as u64),
                md5: Some(md5_bytes(data)),
            },
            None => FileProbe { size: None, md5: None },
        }
    }

    /// Fetches a job into its temporary file, and judges it.
    fn fetch(&mut self, job: &FetchJob) -> Result<(), Error> {
        let body = match self.server.get(&job.url) {
            Some(body) => body.clone(),
            None => return Err(Error::Http(format!("404 for {}", job.url))),
        };
        let (data, size) = if job.chunks.is_empty() {
            let (mut run, _) =
                download::download_single(&job.name, job.size, Some(body.len() as u64));
            for piece in body.chunks(1000) {
                let _ = run.on_bytes(piece.len() as u64);
            }
            assert_eq!(run.done, body.len() as u64);
            (body, job.size)
        } else {
            let (mut run, _) = download::download_chunked(&job.name, &job.chunks)?;
            let mut file = vec![0u8; run.total as usize];
            for chunk in &job.chunks {
                let part = &body[chunk.start as usize..=chunk.end as usize];
                let judged = download::check_chunk(&job.url, chunk, part);
                file[chunk.start as usize..=chunk.end as usize].copy_from_slice(part);
                assert!(run.waiting > 0);
                let _ = run.on_range(judged.map(|_| part.len() as u64));
            }
            assert_eq!(run.waiting, 0);
            let size = run.finish()?;
            (file, Some(size))
        };
        let actual = Some(md5_bytes(&data));
        let len = data.len() as u64;
        self.write(&job.tmp, &data);
        download::verify_file(&job.tmp, size, &job.md5, len, &actual)
    }

    fn merge(&mut self, group: &GroupInfo, idx: usize) -> Result<GroupOutcome, Error> {
        let staging = state::incremental_dir(GAME);
        let mut run = merge_one_group(GAME, &staging, group.clone(), idx);
        let mut event = MergeEvent::Begin;
        loop {
            assert!(run.accepts(&event));
            event = match run.next(event) {
                MergeAction::Stat(list) => MergeEvent::Sizes(
                    list.iter().map(|p| self.files.get(p).map(|d| d.len() as u64)).collect(),
                ),
                MergeAction::Hash(path) => {
                    MergeEvent::Hash(self.files.get(&path).map(|d| md5_bytes(d)))
                }
                MergeAction::Clear(path) | MergeAction::Discard(path) => {
                    self.remove_dir(&path);
                    MergeEvent::Done
                }
                MergeAction::Apply { source, patch, out } => {
                    assert_eq!(source, GAME);
                    match self.patches.get(&patch).cloned() {
                        Some(results) => {
                            for (rel, data) in results {
                                self.write(&format!("{out}/{rel}"), &data);
                            }
                            MergeEvent::Applied(true)
                        }
                        None => MergeEvent::Applied(false),
                    }
                }
                MergeAction::Stage { from, to } => {
                    match self.perform(FileOp::Rename { from, to }) {
                        Ok(()) => MergeEvent::Done,
                        Err(e) => MergeEvent::Failed(e),
                    }
                }
                MergeAction::Finish(outcome) => return Ok(outcome),
                MergeAction::Fail(e) => return Err(e),
            };
        }
    }

    fn merge_all(&mut self, index: &PatchIndex, order: &[usize]) -> Result<Vec<GroupOutcome>, Error> {
        let mut outcomes = Vec::new();
        for (idx, at) in order.iter().enumerate() {
            outcomes.push(self.merge(&index.group_infos[*at], idx)?);
        }
        Ok(outcomes)
    }

    fn apply(
        &mut self,
        mgr: &GameManager,
        index: &PatchIndex,
        patch: &PatchConfig,
        to_version: &str,
    ) -> Result<ApplyReport, Error> {
        let mut run = mgr.apply_inner(copy_index(index), "https://cdn.invalid", patch, to_version);
        let mut event = ApplyEvent::Begin;
        loop {
            assert!(run.accepts(&event));
            let done = match run.next(event) {
                ApplyAction::Probe(path) => {
                    event = ApplyEvent::Exists(self.there(&path));
                    continue;
                }
                ApplyAction::Merge(order) => {
                    event = match self.merge_all(index, &order) {
                        Ok(outcomes) => ApplyEvent::Merged(outcomes),
                        Err(e) => ApplyEvent::Failed(e),
                    };
                    continue;
                }
                ApplyAction::Fetch(job) => match self.fetch(&job) {
                    Ok(()) => self.perform(FileOp::Rename { from: job.tmp, to: job.target }),
                    Err(e) => Err(e),
                },
                ApplyAction::Clear(path) => {
                    self.remove_dir(&path);
                    Ok(())
                }
                ApplyAction::Digest(path) => {
                    event = ApplyEvent::Digest(self.files.get(&path).map(|d| md5_bytes(d)));
                    continue;
                }
                ApplyAction::Rename { step, only_file } => {
                    assert!(!only_file || self.files.contains_key(&step.from));
                    assert!(!self.there(&step.to), "{} is free", step.to);
                    self.perform(FileOp::Rename { from: step.from, to: step.to })
                }
                ApplyAction::Retire(step) => {
                    assert!(!self.there(&step.to), "{} is free", step.to);
                    self.perform(FileOp::Rename { from: step.from, to: step.to })
                }
                ApplyAction::Undo(step) => {
                    // what could not be written to before can be moved back
                    let broken = self.broken.take();
                    let done = self.perform(FileOp::Rename { from: step.to, to: step.from });
                    self.broken = broken;
                    done
                }
                ApplyAction::StageRecord { config, path } => {
                    if self.broken.as_deref() == Some(path.as_str()) {
                        Err(Error::Io("no space".to_string()))
                    } else {
                        self.write(&path, &config_bytes(&config));
                        Ok(())
                    }
                }
                ApplyAction::Discard(path) => {
                    if self.stuck.as_deref() == Some(path.as_str()) {
                        Err(Error::Io("busy".to_string()))
                    } else {
                        self.remove_dir(&path);
                        Ok(())
                    }
                }
                ApplyAction::Finish(report) => return Ok(report),
                ApplyAction::Fail(e) => return Err(e),
            };
            event = match done {
                Ok(()) => ApplyEvent::Done,
                Err(e) => ApplyEvent::Failed(e),
            };
        }
    }

    fn checkout(
        &mut self,
        mgr: &GameManager,
        target: Server,
        cdn: &str,
        base: &str,
        version: &str,
        index: &PatchIndex,
    ) -> Result<CheckoutReport, Error> {
        let mut run = mgr.checkout_inner(target, cdn, base, version, index);
        let mut event = CheckoutEvent::Begin;
        loop {
            assert!(run.accepts(&event));
            let done = match run.next(event) {
                CheckoutAction::Replace(job) => match self.fetch(&job) {
                    Ok(()) => self.replace(&job.tmp, &job.target),
                    Err(e) => Err(e),
                },
                CheckoutAction::Record(config) => {
                    self.config = Some(config);
                    Ok(())
                }
                CheckoutAction::Finish(report) => return Ok(report),
                CheckoutAction::Fail(e) => return Err(e),
            };
            event = match done {
                Ok(()) => CheckoutEvent::Done,
                Err(e) => CheckoutEvent::Failed(e),
            };
        }
    }

    /// The entries of a folder, with all that lies below.
    fn tree(&self, dir: &str) -> Vec<Node> {
        let below = format!("{dir}/");
        let mut entries = Vec::new();
        for path in self.files.keys() {
            if let Some(name) = path.strip_prefix(&below) {
                if !name.contains('/') {
                    entries.push(Node::File { name: name.to_string() });
                }
            }
        }
        for path in &self.dirs {
            if let Some(name) = path.strip_prefix(&below) {
                if !name.contains('/') {
                    entries.push(Node::Folder { name: name.to_string(), entries: self.tree(path) });
                }
            }
        }
        entries
    }

    fn sync(&mut self, mgr: &GameManager, index: &PatchIndex, cdn: &str, base: &str) -> SyncReport {
        let mut checks = Vec::new();
        for item in &index.resource {
            let path = sync::item_path(&mgr.game_folder, item);
            checks.push(sync::check_item(item, &self.probe(&path)));
        }
        assert!(GameManager::sync_fits(&index.resource, &checks));
        let mut run = mgr.sync_inner_with_progress(copy_index(index), cdn, base, &checks);
        for k in 0..run.queue.len() {
            assert!(run.is_pending(k));
            let job = run.repair_job(k);
            let done = match self.fetch(&job) {
                Ok(()) => self.replace(&job.tmp, &job.target),
                Err(e) => Err(e),
            };
            match done {
                Ok(()) => {
                    let _ = run.on_repaired(k);
                }
                Err(e) => run.on_failed(k, &e),
            }
            assert!(!run.is_pending(k));
        }
        let files = walk_files(&self.tree(GAME)).unwrap();
        let orphans = sweep_orphans(&index.resource, &files);
        for rel in &orphans {
            self.files.remove(&format!("{GAME}/{rel}"));
        }
        for rel in prune_empty_dirs(&self.tree(GAME)) {
            self.dirs.remove(&format!("{GAME}/{rel}"));
        }
        assert!(run.is_settled());
        run.finish(orphans.len())
    }
}

fn copy_index(index: &PatchIndex) -> PatchIndex {
    PatchIndex {
        resource: index.resource.clone(),
        delete_files: index.delete_files.clone(),
        group_infos: index.group_infos.clone(),
        apply_types: index.apply_types.clone(),
    }
}

fn config(version: &str, app_id: &str) -> LocalConfig {
    LocalConfig {
        version: version.to_string(),
        app_id: app_id.to_string(),
        group: "default".to_string(),
    }
}

fn config_bytes(cfg: &LocalConfig) -> Vec<u8> {
    format!("{} {} {}", cfg.version, cfg.app_id, cfg.group).into_bytes()
}

fn open(cfg: LocalConfig) -> GameManager {
    GameManager::open(GAME.to_string(), Some(cfg)).unwrap()
}

fn file_ref(dest: &str, data: &[u8]) -> FileRef {
    FileRef {
        dest: dest.to_string(),
        md5: md5_bytes(data),
        size: data.len() as u64,
        chunk_infos: vec![],
    }
}

fn res(dest: &str, data: &[u8]) -> ResourceItem {
    ResourceItem {
        dest: dest.to_string(),
        md5: md5_bytes(data),
        size: data.len() as u64,
        from_folder: None,
        chunk_infos: vec![],
    }
}

fn patch_config() -> PatchConfig {
    PatchConfig {
        version: "0.9.0".to_string(),
        index_file: String::new(),
        base_url: String::new(),
        size: 0,
    }
}

fn index_of(resource: Vec<ResourceItem>) -> PatchIndex {
    PatchIndex { resource, delete_files: vec![], group_infos: vec![], apply_types: vec![] }
}

fn setup_game() -> World {
    let mut w = World::new();
    w.game("Client/Content/Paks/pakchunk0.pak", &b"PAK-OLD-DATA".repeat(1000));
    w.game("Client/Binaries/Win64/game.dll", b"dll-old");
    w.game("config.json", b"{\"v\":1}");
    w.game("obsolete.txt", b"bye");
    w.config = Some(config("0.9.0", "10003"));
    w.game("launcherDownloadConfig.json", &config_bytes(&config("0.9.0", "10003")));
    w
}

fn new_tree() -> Vec<(String, Vec<u8>)> {
    vec![
        ("Client/Content/Paks/pakchunk0.pak".to_string(), b"PAK-NEW-DATA".repeat(1200)),
        ("Client/Binaries/Win64/game.dll".to_string(), b"dll-new".to_vec()),
        ("config.json".to_string(), b"{\"v\":2}".to_vec()),
        ("added.bin".to_string(), b"new-file".to_vec()),
    ]
}

fn group_one() -> GroupInfo {
    GroupInfo {
        dest: "group_1.krpdiff".to_string(),
        src_files: vec![
            file_ref("Client/Content/Paks/pakchunk0.pak", &b"PAK-OLD-DATA".repeat(1000)),
            file_ref("Client/Binaries/Win64/game.dll", b"dll-old"),
            file_ref("config.json", b"{\"v\":1}"),
        ],
        dst_files: new_tree().iter().map(|(dest, data)| file_ref(dest, data)).collect(),
    }
}

fn group_index() -> PatchIndex {
    PatchIndex {
        resource: vec![res("group_1.krpdiff", b"the patch")],
        delete_files: vec!["obsolete.txt".to_string()],
        group_infos: vec![group_one()],
        apply_types: vec![],
    }
}

/// The patch is staged and does what it should.
fn stage_patch(w: &mut World) {
    w.game(".incremental_download/group_1.krpdiff", b"the patch");
    w.patches.insert(format!("{GAME}/.incremental_download/group_1.krpdiff"), new_tree());
}

#[test]
fn swap_and_recover() {
    let mut w = World::new();
    let dest = "/dir/file.bin";
    let src = "/dir/src.bin";
    w.write(dest, b"old");
    w.write(src, b"new");

    w.replace(src, dest).unwrap();
    assert_eq!(w.files.get(dest).unwrap(), b"new");
    assert!(!w.there(&backup_path(dest)));
    assert!(!w.there(src));

    // death in the middle of a swap: the file is gone, its backup is there
    w.write(dest, b"old2");
    w.perform(FileOp::Rename { from: dest.to_string(), to: backup_path(dest) }).unwrap();
    assert!(!w.there(dest));
    w.recover(dest).unwrap();
    assert_eq!(w.files.get(dest).unwrap(), b"old2");
    assert!(!w.there(&backup_path(dest)));
}

#[test]
fn interrupted_swap_never_loses_the_file() {
    for steps in 0..6 {
        let mut w = World::new();
        w.write("/d/f", b"old");
        w.write("/d/f.bak", b"stale");
        w.write("/d/src", b"new");
        let mut run = safe_replace("/d/src", "/d/f");
        for _ in 0..steps {
            match run.next(w.there("/d/f"), w.there("/d/f.bak")) {
                Some(op) => w.perform(op).unwrap(),
                None => break,
            }
        }
        w.recover("/d/f").unwrap();
        let now = w.files.get("/d/f").unwrap().clone();
        assert!(now == b"old" || now == b"new", "after {steps} steps");
    }
}

#[test]
fn apply_merges_verifies_swaps_and_cleans() {
    let mut w = setup_game();
    stage_patch(&mut w);
    let index = group_index();

    let mgr = open(w.config.clone().unwrap());
    let report = w.apply(&mgr, &index, &patch_config(), "1.0.0").unwrap();

    assert_eq!(report.merged, 1, "one group merged");
    assert_eq!(report.swapped, 4, "four files swapped");
    assert_eq!(report.deleted, vec!["obsolete.txt".to_string()]);
    assert_eq!(report.skipped, 0);
    assert_eq!(report.fallback, 0);

    for (dest, data) in new_tree() {
        assert_eq!(w.read(&dest).unwrap(), data.as_slice(), "{dest}");
    }
    assert!(w.read("obsolete.txt").is_none(), "deleteFiles removed");

    let cfg = w.recorded();
    assert_eq!(cfg.version, "1.0.0");
    assert_eq!(cfg.app_id, "10003");
    assert_eq!(cfg.group, "default");
    assert!(!w.there(&format!("{GAME}/.incremental_download")), "staging cleaned up");
}

#[test]
fn apply_without_predownload_errors_cleanly() {
    let mut w = setup_game();
    let before = w.files.clone();
    let mgr = open(w.config.clone().unwrap());
    let err = w
        .apply(&mgr, &index_of(vec![]), &patch_config(), "1.0.0")
        .unwrap_err();
    assert!(
        err.to_string().contains("predownload"),
        "expected a predownload hint, got: {}",
        err.to_string()
    );
    assert!(matches!(err, Error::MissingField(_)));
    assert_eq!(w.files, before);
    assert_eq!(w.recorded().version, "0.9.0");
}

#[test]
fn failed_patch_falls_back_to_whole_files() {
    let mut w = setup_game();
    // the patch is staged but cannot be applied
    w.game(".incremental_download/group_1.krpdiff", b"the patch");
    let index = group_index();
    for (dest, data) in new_tree() {
        w.server.insert(format!("https://cdn.invalid//{dest}"), data);
    }
    let mgr = open(w.config.clone().unwrap());
    let report = w.apply(&mgr, &index, &patch_config(), "1.0.0").unwrap();
    assert_eq!(report.merged, 0);
    assert_eq!(report.fallback, 1);
    assert_eq!(report.swapped, 4);
    for (dest, data) in new_tree() {
        assert_eq!(w.read(&dest).unwrap(), data.as_slice(), "{dest}");
    }
}

#[test]
fn one_bad_result_is_fetched_whole() {
    let mut w = setup_game();
    stage_patch(&mut w);
    let mut results = new_tree();
    results[1].1 = b"dll-bad".to_vec();
    w.patches.insert(format!("{GAME}/.incremental_download/group_1.krpdiff"), results);
    let mut index = group_index();
    // the manifest names a folder and ranges for the file
    let mut entry = res("Client/Binaries/Win64/game.dll.krpdiff", b"dll-new");
    entry.dest = "Client/Binaries/Win64/game.dll".to_string();
    entry.from_folder = Some("/full/".to_string());
    entry.chunk_infos = vec![
        ChunkInfo { start: 0, end: 3, md5: md5_bytes(b"dll-") },
        ChunkInfo { start: 4, end: 6, md5: md5_bytes(b"new") },
    ];
    index.resource.push(entry);
    w.server.insert(
        "https://cdn.invalid/full/Client/Binaries/Win64/game.dll".to_string(),
        b"dll-new".to_vec(),
    );
    let mgr = open(w.config.clone().unwrap());
    let report = w.apply(&mgr, &index, &patch_config(), "1.0.0").unwrap();
    assert_eq!(report.merged, 0);
    assert_eq!(report.fallback, 1);
    // the manifest lists the file too, but it is not staged under the full files: what was fetched
    // in the place of the bad result is swapped in
    assert_eq!(report.swapped, 4);
    for (dest, data) in new_tree() {
        assert_eq!(w.read(&dest).unwrap(), data.as_slice(), "{dest}");
    }
}

#[test]
fn result_that_is_staged_whole_is_swapped_once() {
    let mut w = setup_game();
    stage_patch(&mut w);
    w.game(".incremental_download/resources/Client/Binaries/Win64/game.dll", b"dll-new");
    let mut index = group_index();
    index.resource.push(res("Client/Binaries/Win64/game.dll", b"dll-new"));
    let mgr = open(w.config.clone().unwrap());
    let report = w.apply(&mgr, &index, &patch_config(), "1.0.0").unwrap();
    assert_eq!((report.merged, report.swapped), (1, 4));
    assert_eq!(w.read("Client/Binaries/Win64/game.dll").unwrap(), b"dll-new");
}

#[test]
fn result_with_a_leading_slash_is_found() {
    let mut w = setup_game();
    stage_patch(&mut w);
    let mut index = group_index();
    for file in &mut index.group_infos[0].dst_files {
        file.dest = format!("/{}", file.dest);
    }
    let mgr = open(w.config.clone().unwrap());
    let report = w.apply(&mgr, &index, &patch_config(), "1.0.0").unwrap();
    assert_eq!((report.merged, report.swapped), (1, 4));
    for (dest, data) in new_tree() {
        assert_eq!(w.read(&dest).unwrap(), data.as_slice(), "{dest}");
    }
}

#[test]
fn missing_output_leaves_the_game_alone() {
    let mut w = setup_game();
    stage_patch(&mut w);
    let mut results = new_tree();
    results.pop();
    w.patches.insert(format!("{GAME}/.incremental_download/group_1.krpdiff"), results);
    let index = group_index();
    let mgr = open(w.config.clone().unwrap());
    // the file that is missing cannot be fetched either
    let err = w.apply(&mgr, &index, &patch_config(), "1.0.0").unwrap_err();
    assert!(matches!(err, Error::Http(_)));
    assert_eq!(w.read("config.json").unwrap(), b"{\"v\":1}");
    assert_eq!(w.read("obsolete.txt").unwrap(), b"bye");
    assert_eq!(w.recorded().version, "0.9.0");
    assert!(w.there(&format!("{GAME}/.incremental_download/group_1.krpdiff")));
}

#[test]
fn group_that_was_applied_before_is_left_alone() {
    let mut w = setup_game();
    for (dest, data) in new_tree() {
        w.game(&dest, &data);
    }
    w.game(".incremental_download/group_1.krpdiff", b"the patch");
    let mgr = open(w.config.clone().unwrap());
    let report = w.apply(&mgr, &group_index(), &patch_config(), "1.0.0").unwrap();
    assert_eq!((report.merged, report.skipped, report.fallback), (0, 1, 0));
    assert_eq!(report.swapped, 0);
    for (dest, data) in new_tree() {
        assert_eq!(w.read(&dest).unwrap(), data.as_slice(), "{dest}");
    }
    assert!(w.read("obsolete.txt").is_none());
    assert_eq!(w.recorded().version, "1.0.0");
}

/// A game with a stale backup, with a file of which only the backup is there, and with what an
/// earlier update left.
fn setup_worn_game() -> World {
    let mut w = setup_game();
    stage_patch(&mut w);
    w.game("config.json.bak", b"a stale backup");
    w.perform(FileOp::Rename {
        from: format!("{GAME}/Client/Binaries/Win64/game.dll"),
        to: format!("{GAME}/Client/Binaries/Win64/game.dll.bak"),
    })
    .unwrap();
    w.game(".incremental_download.old/patch.krpdiff", b"left");
    w
}

/// An update in which a rename or a write to this path fails leaves the game as it was; it can be
/// tried again. False where the update does not get in the way of it.
fn is_undone(broken: &str) -> bool {
    let mut w = setup_worn_game();
    let before = w.game_files();
    w.broken = Some(broken.to_string());
    let mgr = open(w.config.clone().unwrap());
    match w.apply(&mgr, &group_index(), &patch_config(), "1.0.0") {
        Ok(_) => return false,
        Err(e) => assert!(matches!(e, Error::Io(_)), "{broken}"),
    }
    assert_eq!(w.game_files(), before, "{broken}");
    assert_eq!(w.recorded().version, "0.9.0");
    for (dest, data) in new_tree() {
        let staged = format!("{GAME}/.incremental_download/{dest}");
        assert_eq!(w.files.get(&staged), Some(&data), "{staged} is staged again");
    }
    w.broken = None;
    let report = w.apply(&mgr, &group_index(), &patch_config(), "1.0.0").unwrap();
    assert_eq!((report.swapped, report.deleted.len()), (4, 1));
    assert_eq!(w.recorded().version, "1.0.0");
    assert!(!w.there(&format!("{GAME}/.incremental_download")));
    assert!(!w.there(&format!("{GAME}/.incremental_download.old")));
    for path in w.files.keys() {
        assert!(!path.ends_with(".bak"), "{path}");
    }
    true
}

#[test]
fn failed_step_is_undone() {
    for rel in [
        "Client/Content/Paks/pakchunk0.pak",
        "Client/Content/Paks/pakchunk0.pak.bak",
        "Client/Binaries/Win64/game.dll",
        "config.json",
        "config.json.bak",
        "added.bin",
        "launcherDownloadConfig.json",
        "launcherDownloadConfig.json.bak",
        ".incremental_download/.kept/launcherDownloadConfig.json",
        ".incremental_download.old",
    ] {
        assert!(is_undone(&format!("{GAME}/{rel}")), "{rel}");
    }
    let slots = (0..20)
        .filter(|n| is_undone(&format!("{GAME}/.incremental_download/.kept/{n}")))
        .count();
    // what was left; the old files, one of them a backup before; the stale backup; what is removed;
    // the old record
    assert_eq!(slots, 1 + 3 + 1 + 1 + 1);
}

#[test]
fn staging_is_gone_though_its_remains_are_not() {
    let mut w = setup_game();
    stage_patch(&mut w);
    let remains = format!("{GAME}/.incremental_download.old");
    w.stuck = Some(remains.clone());
    let mgr = open(w.config.clone().unwrap());
    let report = w.apply(&mgr, &group_index(), &patch_config(), "1.0.0").unwrap();
    assert_eq!(report.swapped, 4);
    assert_eq!(w.recorded().version, "1.0.0");
    assert!(!w.there(&format!("{GAME}/.incremental_download")));
    assert!(w.there(&remains));

    // the next update takes them along
    w.stuck = None;
    w.game(".incremental_download/group_1.krpdiff", b"another patch");
    let report = w.apply(&mgr, &group_index(), &patch_config(), "1.0.1").unwrap();
    assert_eq!((report.skipped, report.swapped), (1, 0));
    assert_eq!(w.recorded().version, "1.0.1");
    assert!(!w.there(&remains));
}

#[test]
fn missing_source_is_left_to_its_backup() {
    let mut w = setup_game();
    stage_patch(&mut w);
    let pak = format!("{GAME}/Client/Content/Paks/pakchunk0.pak");
    w.perform(FileOp::Rename { from: pak.clone(), to: format!("{pak}.bak") }).unwrap();
    let before = w.game_files();
    let index = group_index();
    let outcome = w.merge(&index.group_infos[0], 0).unwrap();
    assert!(matches!(outcome, GroupOutcome::Fallback(files) if files.len() == 4));
    assert_eq!(w.game_files(), before);
}

#[test]
fn stale_full_file_gives_way_to_the_result_of_the_group() {
    let mut w = setup_game();
    stage_patch(&mut w);
    w.game(".incremental_download/resources/Client/Binaries/Win64/game.dll", b"dll-stale");
    let mut index = group_index();
    index.resource.push(res("Client/Binaries/Win64/game.dll", b"dll-new"));
    let mgr = open(w.config.clone().unwrap());
    let report = w.apply(&mgr, &index, &patch_config(), "1.0.0").unwrap();
    assert_eq!((report.merged, report.swapped), (1, 4));
    assert_eq!(w.read("Client/Binaries/Win64/game.dll").unwrap(), b"dll-new");
}

#[test]
fn stale_full_file_fails_before_anything_changes() {
    let mut w = setup_game();
    w.game(".incremental_download/resources/big/new.exe", b"OLD");
    let before = w.game_files();
    let index = index_of(vec![res("big/new.exe", b"EXE")]);
    let mgr = open(w.config.clone().unwrap());
    let err = w.apply(&mgr, &index, &patch_config(), "1.0.0").unwrap_err();
    match err {
        Error::ChecksumMismatch { path, expected, actual } => {
            assert_eq!(path, format!("{GAME}/.incremental_download/resources/big/new.exe"));
            assert_eq!((expected, actual), (md5_bytes(b"EXE"), md5_bytes(b"OLD")));
        }
        other => panic!("{other:?}"),
    }
    assert_eq!(w.game_files(), before);
}

#[test]
fn results_are_hashed_before_they_are_swapped_in() {
    let w = setup_game();
    let mgr = open(w.config.clone().unwrap());
    let first = |found: Option<String>| {
        let mut run =
            mgr.apply_inner(group_index(), "https://cdn.invalid", &patch_config(), "1.0.0");
        run.next(ApplyEvent::Begin);
        run.next(ApplyEvent::Exists(true));
        match run.next(ApplyEvent::Merged(vec![GroupOutcome::Merged])) {
            ApplyAction::Digest(path) => {
                assert!(path.ends_with("/.incremental_download/Client/Content/Paks/pakchunk0.pak"))
            }
            other => panic!("{other:?}"),
        }
        run.next(ApplyEvent::Digest(found))
    };
    let good = md5_bytes(&b"PAK-NEW-DATA".repeat(1200));
    assert!(matches!(first(Some(good)), ApplyAction::Digest(_)));
    assert!(matches!(
        first(Some("another".to_string())),
        ApplyAction::Fail(Error::ChecksumMismatch { .. })
    ));
    match first(None) {
        ApplyAction::Fail(e) => assert_eq!(
            e.to_string(),
            "patch error: staged output missing for Client/Content/Paks/pakchunk0.pak — rerun predownload/apply"
        ),
        other => panic!("{other:?}"),
    }
}

#[test]
fn outcomes_must_be_as_many_as_groups() {
    let w = setup_game();
    let mgr = open(w.config.clone().unwrap());
    let mut run = mgr.apply_inner(group_index(), "https://cdn.invalid", &patch_config(), "1.0.0");
    assert!(matches!(run.next(ApplyEvent::Begin), ApplyAction::Probe(_)));
    assert!(matches!(run.next(ApplyEvent::Exists(true)), ApplyAction::Merge(_)));
    assert!(!run.accepts(&ApplyEvent::Merged(vec![])));
    assert!(!run.accepts(&ApplyEvent::Merged(vec![GroupOutcome::Merged, GroupOutcome::Merged])));
    assert!(run.accepts(&ApplyEvent::Merged(vec![GroupOutcome::Merged])));
}

#[test]
fn full_files_are_swapped_in_too() {
    let mut w = setup_game();
    w.game(".incremental_download/resources/big/new.exe", b"EXE");
    let mut exe = res("/big/new.exe", b"EXE");
    exe.from_folder = Some("full".to_string());
    let index = index_of(vec![exe, res("never-fetched.bin", b"x")]);
    let mgr = open(w.config.clone().unwrap());
    let report = w.apply(&mgr, &index, &patch_config(), "1.0.0").unwrap();
    assert_eq!(report.swapped, 1);
    assert_eq!(w.read("big/new.exe").unwrap(), b"EXE");
    assert!(w.read("never-fetched.bin").is_none());
}

#[test]
fn largest_groups_are_merged_first() {
    let group = |dest: &str, sizes: &[u64]| GroupInfo {
        dest: dest.to_string(),
        src_files: vec![],
        dst_files: sizes
            .iter()
            .map(|s| FileRef {
                dest: "f".to_string(),
                md5: String::new(),
                size: *s,
                chunk_infos: vec![],
            })
            .collect(),
    };
    let groups = vec![
        group("a", &[1, 2]),
        group("b", &[u64::MAX, u64::MAX]),
        group("c", &[3]),
        group("d", &[]),
        group("e", &[u64::MAX]),
    ];
    assert_eq!(merge_order(&groups), vec![1, 4, 0, 2, 3]);
}

fn launcher_index(cdn: &str) -> LauncherIndex {
    LauncherIndex {
        default: DefaultSection {
            cdn_list: vec![CdnNode { p: 1, k1: 1, k2: 1, url: cdn.to_string() }],
            config: LauncherConfig {
                version: "3.6.0".to_string(),
                index_file: "indexFile.json".to_string(),
                index_file_md5: String::new(),
                base_url: "zip/".to_string(),
                size: 0,
                patch_type: "patch".to_string(),
                patch_config: vec![],
            },
            resources_base_path: String::new(),
            version: "3.6.0".to_string(),
        },
        predownload: None,
        predownload_switch: None,
    }
}

fn bilibili_files() -> Vec<(&'static str, &'static [u8])> {
    vec![
        ("Client/Binaries/Win64/bilibili_sdk.dll", b"BILIBILI-SDK"),
        ("Client/Content/Paks/pakchunk1-Bilibili-Win64-Shipping.pak", b"BILIBILI-PAK"),
    ]
}

fn setup_checkout() -> World {
    let mut w = World::new();
    w.game("Client/Binaries/Win64/bilibili_sdk.dll", b"CN-SDK");
    w.game("Client/Content/Paks/pakchunk1-Bilibili-Win64-Shipping.pak", b"CN-PAK");
    w.config = Some(config("3.6.0", "10003"));
    w
}

#[test]
fn checkout_swaps_diff_files_and_updates_appid() {
    let mut w = setup_checkout();
    let server = "http://127.0.0.1:1";
    for (dest, data) in bilibili_files() {
        w.server.insert(format!("{server}/zip/{dest}"), data.to_vec());
    }
    let index = index_of(bilibili_files().iter().map(|(d, b)| res(d, b)).collect());

    let mgr = open(w.config.clone().unwrap());
    assert!(mgr.checkout(Server::Bilibili).is_ok());
    let launcher = launcher_index(server);
    assert!(ApiClient::weights_fit(&launcher));
    let source = ApiClient::manifest_source(&launcher, 12345).unwrap();
    assert_eq!(source.url, format!("{server}/indexFile.json"));
    let report = w
        .checkout(&mgr, Server::Bilibili, &source.cdn, &source.base_url, &source.version, &index)
        .unwrap();

    assert_eq!(report.swapped_files, 2);
    assert_eq!(report.new_version, "3.6.0");
    assert_eq!(report.from_server, Server::Cn);
    assert_eq!(report.to_server, Server::Bilibili);

    assert_eq!(w.read("Client/Binaries/Win64/bilibili_sdk.dll").unwrap(), b"BILIBILI-SDK");
    assert_eq!(
        w.read("Client/Content/Paks/pakchunk1-Bilibili-Win64-Shipping.pak").unwrap(),
        b"BILIBILI-PAK"
    );
    assert_eq!(w.config.unwrap().app_id, "10004", "appId switched to bilibili");
}

#[test]
fn checkout_without_channel_files_changes_nothing() {
    let mut w = setup_checkout();
    let before = w.files.clone();
    let mgr = open(w.config.clone().unwrap());
    let index = index_of(vec![res("other.bin", b"x")]);
    let err = w
        .checkout(&mgr, Server::Bilibili, "http://h", "zip", "3.6.0", &index)
        .unwrap_err();
    assert_eq!(
        err.to_string(),
        "patch error: checkout: no channel files could be swapped (missing from target manifest) — config left unchanged"
    );
    assert_eq!(w.files, before);
    assert_eq!(w.config.unwrap().app_id, "10003");
}

#[test]
fn checkout_that_fails_records_nothing() {
    let mut w = setup_checkout();
    let server = "http://h";
    // the second file has another digest than the manifest says
    w.server.insert(
        format!("{server}/zip/Client/Binaries/Win64/bilibili_sdk.dll"),
        b"BILIBILI-SDK".to_vec(),
    );
    w.server.insert(
        format!("{server}/zip/Client/Content/Paks/pakchunk1-Bilibili-Win64-Shipping.pak"),
        b"DAMAGED".to_vec(),
    );
    let index = index_of(bilibili_files().iter().map(|(d, b)| res(d, b)).collect());
    let mgr = open(w.config.clone().unwrap());
    let err = w
        .checkout(&mgr, Server::Bilibili, server, "zip", "3.6.0", &index)
        .unwrap_err();
    assert!(matches!(err, Error::ChecksumMismatch { .. }));
    assert_eq!(w.config.unwrap().app_id, "10003");
}

#[test]
fn global_checkout_is_refused() {
    let mgr = open(config("3.6.0", "10003"));
    let err = mgr.checkout(Server::Global).unwrap_err();
    assert_eq!(
        err.to_string(),
        "unimplemented: global fast-switch is not supported (package differences) — full sync instead"
    );
}

fn client_files() -> Vec<(&'static str, &'static [u8])> {
    vec![("Client/a.dat", b"CLIENT-FILE-A"), ("Client/b.dat", b"CLIENT-FILE-B")]
}

#[test]
fn install_flow_writes_config_and_downloads_everything() {
    let mut w = World::new();
    w.dirs.insert(GAME.to_string());

    // the local configuration for the target version comes first
    let cfg = GameManager::install_with_progress(Game::Pgr, Server::Global, "1.0.0").unwrap();
    assert_eq!(cfg.version, "1.0.0");
    assert_eq!(cfg.app_id, "50015");
    assert_eq!(cfg.group, "default");
    w.game("launcherDownloadConfig.json", b"{}");

    // then the whole client is fetched
    let server = "http://127.0.0.1:2";
    for (dest, data) in client_files() {
        w.server.insert(format!("{server}/zip/{dest}"), data.to_vec());
    }
    let index = index_of(client_files().iter().map(|(d, b)| res(d, b)).collect());
    let mgr = open(cfg);
    assert_eq!(mgr.game.to_string(), "punishing-gray-raven");
    assert_eq!(mgr.server.to_string(), "global");

    let report = w.sync(&mgr, &index, server, "zip");
    assert_eq!(report.checked, 2);
    assert_eq!(report.repaired, 2);
    assert!(report.failed.is_empty());

    assert_eq!(w.read("Client/a.dat").unwrap(), b"CLIENT-FILE-A");
    assert_eq!(w.read("Client/b.dat").unwrap(), b"CLIENT-FILE-B");
}

#[test]
fn install_on_a_server_that_a_game_lacks_is_refused() {
    let err =
        GameManager::install_with_progress(Game::Pgr, Server::Bilibili, "1.0.0").unwrap_err();
    assert_eq!(
        err.to_string(),
        "unknown appId `punishing-gray-raven/bilibili` — cannot map to a known game/server"
    );
}

#[test]
fn game_program_is_found() {
    assert_eq!(exe_candidates()[2], "PGR.exe");
    let entry = |name: &str, is_file: bool| RootEntry { name: name.to_string(), is_file };
    let none = vec![false, false, false];
    assert_eq!(
        find_game_exe(&vec![false, true, true], &vec![]).as_deref(),
        Some("Client/Binaries/Win64/PGR.exe")
    );
    assert_eq!(
        find_game_exe(&none, &vec![entry("a.exe", false), entry("b.txt", true), entry("c.exe", true)])
            .as_deref(),
        Some("c.exe")
    );
    assert_eq!(find_game_exe(&none, &vec![entry("b.EXE", true)]), None);
}

fn sync_game() -> World {
    let mut w = World::new();
    w.game("launcherDownloadConfig.json", b"{}");
    w.dirs.insert(format!("{GAME}/Client/Content/Paks"));
    w.config = Some(config("3.6.0", "10003"));
    w
}

#[test]
fn sync_repairs_missing_and_bad_files() {
    let mut w = sync_game();
    let server = "http://127.0.0.1:3";
    let files: Vec<(&str, &[u8])> = vec![
        ("Client/Content/Paks/fileA.pak", b"FILE-A-CONTENT"),
        ("Client/Content/Paks/fileB.pak", b"FILE-B-CONTENT"),
        ("Client/Content/Paks/fileC.pak", b"FILE-C-CONTENT"),
    ];
    w.game("Client/Content/Paks/fileB.pak", b"CORRUPTED!!");
    w.game("Client/Content/Paks/fileC.pak", b"FILE-C-CONTENT");
    for (dest, data) in &files {
        w.server.insert(format!("{server}/zip/{dest}"), data.to_vec());
    }
    let index = index_of(files.iter().map(|(d, b)| res(d, b)).collect());

    let mgr = open(w.config.clone().unwrap());
    let report = w.sync(&mgr, &index, server, "zip");

    assert_eq!(report.checked, 3);
    assert_eq!(report.ok, 1, "only fileC was intact");
    assert_eq!(report.repaired, 2, "A + B repaired");
    assert_eq!(report.repaired_bytes, 28);
    assert!(report.failed.is_empty(), "no failures: {report:?}");
    for (dest, data) in &files {
        assert_eq!(w.read(dest).unwrap(), *data);
    }
    assert!(w.read("Client/Content/Paks/fileB.pak.bak").is_none());

    // a second time there is nothing to do, and no server is needed
    w.server.clear();
    let disk = w.files.clone();
    let report = w.sync(&mgr, &index, server, "zip");
    assert_eq!((report.checked, report.ok), (3, 3));
    assert_eq!((report.repaired, report.repaired_bytes, report.orphans_removed), (0, 0, 0));
    assert!(report.failed.is_empty());
    assert_eq!(w.files, disk);
}

#[test]
fn sync_removes_files_not_in_manifest() {
    let mut w = sync_game();
    let paks = "Client/Content/Paks";
    w.game(&format!("{paks}/fileA.pak"), b"FILE-A-CONTENT");
    w.game(&format!("{paks}/pakchunk18-WindowsNoEditor.pak"), b"OLD-PAKCHUNK-3.5-CONTENT");
    w.game(&format!("{paks}/stray.tmp"), b"SOMETHING-PGR-PUT-HERE");
    w.game(&format!("{paks}/inflight.sync.tmp"), b"IN-FLIGHT");
    w.game(&format!("{paks}/.incremental_download/staged.pak"), b"STAGED");
    w.game(&format!("{paks}/OldLocale/en-US/old.bin"), b"OLD-LOCALE");

    let index = index_of(vec![res("Client/Content/Paks/fileA.pak", b"FILE-A-CONTENT")]);
    let mgr = open(w.config.clone().unwrap());
    let report = w.sync(&mgr, &index, "http://h", "zip");

    assert_eq!(report.checked, 1, "only manifest files are verified");
    assert_eq!(report.ok, 1);
    assert_eq!(report.repaired, 0);
    assert!(report.failed.is_empty(), "no failures: {report:?}");
    assert_eq!(
        report.orphans_removed, 2,
        "pakchunk + old.bin removed; .tmp and incr preserved: {report:?}"
    );

    assert_eq!(w.read(&format!("{paks}/fileA.pak")).unwrap(), b"FILE-A-CONTENT");
    assert!(w.read(&format!("{paks}/pakchunk18-WindowsNoEditor.pak")).is_none());
    assert!(w.read(&format!("{paks}/OldLocale/en-US/old.bin")).is_none());
    assert!(!w.there(&format!("{GAME}/{paks}/OldLocale")), "empty directory pruned");

    assert!(w.read(&format!("{paks}/inflight.sync.tmp")).is_some());
    assert!(w.read(&format!("{paks}/stray.tmp")).is_some());
    assert!(w.read(&format!("{paks}/.incremental_download/staged.pak")).is_some());
    assert!(w.read("launcherDownloadConfig.json").is_some());
}

#[test]
fn sync_counts_what_cannot_be_repaired() {
    let mut w = sync_game();
    let server = "http://h";
    w.game("good.bin", b"good");
    w.server.insert(format!("{server}/zip/gone.bin"), b"gone".to_vec());
    w.server.insert(format!("{server}/zip/bad.bin"), b"BAD!".to_vec());
    let index = index_of(vec![
        res("good.bin", b"good"),
        res("gone.bin", b"gone"),
        res("bad.bin", b"bad?"),
        res("lost.bin", b"lost"),
    ]);
    let mgr = open(w.config.clone().unwrap());
    let report = w.sync(&mgr, &index, server, "zip");
    assert_eq!(report.checked, report.ok + report.repaired + report.failed.len());
    assert_eq!((report.ok, report.repaired), (1, 1));
    assert_eq!(report.repaired_bytes, 4);
    assert_eq!(
        report.failed[0],
        format!(
            "checksum mismatch for {GAME}/bad.sync.tmp: expected {}, got {}",
            md5_bytes(b"bad?"),
            md5_bytes(b"BAD!")
        )
    );
    assert_eq!(
        report.failed[1],
        "HTTP request failed: 404 for http://h/zip/lost.bin"
    );
}

#[test]
fn sync_fetches_large_files_in_ranges() {
    let mut w = sync_game();
    let data: Vec<u8> = (0..10_000_000u32).map(|i| (i % 251) as u8).collect();
    let index = index_of(vec![res("/big.pak", &data)]);
    w.server.insert("http://h/zip/big.pak".to_string(), data.clone());
    let mgr = open(w.config.clone().unwrap());
    let report = w.sync(&mgr, &index, "http://h/", "/zip/");
    assert_eq!(report.repaired, 1);
    assert_eq!(w.read("big.pak").unwrap(), data.as_slice());
}

#[test]
fn a_bad_range_is_not_put_in_place() {
    let mut w = sync_game();
    w.game("f.bin", b"old content");
    let mut item = res("f.bin", b"new content!");
    item.md5 = String::new();
    item.chunk_infos = vec![
        ChunkInfo { start: 0, end: 3, md5: md5_bytes(b"new ") },
        ChunkInfo { start: 4, end: 11, md5: md5_bytes(b"content!") },
    ];
    w.server.insert("http://h/zip/f.bin".to_string(), b"new CONTENT!".to_vec());
    let mgr = open(w.config.clone().unwrap());
    let report = w.sync(&mgr, &index_of(vec![item]), "http://h", "zip");
    assert_eq!(report.failed.len(), 1);
    assert!(report.failed[0].starts_with("checksum mismatch for http://h/zip/f.bin [4-11]"));
    assert_eq!(w.read("f.bin").unwrap(), b"old content");
}

#[test]
fn md5_known_vector() {
    assert_eq!(md5_file(&vec![b"hello".to_vec()]), "5d41402abc4b2a76b9719d911017c592");
    assert_eq!(
        md5_file(&vec![b"he".to_vec(), vec![], b"llo".to_vec()]),
        "5d41402abc4b2a76b9719d911017c592"
    );
}

fn probes_of(w: &World, index: &PatchIndex) -> PlanProbes {
    PlanProbes {
        group_sizes: index
            .group_infos
            .iter()
            .map(|g| {
                g.dst_files
                    .iter()
                    .map(|d| w.read(&d.dest).map(|b| b.len() as u64))
                    .collect()
            })
            .collect(),
        patches: index
            .group_infos
            .iter()
            .map(|g| w.probe(&state::staged_patch_path(GAME, &g.dest)))
            .collect(),
        files: index
            .resource
            .iter()
            .map(|r| w.probe(&state::staged_resource_path(GAME, &r.dest)))
            .collect(),
    }
}

fn predownload(w: &mut World, mgr: &GameManager, plan: PredownloadPlan, index: &PatchIndex) -> usize {
    let patch = PatchConfig {
        version: "0.9.0".to_string(),
        index_file: String::new(),
        base_url: "/patches/".to_string(),
        size: 0,
    };
    let mut run = mgr.predownload(plan, "http://h", &patch, copy_index(index));
    let mut fetched = 0;
    loop {
        match run.next() {
            PredownloadStep::Skip => {}
            PredownloadStep::Fetch { announced, job, done } => {
                let job = job.unwrap();
                assert_eq!(announced.len(), 2);
                assert!(matches!(&announced[0], ProgressEvent::GroupStart { name } if *name == job.name));
                assert!(matches!(
                    &announced[1],
                    ProgressEvent::FileProgress { name, bytes: 0, total }
                        if *name == job.name && Some(*total) == job.size
                ));
                assert!(matches!(
                    &done,
                    ProgressEvent::GroupDone { name, bytes }
                        if *name == job.name && Some(*bytes) == job.size
                ));
                w.fetch(&job).unwrap();
                w.perform(FileOp::Rename { from: job.tmp, to: job.target }).unwrap();
                fetched += 1;
            }
            PredownloadStep::Finished(last) => {
                assert!(matches!(last, ProgressEvent::Done));
                return fetched;
            }
        }
    }
}

#[test]
fn predownload_stages_what_apply_needs() {
    let mut w = setup_game();
    let mut index = group_index();
    let mut exe = res("game.exe", b"EXE");
    exe.from_folder = Some("full".to_string());
    index.resource.push(exe);
    index.resource.push(res("no-folder.bin", b"x"));
    w.server.insert("http://h/patches/group_1.krpdiff".to_string(), b"the patch".to_vec());
    w.server.insert("http://h/full/game.exe".to_string(), b"EXE".to_vec());

    let probes = probes_of(&w, &index);
    assert!(GameManager::plan_fits(&index, &probes));
    let plan = GameManager::plan_predownload("0.9.0", "1.0.0", &index, &probes);
    assert_eq!(plan.patch_groups.len(), 1);
    assert_eq!(plan.full_files.len(), 1);
    assert_eq!(plan.total_bytes, 12);
    let mgr = open(w.config.clone().unwrap());
    assert_eq!(predownload(&mut w, &mgr, plan, &index), 2);

    // a second plan finds everything staged
    let probes = probes_of(&w, &index);
    let plan = GameManager::plan_predownload("0.9.0", "1.0.0", &index, &probes);
    assert_eq!(plan.total_bytes, 0);
    assert!(plan.patch_groups[0].local_ready);
    assert!(plan.full_files[0].local_ready);
    assert_eq!(predownload(&mut w, &mgr, plan, &index), 0);

    // and the update can be applied
    w.patches.insert(format!("{GAME}/.incremental_download/group_1.krpdiff"), new_tree());
    let report = w.apply(&mgr, &index, &patch_config(), "1.0.0").unwrap();
    assert_eq!((report.merged, report.swapped), (1, 5));
    assert_eq!(w.read("game.exe").unwrap(), b"EXE");

    // nothing is left to plan for the groups
    let probes = probes_of(&w, &index);
    let plan = GameManager::plan_predownload("0.9.0", "1.0.0", &index, &probes);
    assert!(plan.patch_groups.is_empty());
}

#[test]
fn damaged_patch_is_not_staged() {
    let mut w = setup_game();
    let index = group_index();
    let probes = probes_of(&w, &index);
    let plan = GameManager::plan_predownload("0.9.0", "1.0.0", &index, &probes);
    let mgr = open(w.config.clone().unwrap());
    let mut run = mgr.predownload(plan, "http://h", &patch_config(), copy_index(&index));
    let job = match run.next() {
        PredownloadStep::Fetch { job, .. } => job.unwrap(),
        _ => panic!("the patch is not staged yet"),
    };
    assert_eq!(job.md5, Some(md5_bytes(b"the patch")));
    // as long as the patch, but another one
    w.server.insert(job.url.clone(), b"thE patch".to_vec());
    assert!(matches!(w.fetch(&job), Err(Error::ChecksumMismatch { .. })));

    // a manifest without a digest leaves the size to go by
    let mut index = group_index();
    index.resource[0].md5 = String::new();
    let plan = GameManager::plan_predownload("0.9.0", "1.0.0", &index, &probes_of(&w, &index));
    let mut run = mgr.predownload(plan, "http://h", &patch_config(), index);
    match run.next() {
        PredownloadStep::Fetch { job, .. } => assert_eq!(job.unwrap().md5, None),
        _ => panic!("the patch is not staged yet"),
    }
}

#[test]
fn update_is_chosen_by_version() {
    let mut index = launcher_index("http://h");
    index.default.config.patch_config = vec![
        PatchConfig {
            version: "3.5.0".to_string(),
            index_file: "a".to_string(),
            base_url: String::new(),
            size: 0,
        },
        PatchConfig {
            version: "3.5.0".to_string(),
            index_file: "b".to_string(),
            base_url: String::new(),
            size: 0,
        },
    ];
    assert!(matches!(
        GameManager::choose_update("3.6.0", &index),
        Ok(UpdateChoice::UpToDate)
    ));
    match GameManager::choose_update("3.5.0", &index) {
        Ok(UpdateChoice::Update(c)) => assert_eq!(c.index_file, "a"),
        _ => panic!("no update"),
    }
    match GameManager::choose_update("3.4.0", &index) {
        Err(e) => assert_eq!(
            e.to_string(),
            "missing required field `patchConfig entry for local version`"
        ),
        _ => panic!("an update"),
    }
    let nothing = GameManager::plan_nothing("3.6.0");
    assert_eq!(nothing.total_bytes, 0);
    assert_eq!(nothing.to_version, "3.6.0");
}
