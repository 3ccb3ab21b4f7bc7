//! What the messages of running tasks do to the interface.

use vstd::prelude::*;

use crate::config;
use crate::game::{GameStatus, GameStatusView};
use crate::progress::{ProgressEvent, ProgressEventView};
use crate::text;
use crate::ui;
use crate::ui::{FileState, FileStateView, TaskUi, TaskView, UiState, UiView};

verus! {

/// A message to the interface.
#[derive(Debug)]
pub enum UiEvent {
    /// The status of the game at this position, or why there is none.
    Status(usize, Result<GameStatus, String>),
    Progress(ProgressEvent),
    /// How the running task ended.
    TaskDone(Result<String, String>),
}

/// The model of [`UiEvent`].
pub enum UiEventView {
    Status(usize, Result<GameStatusView, Seq<char>>),
    Progress(ProgressEventView),
    TaskDone(Result<Seq<char>, Seq<char>>),
}

impl DeepView for UiEvent {
    type V = UiEventView;

    open spec fn deep_view(&self) -> UiEventView {
        match self {
            UiEvent::Status(idx, Ok(s)) => UiEventView::Status(*idx, Ok(s.deep_view())),
            UiEvent::Status(idx, Err(e)) => UiEventView::Status(*idx, Err(e@)),
            UiEvent::Progress(p) => UiEventView::Progress(p.deep_view()),
            UiEvent::TaskDone(Ok(m)) => UiEventView::TaskDone(Ok(m@)),
            UiEvent::TaskDone(Err(e)) => UiEventView::TaskDone(Err(e@)),
        }
    }
}

/// What is said of a status.
pub open spec fn status_line(s: Result<GameStatusView, Seq<char>>) -> Seq<char> {
    match s {
        Ok(g) => {
            let local = match g.local_version {
                Some(v) => v,
                None => "not installed"@,
            };
            let news = if g.update_available {
                "update available"@
            } else {
                "up to date"@
            };
            "status: "@ + ui::pretty_name(g.game) + " ("@ + config::server_name(g.server)
                + ") — local "@ + local + ", remote "@ + g.remote_version + " · "@ + news
        },
        Err(e) => "status error: "@ + ui::friendly(e),
    }
}

/// The first position from `i` on of a file with this name, or the end.
pub open spec fn first_named(files: Seq<FileStateView>, name: Seq<char>, i: int) -> int
    decreases files.len() - i,
{
    if i < 0 || i >= files.len() || files[i].name == name {
        i
    } else {
        first_named(files, name, i + 1)
    }
}

/// Some files with the progress of one of them: where it is among them, it is brought up to date;
/// else it is added.
pub open spec fn with_progress(files: Seq<FileStateView>, file: FileStateView) -> Seq<FileStateView> {
    let i = first_named(files, file.name, 0);
    if i < files.len() {
        files.update(i, file)
    } else {
        files.push(file)
    }
}

/// Some files without those of this name.
pub open spec fn without(files: Seq<FileStateView>, name: Seq<char>) -> Seq<FileStateView>
    decreases files.len(),
{
    if files.len() == 0 {
        Seq::empty()
    } else {
        let before = without(files.drop_last(), name);
        if files.last().name == name {
            before
        } else {
            before.push(files.last())
        }
    }
}

/// A number of bytes that grew, as far as numbers go.
pub open spec fn bytes_grown(n: u64, by: u64) -> u64 {
    if n + by <= u64::MAX {
        (n + by) as u64
    } else {
        u64::MAX
    }
}

/// What a task's progress does to the task. A log line does nothing to it.
pub open spec fn task_after(t: TaskView, p: ProgressEventView) -> TaskView {
    match p {
        ProgressEventView::Log(_) => t,
        ProgressEventView::SetTotal { bytes } => TaskView {
            total_bytes: bytes,
            files: Seq::empty(),
            ..t
        },
        ProgressEventView::SetQueued { count } => TaskView { queued: count, ..t },
        ProgressEventView::GroupStart { .. } => TaskView { queued: ui::grown(t.queued, 1), ..t },
        ProgressEventView::FileProgress { name, bytes, total } => TaskView {
            files: with_progress(t.files, FileStateView { name, done: bytes, total }),
            ..t
        },
        ProgressEventView::GroupDone { name, bytes } => TaskView {
            files: without(t.files, name),
            done: ui::grown(t.done, 1),
            done_bytes: bytes_grown(t.done_bytes, bytes),
            queued: ui::shrunk(t.queued, 1),
            ..t
        },
        ProgressEventView::Done => TaskView {
            finished: Some(Ok("download complete — press 'a' to apply"@)),
            ..t
        },
    }
}

/// What a message does to the interface.
pub open spec fn on_event(s: UiView, event: UiEventView) -> UiView {
    match event {
        UiEventView::Status(idx, status) => UiView {
            logs: ui::logged(s.logs, status_line(status)),
            statuses: if idx < s.statuses.len() {
                s.statuses.update(idx as int, Some(status))
            } else {
                s.statuses
            },
            ..s
        },
        UiEventView::Progress(p) => {
            let task = match s.task {
                Some(t) => Some(task_after(t, p)),
                None => None,
            };
            match p {
                ProgressEventView::Log(m) => UiView { logs: ui::logged(s.logs, m), ..s },
                ProgressEventView::Done => UiView { task, busy: false, ..s },
                _ => UiView { task, ..s },
            }
        },
        UiEventView::TaskDone(r) => UiView {
            logs: ui::logged(
                s.logs,
                match r {
                    Ok(m) => m,
                    Err(e) => "failed: "@ + ui::friendly(e),
                },
            ),
            task: match s.task {
                Some(t) => Some(TaskView { finished: Some(r), ..t }),
                None => None,
            },
            busy: false,
            ..s
        },
    }
}

fn status_text(s: &Result<GameStatus, String>) -> (r: String)
    ensures
        r@ == status_line(
            match *s {
                Ok(g) => Ok(g.deep_view()),
                Err(e) => Err(e@),
            },
        ),
{
    match s {
        Ok(g) => {
            let local = match &g.local_version {
                Some(v) => v.as_str(),
                None => "not installed",
            };
            let news = if g.update_available {
                "update available"
            } else {
                "up to date"
            };
            let server = g.server.to_string();
            "status: ".to_owned().concat(ui::pretty_game(g.game)).concat(" (").concat(
                server.as_str(),
            ).concat(") — local ").concat(local).concat(", remote ").concat(
                g.remote_version.as_str(),
            ).concat(" · ").concat(news)
        },
        Err(e) => {
            let said = ui::friendly_error(e.as_str());
            "status error: ".to_owned().concat(said.as_str())
        },
    }
}

proof fn lemma_first_named(files: Seq<FileStateView>, name: Seq<char>, i: int, k: int)
    requires
        0 <= i <= k <= files.len(),
        forall|j: int| i <= j < k ==> (#[trigger] files[j]).name != name,
    ensures
        first_named(files, name, i) == first_named(files, name, k),
    decreases k - i,
{
    if i < k {
        lemma_first_named(files, name, i + 1, k);
    }
}

fn set_progress(files: &mut Vec<FileState>, file: FileState)
    ensures
        final(files).deep_view() == with_progress(old(files).deep_view(), file.deep_view()),
{
    let ghost all = files.deep_view();
    let ghost said = file.deep_view();
    let n: usize = files.len();
    let mut i: usize = 0;
    while i < n && files[i].name != file.name
        invariant
            i <= n,
            n == files@.len(),
            all == files.deep_view(),
            forall|j: int| 0 <= j < i ==> (#[trigger] all[j]).name != file.name@,
        decreases n - i,
    {
        assert(all[i as int] == files@[i as int].deep_view());
        i = i + 1;
    }
    proof {
        lemma_first_named(all, said.name, 0, i as int);
        if i < n {
            assert(all[i as int] == files@[i as int].deep_view());
        }
    }
    if i < n {
        files.set(i, file);
        assert(files.deep_view() =~= all.update(i as int, said));
    } else {
        files.push(file);
        assert(files.deep_view() =~= all.push(said));
    }
}

fn drop_named(files: Vec<FileState>, name: &str) -> (r: Vec<FileState>)
    ensures
        r.deep_view() == without(files.deep_view(), name@),
{
    let ghost all = files.deep_view();
    let mut r: Vec<FileState> = Vec::new();
    let mut i: usize = 0;
    assert(r.deep_view() =~= without(all.take(0), name@));
    while i < files.len()
        invariant
            i <= files@.len(),
            all == files.deep_view(),
            r.deep_view() == without(all.take(i as int), name@),
        decreases files@.len() - i,
    {
        proof {
            assert(all.take(i + 1).drop_last() =~= all.take(i as int));
            assert(all.take(i + 1).last() == files@[i as int].deep_view());
        }
        let ghost before = r.deep_view();
        let f = &files[i];
        if !text::same_text(f.name.as_str(), name) {
            r.push(FileState { name: f.name.clone(), done: f.done, total: f.total });
            assert(r.deep_view() =~= before.push(f.deep_view()));
        }
        i = i + 1;
    }
    assert(all.take(all.len() as int) =~= all);
    r
}

/// What a task's progress does to the task.
pub fn advance_task(task: TaskUi, p: &ProgressEvent) -> (r: TaskUi)
    ensures
        r.deep_view() == task_after(task.deep_view(), p.deep_view()),
{
    let mut t = task;
    match p {
        ProgressEvent::Log(_) => {},
        ProgressEvent::SetTotal { bytes } => {
            t.total_bytes = *bytes;
            t.files = Vec::new();
            assert(t.files.deep_view() =~= Seq::empty());
        },
        ProgressEvent::SetQueued { count } => {
            t.queued = *count;
        },
        ProgressEvent::GroupStart { .. } => {
            if t.queued < usize::MAX {
                t.queued = t.queued + 1;
            }
        },
        ProgressEvent::FileProgress { name, bytes, total } => {
            let mut files = t.files;
            set_progress(
                &mut files,
                FileState { name: name.clone(), done: *bytes, total: *total },
            );
            t.files = files;
        },
        ProgressEvent::GroupDone { name, bytes } => {
            t.files = drop_named(t.files, name.as_str());
            if t.done < usize::MAX {
                t.done = t.done + 1;
            }
            t.done_bytes = if *bytes <= u64::MAX - t.done_bytes {
                t.done_bytes + *bytes
            } else {
                u64::MAX
            };
            if t.queued > 0 {
                t.queued = t.queued - 1;
            }
        },
        ProgressEvent::Done => {
            t.finished = Some(Ok("download complete — press 'a' to apply".to_owned()));
        },
    }
    t
}

impl UiState {
    fn on_progress(&mut self, p: ProgressEvent)
        ensures
            final(self).deep_view() == on_event(
                old(self).deep_view(),
                UiEventView::Progress(p.deep_view()),
            ),
    {
        let is_done = matches!(p, ProgressEvent::Done);
        if let ProgressEvent::Log(m) = p {
            ui::push_log(self, m);
            return;
        }
        if let Some(t) = self.task.take() {
            self.task = Some(advance_task(t, &p));
        }
        if is_done {
            self.busy = false;
        }
    }

    /// What a message does.
    pub fn handle_event(&mut self, event: UiEvent)
        ensures
            final(self).deep_view() == on_event(old(self).deep_view(), event.deep_view()),
    {
        match event {
            UiEvent::Status(idx, s) => {
                let line = status_text(&s);
                let ghost before = self.statuses@;
                ui::push_log(self, line);
                assert(ui::slots(self.statuses@) == ui::slots(before));
                assert(self.statuses@.len() == ui::slots(self.statuses@).len());
                if idx < self.statuses.len() {
                    let ghost now = self.statuses@;
                    self.statuses.set(idx, Some(s));
                    assert(ui::slots(self.statuses@) =~= ui::slots(now).update(
                        idx as int,
                        ui::slot(Some(s)),
                    ));
                }
            },
            UiEvent::Progress(p) => self.on_progress(p),
            UiEvent::TaskDone(r) => {
                let line = match &r {
                    Ok(m) => m.clone(),
                    Err(e) => {
                        let said = ui::friendly_error(e.as_str());
                        "failed: ".to_owned().concat(said.as_str())
                    },
                };
                ui::push_log(self, line);
                if let Some(t) = self.task.take() {
                    let mut t = t;
                    t.finished = Some(r);
                    self.task = Some(t);
                }
                self.busy = false;
            },
        }
    }
}

}
