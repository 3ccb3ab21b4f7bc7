//! What a long operation tells of its course.

use vstd::prelude::*;

verus! {

/// One message of a long operation.
#[derive(Debug)]
pub enum ProgressEvent {
    Log(String),
    GroupStart { name: String },
    /// How many bytes of one file have come so far.
    FileProgress { name: String, bytes: u64, total: u64 },
    GroupDone { name: String, bytes: u64 },
    /// How many bytes the operation will move.
    SetTotal { bytes: u64 },
    /// How many files wait for a download.
    SetQueued { count: usize },
    Done,
}

/// The model of [`ProgressEvent`].
pub enum ProgressEventView {
    Log(Seq<char>),
    GroupStart { name: Seq<char> },
    FileProgress { name: Seq<char>, bytes: u64, total: u64 },
    GroupDone { name: Seq<char>, bytes: u64 },
    SetTotal { bytes: u64 },
    SetQueued { count: usize },
    Done,
}

impl DeepView for ProgressEvent {
    type V = ProgressEventView;

    open spec fn deep_view(&self) -> ProgressEventView {
        match self {
            ProgressEvent::Log(s) => ProgressEventView::Log(s@),
            ProgressEvent::GroupStart { name } => ProgressEventView::GroupStart { name: name@ },
            ProgressEvent::FileProgress { name, bytes, total } => ProgressEventView::FileProgress {
                name: name@,
                bytes: *bytes,
                total: *total,
            },
            ProgressEvent::GroupDone { name, bytes } => ProgressEventView::GroupDone {
                name: name@,
                bytes: *bytes,
            },
            ProgressEvent::SetTotal { bytes } => ProgressEventView::SetTotal { bytes: *bytes },
            ProgressEvent::SetQueued { count } => ProgressEventView::SetQueued { count: *count },
            ProgressEvent::Done => ProgressEventView::Done,
        }
    }
}

}
