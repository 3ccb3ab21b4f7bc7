//! Downloads: the progress they report, the ranges they ask for and the checks they must pass.

use vstd::prelude::*;

use crate::digest;
use crate::error::{Error, ErrorView};
use crate::progress::{ProgressEvent, ProgressEventView};
use crate::text;
use crate::types::{ChunkInfo, ChunkInfoView};

verus! {

/// A download reports its progress when at least this many bytes have come since the last report.
pub const REPORT_STEP: u64 = 1048576;

/// The size of the ranges that a file without ranges of its own is fetched in.
pub const SYNTH_CHUNK_SIZE: u64 = 4194304;

/// How many ranges of one file are fetched at a time.
pub const CHUNK_CONCURRENCY: usize = 32;

/// A download in one stream.
#[derive(Debug)]
pub struct SingleDownload {
    pub name: String,
    /// How many bytes will come, 0 where that is unknown.
    pub total: u64,
    /// How many bytes have come.
    pub done: u64,
    /// How many bytes had come at the last report.
    pub last_report: u64,
}

/// How many bytes will come: the expected size, else what the server says.
pub open spec fn announced(expected: Option<u64>, content_length: Option<u64>) -> u64 {
    match (expected, content_length) {
        (Some(n), _) => n,
        (None, Some(n)) => n,
        (None, None) => 0,
    }
}

/// The report that `bytes` of `total` have come of the file `name`.
pub open spec fn file_report(name: Seq<char>, bytes: u64, total: u64) -> ProgressEventView {
    ProgressEventView::FileProgress { name, bytes, total }
}

fn report(name: &str, bytes: u64, total: u64) -> (r: ProgressEvent)
    ensures
        r.deep_view() == file_report(name@, bytes, total),
{
    ProgressEvent::FileProgress { name: name.to_owned(), bytes, total }
}

/// Starts a download in one stream: its state and its first report.
pub fn download_single(name: &str, expected_size: Option<u64>, content_length: Option<u64>) -> (r: (
    SingleDownload,
    ProgressEvent,
))
    ensures
        r.0.name@ == name@,
        r.0.total == announced(expected_size, content_length),
        r.0.done == 0,
        r.0.last_report == 0,
        r.1.deep_view() == file_report(name@, 0, announced(expected_size, content_length)),
        expected_size is Some ==> r.0.total == expected_size->0,
        expected_size is None && content_length is Some ==> r.0.total == content_length->0,
        expected_size is None && content_length is None ==> r.0.total == 0,
        r.1.deep_view() == (ProgressEventView::FileProgress {
            name: name@,
            bytes: 0,
            total: r.0.total,
        }),
{
    let total: u64 = match expected_size {
        Some(n) => n,
        None => match content_length {
            Some(n) => n,
            None => 0,
        },
    };
    (
        SingleDownload { name: name.to_owned(), total, done: 0, last_report: 0 },
        report(name, 0, total),
    )
}

impl SingleDownload {
    /// Reports never run ahead of the bytes.
    pub open spec fn wf(&self) -> bool {
        self.last_report <= self.done
    }

    /// `len` more bytes have come; the report that is due, if any. The reports stay less than
    /// [`REPORT_STEP`] bytes behind, and the end of the file is always reported.
    pub fn on_bytes(&mut self, len: u64) -> (r: Option<ProgressEvent>)
        requires
            old(self).wf(),
            old(self).done + len <= u64::MAX,
        ensures
            final(self).wf(),
            final(self).name == old(self).name,
            final(self).total == old(self).total,
            final(self).done == old(self).done + len,
            ({
                let done = final(self).done;
                let due = done - old(self).last_report >= REPORT_STEP || done >= old(self).total;
                if due {
                    &&& final(self).last_report == done
                    &&& r.deep_view() == Some(file_report(old(self).name@, done, old(self).total))
                } else {
                    final(self).last_report == old(self).last_report && r is None
                }
            }),
            final(self).done - final(self).last_report < REPORT_STEP,
            r is Some <==> final(self).done - old(self).last_report >= 1048576 || final(self).done
                >= old(self).total,
            r is Some ==> r->0.deep_view() == (ProgressEventView::FileProgress {
                name: old(self).name@,
                bytes: final(self).done,
                total: old(self).total,
            }),
            final(self).done >= final(self).total ==> final(self).last_report == final(self).done,
    {
        self.done = self.done + len;
        if self.done - self.last_report >= REPORT_STEP || self.done >= self.total {
            self.last_report = self.done;
            Some(report(self.name.as_str(), self.done, self.total))
        } else {
            None
        }
    }
}

/// Whether a finished file must be hashed: its size is right and a digest is known.
pub open spec fn must_hash(
    expected_size: Option<u64>,
    expected_md5: Option<Seq<char>>,
    actual_size: u64,
) -> bool {
    &&& expected_size is Some ==> expected_size->0 == actual_size
    &&& expected_md5 is Some
    &&& expected_md5->0.len() > 0
}

/// What is wrong with a finished file, if anything: the size is checked first, then the digest,
/// each as far as it is known.
pub open spec fn flaw(
    path: Seq<char>,
    expected_size: Option<u64>,
    expected_md5: Option<Seq<char>>,
    actual_size: u64,
    actual_md5: Seq<char>,
) -> Option<ErrorView> {
    if expected_size is Some && expected_size->0 != actual_size {
        Some(
            ErrorView::ChecksumMismatch {
                path,
                expected: text::decimal(expected_size->0 as nat),
                actual: text::decimal(actual_size as nat),
            },
        )
    } else if expected_md5 is Some && expected_md5->0.len() > 0 && expected_md5->0 != actual_md5 {
        Some(
            ErrorView::ChecksumMismatch { path, expected: expected_md5->0, actual: actual_md5 },
        )
    } else {
        None
    }
}

/// Whether a finished file must be hashed before it can be judged.
pub fn needs_hash(expected_size: Option<u64>, expected_md5: &Option<String>, actual_size: u64) -> (r:
    bool)
    ensures
        r == must_hash(expected_size, expected_md5.deep_view(), actual_size),
        r <==> (expected_size is None || expected_size->0 == actual_size) && expected_md5 is Some
            && expected_md5->0@.len() > 0,
{
    let size_ok = match expected_size {
        Some(n) => n == actual_size,
        None => true,
    };
    match expected_md5 {
        Some(m) => size_ok && !m.as_str().is_empty(),
        None => false,
    }
}

/// Judges a finished file by its size and, where [`needs_hash`] asks for it, its digest.
pub fn verify_file(
    path: &str,
    expected_size: Option<u64>,
    expected_md5: &Option<String>,
    actual_size: u64,
    actual_md5: &Option<String>,
) -> (r: Result<(), Error>)
    requires
        must_hash(expected_size, expected_md5.deep_view(), actual_size) ==> actual_md5 is Some,
    ensures
        ({
            let md5 = match actual_md5 {
                Some(m) => m@,
                None => Seq::<char>::empty(),
            };
            let bad = flaw(path@, expected_size, expected_md5.deep_view(), actual_size, md5);
            match r {
                Ok(_) => bad is None,
                Err(e) => bad == Some(e.deep_view()),
            }
        }),
        r is Ok <==> (expected_size is None || expected_size->0 == actual_size) && (expected_md5
            is None || expected_md5->0@.len() == 0 || (actual_md5 is Some && actual_md5->0@
            == expected_md5->0@)),
{
    if let Some(size) = expected_size {
        if size != actual_size {
            return Err(
                Error::ChecksumMismatch {
                    path: path.to_owned(),
                    expected: text::number(size),
                    actual: text::number(actual_size),
                },
            );
        }
    }
    if let Some(want) = expected_md5 {
        if let Some(got) = actual_md5 {
            if !want.as_str().is_empty() && *want != *got {
                return Err(
                    Error::ChecksumMismatch {
                        path: path.to_owned(),
                        expected: want.clone(),
                        actual: got.clone(),
                    },
                );
            }
        }
    }
    Ok(())
}

/// The largest position that a range of `chunks` ends at.
pub open spec fn last_end(chunks: Seq<ChunkInfo>) -> u64
    decreases chunks.len(),
{
    if chunks.len() == 0 {
        0
    } else if chunks.last().end >= last_end(chunks.drop_last()) {
        chunks.last().end
    } else {
        last_end(chunks.drop_last())
    }
}

/// No range ends behind [`last_end`], and one ends there.
pub proof fn law_last_end_is_the_largest(chunks: Seq<ChunkInfo>)
    ensures
        forall|i: int| 0 <= i < chunks.len() ==> (#[trigger] chunks[i]).end <= last_end(chunks),
        chunks.len() > 0 ==> exists|i: int|
            0 <= i < chunks.len() && (#[trigger] chunks[i]).end == last_end(chunks),
    decreases chunks.len(),
{
    if chunks.len() > 0 {
        let rest = chunks.drop_last();
        law_last_end_is_the_largest(rest);
        assert forall|i: int| 0 <= i < chunks.len() implies (#[trigger] chunks[i]).end <= last_end(
            chunks,
        ) by {
            if i < rest.len() {
                assert(rest[i] == chunks[i]);
            }
        }
        if chunks.last().end >= last_end(rest) {
            assert(chunks[chunks.len() - 1].end == last_end(chunks));
        } else {
            let i = choose|i: int| 0 <= i < rest.len() && (#[trigger] rest[i]).end == last_end(rest);
            assert(chunks[i].end == last_end(chunks));
        }
    }
}

/// A download in ranges.
#[derive(Debug)]
pub struct ChunkedDownload {
    pub name: String,
    /// The size of the file.
    pub total: u64,
    /// How many bytes have come.
    pub done: u64,
    /// How many ranges are not dealt with yet.
    pub waiting: usize,
    /// Why the first range that failed did.
    pub failure: Option<Error>,
}

/// What came of a range, by its model: how many bytes, or why it failed.
pub open spec fn range_result(r: Result<u64, Error>) -> Result<u64, ErrorView> {
    match r {
        Ok(n) => Ok(n),
        Err(e) => Err(e.deep_view()),
    }
}

/// The bytes that have come and the first failure after one more range; the bytes are counted as far
/// as numbers go.
pub open spec fn after_range(
    so_far: (u64, Option<ErrorView>),
    range: Result<u64, ErrorView>,
) -> (u64, Option<ErrorView>) {
    match range {
        Ok(n) => (
            if so_far.0 + n <= u64::MAX {
                (so_far.0 + n) as u64
            } else {
                u64::MAX
            },
            so_far.1,
        ),
        Err(e) => (
            so_far.0,
            match so_far.1 {
                Some(first) => Some(first),
                None => Some(e),
            },
        ),
    }
}

/// The bytes that have come and the first failure after some ranges.
pub open spec fn after_ranges(ranges: Seq<Result<u64, ErrorView>>) -> (u64, Option<ErrorView>)
    decreases ranges.len(),
{
    if ranges.len() == 0 {
        (0, None)
    } else {
        after_range(after_ranges(ranges.drop_last()), ranges.last())
    }
}

/// A download in ranges fails exactly where one of its ranges fails.
pub proof fn law_failed_range_fails_download(ranges: Seq<Result<u64, ErrorView>>)
    ensures
        after_ranges(ranges).1 is Some <==> exists|i: int|
            0 <= i < ranges.len() && #[trigger] ranges[i] is Err,
    decreases ranges.len(),
{
    if ranges.len() > 0 {
        let rest = ranges.drop_last();
        law_failed_range_fails_download(rest);
        if after_ranges(rest).1 is Some {
            let i = choose|i: int| 0 <= i < rest.len() && #[trigger] rest[i] is Err;
            assert(ranges[i] is Err);
        } else if ranges.last() is Err {
            assert(ranges[ranges.len() - 1] is Err);
        } else {
            assert forall|i: int| 0 <= i < ranges.len() implies !(#[trigger] ranges[i] is Err) by {
                if i < rest.len() {
                    assert(!(rest[i] is Err));
                }
            }
        }
    }
}

/// Starts a download in ranges: its state and its first report. The file is as long as its last
/// range says.
pub fn download_chunked(name: &str, chunks: &Vec<ChunkInfo>) -> (r: Result<
    (ChunkedDownload, ProgressEvent),
    Error,
>)
    requires
        last_end(chunks@) < u64::MAX,
    ensures
        match r {
            Ok((run, event)) => {
                &&& chunks@.len() > 0
                &&& run.name@ == name@
                &&& run.total == last_end(chunks@) + 1
                &&& run.waiting == chunks@.len()
                &&& run.so_far() == after_ranges(Seq::empty())
                &&& event.deep_view() == file_report(name@, 0, run.total)
                &&& event.deep_view() == (ProgressEventView::FileProgress {
                    name: name@,
                    bytes: 0,
                    total: run.total,
                })
                &&& run.done == 0
                &&& run.failure is None
                &&& forall|i: int| 0 <= i < chunks@.len() ==> (#[trigger] chunks@[i]).end < run.total
                &&& exists|i: int|
                    0 <= i < chunks@.len() && (#[trigger] chunks@[i]).end + 1 == run.total
            },
            Err(e) => chunks@.len() == 0 && e.deep_view() == ErrorView::MissingField(
                "chunkInfos"@,
            ),
        },
{
    if chunks.len() == 0 {
        return Err(Error::MissingField("chunkInfos"));
    }
    let total: u64 = chunks_end(chunks) + 1;
    Ok(
        (
            ChunkedDownload {
                name: name.to_owned(),
                total,
                done: 0,
                waiting: chunks.len(),
                failure: None,
            },
            report(name, 0, total),
        ),
    )
}

/// The largest position that a range of `chunks` ends at.
pub fn chunks_end(chunks: &Vec<ChunkInfo>) -> (r: u64)
    ensures
        r == last_end(chunks@),
        forall|i: int| 0 <= i < chunks@.len() ==> (#[trigger] chunks@[i]).end <= r,
        chunks@.len() > 0 ==> exists|i: int|
            0 <= i < chunks@.len() && (#[trigger] chunks@[i]).end == r,
{
    let mut end: u64 = 0;
    let mut i: usize = 0;
    while i < chunks.len()
        invariant
            i <= chunks@.len(),
            end == last_end(chunks@.take(i as int)),
        decreases chunks@.len() - i,
    {
        assert(chunks@.take(i + 1).drop_last() =~= chunks@.take(i as int));
        if chunks[i].end >= end {
            end = chunks[i].end;
        }
        i = i + 1;
    }
    assert(chunks@.take(i as int) =~= chunks@);
    proof {
        law_last_end_is_the_largest(chunks@);
    }
    end
}

impl ChunkedDownload {
    /// The bytes that have come and the first failure.
    pub open spec fn so_far(&self) -> (u64, Option<ErrorView>) {
        (self.done, self.failure.deep_view())
    }

    /// One more range is dealt with: so many bytes came, or it failed. What is reported then.
    pub fn on_range(&mut self, range: Result<u64, Error>) -> (r: ProgressEvent)
        requires
            old(self).waiting > 0,
        ensures
            final(self).waiting == old(self).waiting - 1,
            final(self).name == old(self).name,
            final(self).total == old(self).total,
            final(self).so_far() == after_range(old(self).so_far(), range_result(range)),
            range is Ok && old(self).done + range->Ok_0 <= u64::MAX ==> final(self).done == old(
                self,
            ).done + range->Ok_0,
            range is Ok && old(self).done + range->Ok_0 > u64::MAX ==> final(self).done == u64::MAX,
            range is Err ==> final(self).done == old(self).done,
            range is Ok || old(self).failure is Some ==> final(self).failure == old(self).failure,
            range is Err && old(self).failure is None ==> final(self).failure == Some(range->Err_0),
            r.deep_view() == (ProgressEventView::FileProgress {
                name: old(self).name@,
                bytes: final(self).done,
                total: old(self).total,
            }),
            r.deep_view() == file_report(old(self).name@, final(self).done, old(self).total),
    {
        self.waiting = self.waiting - 1;
        match range {
            Ok(n) => {
                self.done = if n <= u64::MAX - self.done {
                    self.done + n
                } else {
                    u64::MAX
                };
            },
            Err(e) => {
                if self.failure.is_none() {
                    self.failure = Some(e);
                }
            },
        }
        report(self.name.as_str(), self.done, self.total)
    }

    /// The size that the file must have, once every range is dealt with; or why the download
    /// failed.
    pub fn finish(self) -> (r: Result<u64, Error>)
        requires
            self.waiting == 0,
        ensures
            match r {
                Ok(size) => self.failure is None && size == self.total,
                Err(e) => self.failure is Some && e == self.failure->0,
            },
    {
        match self.failure {
            None => Ok(self.total),
            Some(e) => Err(e),
        }
    }
}

/// The value of the `Range` header that asks for a range.
pub fn range_header(chunk: &ChunkInfo) -> (r: String)
    ensures
        r@ == "bytes="@ + text::decimal(chunk.start as nat) + "-"@ + text::decimal(
            chunk.end as nat,
        ),
{
    let start = text::number(chunk.start);
    let end = text::number(chunk.end);
    "bytes=".to_owned().concat(start.as_str()).concat("-").concat(end.as_str())
}

/// How a range of a file is named in a failure.
pub open spec fn range_name(url: Seq<char>, chunk: ChunkInfoView) -> Seq<char> {
    url + " ["@ + text::decimal(chunk.start as nat) + "-"@ + text::decimal(chunk.end as nat) + "]"@
}

/// What is wrong with the bytes of a range, given their digest.
pub open spec fn chunk_flaw(url: Seq<char>, chunk: ChunkInfoView, md5: Seq<char>) -> Option<
    ErrorView,
> {
    if chunk.md5.len() > 0 && chunk.md5 != md5 {
        Some(
            ErrorView::ChecksumMismatch {
                path: range_name(url, chunk),
                expected: chunk.md5,
                actual: md5,
            },
        )
    } else {
        None
    }
}

/// Judges the bytes of a range by their digest.
pub fn judge_chunk(url: &str, chunk: &ChunkInfo, md5: String) -> (r: Result<(), Error>)
    ensures
        match r {
            Ok(_) => chunk_flaw(url@, chunk.deep_view(), md5@) is None,
            Err(e) => chunk_flaw(url@, chunk.deep_view(), md5@) == Some(e.deep_view()),
        },
        r is Ok <==> chunk.md5@.len() == 0 || chunk.md5@ == md5@,
        r is Err ==> r->Err_0.deep_view() == (ErrorView::ChecksumMismatch {
            path: url@ + " ["@ + text::decimal(chunk.start as nat) + "-"@ + text::decimal(
                chunk.end as nat,
            ) + "]"@,
            expected: chunk.md5@,
            actual: md5@,
        }),
{
    if !chunk.md5.as_str().is_empty() && chunk.md5 != md5 {
        let start = text::number(chunk.start);
        let end = text::number(chunk.end);
        let path = url.to_owned().concat(" [").concat(start.as_str()).concat("-").concat(
            end.as_str(),
        ).concat("]");
        Err(Error::ChecksumMismatch { path, expected: chunk.md5.clone(), actual: md5 })
    } else {
        Ok(())
    }
}

/// Judges the bytes that came for a range. A range that fails fails the whole download.
pub fn check_chunk(url: &str, chunk: &ChunkInfo, bytes: &[u8]) -> (r: Result<(), Error>)
    ensures
        match r {
            Ok(_) => chunk_flaw(url@, chunk.deep_view(), digest::md5_hex(bytes@)) is None,
            Err(e) => chunk_flaw(url@, chunk.deep_view(), digest::md5_hex(bytes@)) == Some(
                e.deep_view(),
            ),
        },
        r is Ok <==> chunk.md5@.len() == 0 || chunk.md5@ == digest::md5_hex(bytes@),
{
    judge_chunk(url, chunk, digest::md5_bytes(bytes))
}

/// A file after `bytes` are written at `at`; a gap before them reads as zeros.
pub open spec fn written(file: Seq<u8>, at: nat, bytes: Seq<u8>) -> Seq<u8> {
    let len = if file.len() >= at + bytes.len() {
        file.len()
    } else {
        at + bytes.len()
    };
    Seq::new(
        len,
        |i: int|
            if at <= i < at + bytes.len() {
                bytes[i - at]
            } else if i < file.len() {
                file[i]
            } else {
                0
            },
    )
}

/// A file after the bytes of each range are written at its start, in the order of the list.
pub open spec fn assembled(
    file: Seq<u8>,
    chunks: Seq<ChunkInfoView>,
    blocks: Seq<Seq<u8>>,
) -> Seq<u8>
    decreases chunks.len(),
{
    if chunks.len() == 0 {
        file
    } else {
        written(
            assembled(file, chunks.drop_last(), blocks.drop_last()),
            chunks.last().start as nat,
            blocks.last(),
        )
    }
}

/// Whether the ranges reach every byte of a file of `size` bytes and none behind it.
pub open spec fn covers(chunks: Seq<ChunkInfoView>, size: int) -> bool {
    &&& forall|i: int| 0 <= i < chunks.len() ==> (#[trigger] chunks[i]).start <= chunks[i].end < size
    &&& forall|at: int| 0 <= at < size ==> #[trigger] reached(chunks, at)
}

/// Whether some range holds the byte `at`.
pub open spec fn reached(chunks: Seq<ChunkInfoView>, at: int) -> bool {
    exists|i: int| reaches(chunks, i, at)
}

/// Whether the range `i` holds the byte `at`.
pub open spec fn reaches(chunks: Seq<ChunkInfoView>, i: int, at: int) -> bool {
    0 <= i < chunks.len() && chunks[i].start <= at <= chunks[i].end
}

/// Ranges that cover a file put it together whatever their order: where each of them brought its
/// part of `content`, the preallocated file becomes `content`.
pub proof fn law_chunks_assemble(
    file: Seq<u8>,
    chunks: Seq<ChunkInfoView>,
    blocks: Seq<Seq<u8>>,
    content: Seq<u8>,
)
    requires
        file.len() == content.len(),
        blocks.len() == chunks.len(),
        covers(chunks, content.len() as int),
        forall|i: int|
            0 <= i < chunks.len() ==> #[trigger] blocks[i] == content.subrange(
                chunks[i].start as int,
                chunks[i].end + 1,
            ),
    ensures
        assembled(file, chunks, blocks) == content,
{
    lemma_assembled(file, chunks, blocks, content);
    let out = assembled(file, chunks, blocks);
    assert forall|at: int| 0 <= at < content.len() implies out[at] == content[at] by {
        assert(reached(chunks, at));
        let i = choose|i: int| reaches(chunks, i, at);
        assert(reaches(chunks, i, at));
    }
    assert(out =~= content);
}

proof fn lemma_assembled(
    file: Seq<u8>,
    chunks: Seq<ChunkInfoView>,
    blocks: Seq<Seq<u8>>,
    content: Seq<u8>,
)
    requires
        file.len() == content.len(),
        blocks.len() == chunks.len(),
        forall|i: int|
            0 <= i < chunks.len() ==> (#[trigger] chunks[i]).start <= chunks[i].end
                < content.len(),
        forall|i: int|
            0 <= i < chunks.len() ==> #[trigger] blocks[i] == content.subrange(
                chunks[i].start as int,
                chunks[i].end + 1,
            ),
    ensures
        assembled(file, chunks, blocks).len() == content.len(),
        forall|i: int, at: int|
            #[trigger] reaches(chunks, i, at) ==> assembled(file, chunks, blocks)[at]
                == content[at],
    decreases chunks.len(),
{
    if chunks.len() > 0 {
        let c = chunks.drop_last();
        let b = blocks.drop_last();
        assert forall|i: int| 0 <= i < c.len() implies (#[trigger] c[i]).start <= c[i].end
            < content.len() by {
            assert(c[i] == chunks[i]);
        }
        assert forall|i: int| 0 <= i < c.len() implies #[trigger] b[i] == content.subrange(
            c[i].start as int,
            c[i].end + 1,
        ) by {
            assert(b[i] == blocks[i]);
        }
        lemma_assembled(file, c, b, content);
        let last = chunks[chunks.len() - 1];
        assert(blocks[blocks.len() - 1] == content.subrange(last.start as int, last.end + 1));
        let before = assembled(file, c, b);
        let out = assembled(file, chunks, blocks);
        assert forall|i: int, at: int| #[trigger] reaches(chunks, i, at) implies out[at]
            == content[at] by {
            if last.start <= at <= last.end {
            } else {
                assert(reaches(c, i, at));
                assert(out[at] == before[at]);
            }
        }
    }
}

/// How many ranges of [`SYNTH_CHUNK_SIZE`] bytes a file of `size` bytes has.
pub open spec fn synth_count(size: u64) -> nat {
    ((size + SYNTH_CHUNK_SIZE - 1) / SYNTH_CHUNK_SIZE as int) as nat
}

/// The ranges that a file of `size` bytes is cut into: all of [`SYNTH_CHUNK_SIZE`] bytes but the
/// last, which ends with the file. None has a digest.
pub open spec fn synth_chunks(size: u64) -> Seq<ChunkInfoView> {
    Seq::new(
        synth_count(size),
        |i: int|
            {
                let end = (i + 1) * SYNTH_CHUNK_SIZE - 1;
                ChunkInfoView {
                    start: (i * SYNTH_CHUNK_SIZE) as u64,
                    end: (if end < size - 1 {
                        end
                    } else {
                        size - 1
                    }) as u64,
                    md5: Seq::empty(),
                }
            },
    )
}

/// The ranges that a file is fetched in: its own; where it has none and is large, ranges of equal
/// size; where it has none and is small, none.
pub open spec fn fetch_ranges(size: u64, own: Seq<ChunkInfoView>) -> Seq<ChunkInfoView> {
    if own.len() == 0 && size > SYNTH_CHUNK_SIZE {
        synth_chunks(size)
    } else {
        own
    }
}

/// The ranges that a file is fetched in.
pub fn effective_chunks(size: u64, own: &Vec<ChunkInfo>) -> (r: Vec<ChunkInfo>)
    ensures
        r.deep_view() == fetch_ranges(size, own.deep_view()),
{
    if own.len() > 0 || size <= SYNTH_CHUNK_SIZE {
        let r = own.clone();
        assert(r.deep_view() =~= own.deep_view());
        return r;
    }
    let count: u64 = (size - 1) / SYNTH_CHUNK_SIZE + 1;
    assert(count == synth_count(size));
    let mut r: Vec<ChunkInfo> = Vec::new();
    let mut i: u64 = 0;
    let mut start: u64 = 0;
    while i < count
        invariant
            size > SYNTH_CHUNK_SIZE,
            count == synth_count(size),
            count == (size - 1) as u64 / SYNTH_CHUNK_SIZE + 1,
            i <= count,
            i < count ==> start == i * SYNTH_CHUNK_SIZE,
            r.deep_view() == synth_chunks(size).take(i as int),
        decreases count - i,
    {
        assert(start <= size - 1);
        let end: u64 = if size - start > SYNTH_CHUNK_SIZE {
            start + (SYNTH_CHUNK_SIZE - 1)
        } else {
            size - 1
        };
        let ghost before = r.deep_view();
        assert(before.len() == i);
        r.push(ChunkInfo { start, end, md5: String::new() });
        proof {
            assert((i + 1) * SYNTH_CHUNK_SIZE == start + SYNTH_CHUNK_SIZE);
            assert(r@[i as int].deep_view() =~= synth_chunks(size)[i as int]);
            assert(r.deep_view() =~= before.push(synth_chunks(size)[i as int]));
            assert(synth_chunks(size).take(i + 1) =~= before.push(synth_chunks(size)[i as int]));
        }
        i = i + 1;
        if i < count {
            start = start + SYNTH_CHUNK_SIZE;
        }
    }
    assert(synth_chunks(size).take(count as int) =~= synth_chunks(size));
    r
}

/// The ranges that a large file is cut into follow one another without a gap or an overlap, from
/// the first byte to the last, and none is longer than [`SYNTH_CHUNK_SIZE`].
pub proof fn law_synth_chunks_tile(size: u64)
    requires
        size > 0,
    ensures
        ({
            let c = synth_chunks(size);
            &&& c.len() > 0
            &&& c[0].start == 0
            &&& c[c.len() - 1].end == size - 1
            &&& forall|i: int| #![trigger c[i]]
                0 <= i < c.len() ==> c[i].start <= c[i].end && c[i].end - c[i].start
                    < SYNTH_CHUNK_SIZE
            &&& forall|i: int| #![trigger c[i]] 0 <= i < c.len() - 1 ==> c[i + 1].start == c[i].end + 1
            &&& covers(c, size as int)
        }),
{
    let c = synth_chunks(size);
    let n = synth_count(size);
    assert((n - 1) * SYNTH_CHUNK_SIZE < size <= n * SYNTH_CHUNK_SIZE);
    assert forall|at: int| 0 <= at < size implies #[trigger] reached(c, at) by {
        let i = at / SYNTH_CHUNK_SIZE as int;
        assert(i < n);
        assert(reaches(c, i, at));
    }
}

/// A download in ranges fails with the failure of the first range that failed.
pub proof fn law_first_failure_counts(ranges: Seq<Result<u64, ErrorView>>, i: int)
    requires
        0 <= i < ranges.len(),
        ranges[i] is Err,
        forall|j: int| 0 <= j < i ==> #[trigger] ranges[j] is Ok,
    ensures
        after_ranges(ranges).1 == Some(ranges[i]->Err_0),
    decreases ranges.len(),
{
    let rest = ranges.drop_last();
    if i < rest.len() {
        assert forall|j: int| 0 <= j < i implies #[trigger] rest[j] is Ok by {
            assert(ranges[j] is Ok);
        }
        law_first_failure_counts(rest, i);
    } else {
        law_failed_range_fails_download(rest);
        assert forall|j: int| 0 <= j < rest.len() implies #[trigger] rest[j] is Ok by {
            assert(ranges[j] is Ok);
        }
    }
}

/// The bytes of the ranges that came add up, as long as their number fits.
pub proof fn law_range_bytes_add_up(ranges: Seq<Result<u64, ErrorView>>, range: Result<u64, ErrorView>)
    ensures
        after_ranges(Seq::empty()) == (0u64, None::<ErrorView>),
        range is Ok && after_ranges(ranges).0 + range->Ok_0 <= u64::MAX ==> after_ranges(
            ranges.push(range),
        ).0 == after_ranges(ranges).0 + range->Ok_0,
        range is Err ==> after_ranges(ranges.push(range)).0 == after_ranges(ranges).0,
{
    assert(ranges.push(range).drop_last() =~= ranges);
}

}
