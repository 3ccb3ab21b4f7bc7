//! Downloads: their reports, their ranges and how they are judged.

use kuro::digest::md5_bytes;
use kuro::download::{
    check_chunk, chunks_end, download_chunked, download_single, effective_chunks, needs_hash,
    range_header, verify_file, SYNTH_CHUNK_SIZE,
};
use kuro::error::Error;
use kuro::manifest::{file_matches, is_krpdiff, match_needs_hash, FileProbe};
use kuro::progress::ProgressEvent;
use kuro::types::ChunkInfo;

fn bytes_of(e: Option<ProgressEvent>) -> Option<(u64, u64)> {
    match e {
        Some(ProgressEvent::FileProgress { bytes, total, .. }) => Some((bytes, total)),
        _ => None,
    }
}

#[test]
fn a_stream_reports_every_mebibyte_and_at_its_end() {
    let (mut run, first) = download_single("f", Some(3_000_000), Some(5));
    assert_eq!(bytes_of(Some(first)), Some((0, 3_000_000)));
    assert_eq!(bytes_of(run.on_bytes(1_000_000)), None);
    assert_eq!(bytes_of(run.on_bytes(48_575)), None);
    assert_eq!(bytes_of(run.on_bytes(1)), Some((1_048_576, 3_000_000)));
    assert_eq!(bytes_of(run.on_bytes(1_000_000)), None);
    assert_eq!(bytes_of(run.on_bytes(951_424)), Some((3_000_000, 3_000_000)));
}

#[test]
fn a_stream_of_unknown_size_reports_each_piece() {
    let (mut run, first) = download_single("f", None, None);
    assert_eq!(bytes_of(Some(first)), Some((0, 0)));
    assert_eq!(bytes_of(run.on_bytes(1)), Some((1, 0)));
    let (run, _) = download_single("f", None, Some(9));
    assert_eq!(run.total, 9);
}

#[test]
fn a_file_is_judged_by_size_and_digest() {
    let md5 = |d: &[u8]| Some(md5_bytes(d));
    assert!(verify_file("p", Some(2), &md5(b"ab"), 2, &md5(b"ab")).is_ok());
    assert!(verify_file("p", None, &None, 7, &None).is_ok());
    assert!(verify_file("p", Some(2), &Some(String::new()), 2, &None).is_ok());
    match verify_file("p", Some(3), &md5(b"ab"), 2, &None) {
        Err(Error::ChecksumMismatch { path, expected, actual }) => {
            assert_eq!((path.as_str(), expected.as_str(), actual.as_str()), ("p", "3", "2"));
        }
        _ => panic!("a wrong size passed"),
    }
    match verify_file("p", Some(2), &md5(b"ab"), 2, &md5(b"ba")) {
        Err(Error::ChecksumMismatch { expected, actual, .. }) => {
            assert_eq!(expected, md5_bytes(b"ab"));
            assert_eq!(actual, md5_bytes(b"ba"));
        }
        _ => panic!("a wrong digest passed"),
    }
    assert!(needs_hash(Some(2), &md5(b"ab"), 2));
    assert!(needs_hash(None, &md5(b"ab"), 2));
    assert!(!needs_hash(Some(3), &md5(b"ab"), 2));
    assert!(!needs_hash(Some(2), &Some(String::new()), 2));
}

fn chunk(start: u64, end: u64, md5: &str) -> ChunkInfo {
    ChunkInfo { start, end, md5: md5.to_string() }
}

#[test]
fn ranges_are_asked_for_and_judged() {
    assert_eq!(range_header(&chunk(0, 4194303, "")), "bytes=0-4194303");
    assert!(check_chunk("u", &chunk(0, 1, ""), b"xy").is_ok());
    assert!(check_chunk("u", &chunk(0, 1, &md5_bytes(b"xy")), b"xy").is_ok());
    match check_chunk("http://u", &chunk(5, 6, "abc"), b"xy") {
        Err(Error::ChecksumMismatch { path, expected, actual }) => {
            assert_eq!(path, "http://u [5-6]");
            assert_eq!(expected, "abc");
            assert_eq!(actual, md5_bytes(b"xy"));
        }
        _ => panic!("a wrong range passed"),
    }
}

#[test]
fn a_file_in_ranges_is_as_long_as_the_last_one_says() {
    let chunks = vec![chunk(10, 19, ""), chunk(0, 9, "")];
    assert_eq!(chunks_end(&chunks), 19);
    let (mut run, first) = download_chunked("f", &chunks).unwrap();
    assert_eq!(run.total, 20);
    assert_eq!(bytes_of(Some(first)), Some((0, 20)));
    assert_eq!(bytes_of(Some(run.on_range(Ok(7)))), Some((7, 20)));
    assert_eq!(bytes_of(Some(run.on_range(Ok(13)))), Some((20, 20)));
    assert_eq!(run.waiting, 0);
    assert_eq!(run.finish().unwrap(), 20);
    match download_chunked("f", &vec![]) {
        Err(e) => assert_eq!(e.to_string(), "missing required field `chunkInfos`"),
        Ok(_) => panic!("no ranges"),
    }
}

#[test]
fn one_bad_range_fails_the_whole_download() {
    let chunks = vec![chunk(0, 9, ""), chunk(10, 19, ""), chunk(20, 29, "")];
    let (mut run, _) = download_chunked("f", &chunks).unwrap();
    let _ = run.on_range(Ok(10));
    assert_eq!(bytes_of(Some(run.on_range(Err(Error::NoCdnNode)))), Some((10, 30)));
    let _ = run.on_range(Err(Error::Io("later".to_string())));
    assert!(matches!(run.finish(), Err(Error::NoCdnNode)));
}

#[test]
fn large_files_without_ranges_get_some() {
    assert!(effective_chunks(SYNTH_CHUNK_SIZE, &vec![]).is_empty());
    let made = effective_chunks(2 * SYNTH_CHUNK_SIZE + 1, &vec![]);
    let spans: Vec<(u64, u64)> = made.iter().map(|c| (c.start, c.end)).collect();
    assert_eq!(spans, vec![(0, 4194303), (4194304, 8388607), (8388608, 8388608)]);
    assert!(made.iter().all(|c| c.md5.is_empty()));
    let own = vec![chunk(0, 3, "m")];
    assert_eq!(effective_chunks(100_000_000, &own).len(), 1);
}

#[test]
fn files_match_by_size_then_digest() {
    let found = |size: Option<u64>, md5: Option<&str>| FileProbe {
        size,
        md5: md5.map(|m| m.to_string()),
    };
    assert!(file_matches(&found(Some(3), Some("m")), 3, "m"));
    assert!(file_matches(&found(Some(3), None), 3, ""));
    assert!(!file_matches(&found(Some(3), Some("n")), 3, "m"));
    assert!(!file_matches(&found(Some(3), None), 3, "m"));
    assert!(!file_matches(&found(Some(4), Some("m")), 3, "m"));
    assert!(!file_matches(&found(None, None), 0, ""));
    assert!(match_needs_hash(Some(3), 3, "m"));
    assert!(!match_needs_hash(Some(3), 3, ""));
    assert!(!match_needs_hash(None, 3, "m"));
    assert!(is_krpdiff("a/B.KrPdIfF"));
    assert!(!is_krpdiff("a.krpdiff.tmp"));
}
