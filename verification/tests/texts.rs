//! Texts and paths, held against what the standard library does.

use std::path::Path;

use kuro::paths;
use kuro::text;

const SAMPLES: [&str; 26] = [
    "", "/", "//", "a", "a/", "a//", "/a", "a/b", "/a/b.c", "a/b.c.d", ".hidden", "a/.hidden",
    "a/.hidden.x", "..", "a/..", ".", "a/.", "a/./", "./a", "a.b/c", "name.", "ends.in/", "x..y",
    "ä/ö.ü", "...", "a/.../b",
];

#[test]
fn joining_is_that_of_std() {
    for base in SAMPLES {
        for rel in SAMPLES {
            let ours = paths::join(base, rel);
            let theirs = Path::new(base).join(rel);
            assert_eq!(ours, theirs.to_str().unwrap(), "{base} + {rel}");
        }
    }
}

#[test]
fn extensions_are_those_of_std() {
    for path in SAMPLES {
        for ext in ["tmp", "sync.tmp", ""] {
            let ours = paths::with_extension(path, ext);
            let theirs = Path::new(path).with_extension(ext);
            assert_eq!(ours, theirs.to_str().unwrap(), "{path} with {ext}");
        }
    }
    assert_eq!(paths::with_extension("/s/group_1.krpdiff", "krpdiff.tmp"), "/s/group_1.krpdiff.tmp");
    assert_eq!(paths::with_extension("/s/a.b.pak", "tmp"), "/s/a.b.tmp");
}

#[test]
fn file_names_are_those_of_std() {
    for path in SAMPLES {
        let theirs = Path::new(path).file_name().map(|n| n.to_str().unwrap().to_string());
        assert_eq!(paths::file_name(path), theirs, "{path}");
    }
}

#[test]
fn manifest_paths_stay_inside() {
    assert_eq!(paths::join_inside("/g", "//Client/a"), "/g/Client/a");
    assert_eq!(paths::join_inside("/g/", "a"), "/g/a");
    assert_eq!(paths::join("/g", "/etc"), "/etc");
}

#[test]
fn white_space_is_that_of_std() {
    for n in 0..=0x10_FFFFu32 {
        if let Some(c) = char::from_u32(n) {
            assert_eq!(text::is_white(c), c.is_whitespace(), "{n:x}");
        }
    }
}

#[test]
fn trimming_is_that_of_std() {
    for s in ["", " ", "a", "  a b\t", "\u{3000}x\u{a0}", "//a//", "/", "a/", "\"q\"", "\"\"", " \r\n"] {
        assert_eq!(text::trim(s), s.trim());
        assert_eq!(text::trim_start_matches(s, '/'), s.trim_start_matches('/'));
        assert_eq!(text::trim_end_matches(s, '/'), s.trim_end_matches('/'));
        assert_eq!(text::trim_matches(s, '"'), s.trim_matches('"'));
    }
}

#[test]
fn searching_is_that_of_std() {
    let texts = ["", "a", "ab", "aab", "abab", "xabx", "ÄB", "äb"];
    for s in texts {
        for t in texts {
            assert_eq!(text::starts_with(s, t), s.starts_with(t));
            assert_eq!(text::ends_with(s, t), s.ends_with(t));
            assert_eq!(text::contains(s, t), s.contains(t));
            assert_eq!(text::same_text(s, t), s == t);
            assert_eq!(text::is_less(s, t), s < t, "{s} < {t}");
        }
        assert_eq!(text::to_lower(s), s.to_ascii_lowercase());
    }
}

#[test]
fn splitting_is_that_of_std() {
    for s in ["", "a", "a=b", "=", "a=b=c", "x\ny\n", "/a/b/"] {
        let theirs: Vec<String> = s.split('\n').map(|p| p.to_string()).collect();
        assert_eq!(text::split(s, '\n'), theirs);
        let pair = s.split_once('=').map(|(a, b)| (a.to_string(), b.to_string()));
        assert_eq!(text::split_once(s, '='), pair);
        assert_eq!(text::basename(s), s.rsplit('/').next().unwrap());
        assert_eq!(text::replace(s, '/', '\\'), s.replace('/', "\\"));
    }
}

#[test]
fn numbers_are_written_in_decimals() {
    for n in [0, 7, 9, 10, 11, 99, 100, 1 << 30, u64::MAX] {
        assert_eq!(text::number(n), n.to_string());
    }
}
