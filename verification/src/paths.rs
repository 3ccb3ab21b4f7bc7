//! Paths as text, with `/` between their parts.

use vstd::prelude::*;

use crate::text;

verus! {

/// `rel` seen from `base`: an absolute `rel` stands for itself.
pub open spec fn joined(base: Seq<char>, rel: Seq<char>) -> Seq<char> {
    if rel.len() > 0 && rel[0] == '/' {
        rel
    } else if base.len() == 0 || base.last() == '/' {
        base + rel
    } else {
        base + "/"@ + rel
    }
}

/// The part of a manifest path that is relative to the game folder.
pub open spec fn relative(dest: Seq<char>) -> Seq<char> {
    text::drop_lead(dest, text::is_char('/'))
}

/// The path of a manifest entry inside a folder.
pub open spec fn inside(folder: Seq<char>, dest: Seq<char>) -> Seq<char> {
    joined(folder, relative(dest))
}

/// The relative part of a manifest path does not begin with a slash.
pub proof fn lemma_relative(dest: Seq<char>)
    ensures
        text::lead(dest, text::is_char('/')) <= dest.len(),
        relative(dest).len() == 0 || relative(dest)[0] != '/',
    decreases dest.len(),
{
    if dest.len() > 0 && dest[0] == '/' {
        let rest = dest.drop_first();
        lemma_relative(rest);
        assert(relative(dest) =~= relative(rest));
    }
}

/// How much of `path` is left when trailing separators and trailing `.` parts go.
pub open spec fn core_len(path: Seq<char>) -> nat
    decreases path.len(),
{
    let n = path.len();
    if n > 0 && path[n - 1] == '/' {
        core_len(path.drop_last())
    } else if n > 1 && path[n - 1] == '.' && path[n - 2] == '/' {
        core_len(path.drop_last())
    } else {
        n
    }
}

/// The last part of `path`, which is a file name unless it is empty, `.` or `..`.
pub open spec fn last_part(path: Seq<char>) -> Seq<char> {
    text::last_segment(path.take(core_len(path) as int))
}

/// Whether `path` ends in a file name.
pub open spec fn names_file(path: Seq<char>) -> bool {
    let name = last_part(path);
    name.len() > 0 && name != seq!['.'] && name != seq!['.', '.']
}

/// How much of a file name stands before its extension; a dot in front is no extension.
pub open spec fn stem_len(name: Seq<char>) -> nat {
    let ext = text::trail(name, text::is_other_than('.'));
    if ext + 1 < name.len() {
        (name.len() - ext - 1) as nat
    } else {
        name.len()
    }
}

/// `path` with `ext` in place of the extension of its file name; an empty `ext` removes it.
pub open spec fn with_ext(path: Seq<char>, ext: Seq<char>) -> Seq<char> {
    if names_file(path) {
        let name = last_part(path);
        let stem = path.take(core_len(path) - name.len() + stem_len(name));
        if ext.len() == 0 {
            stem
        } else {
            stem + "."@ + ext
        }
    } else {
        path
    }
}

/// `rel` seen from `base`.
pub fn join(base: &str, rel: &str) -> (r: String)
    ensures
        r@ == joined(base@, rel@),
{
    let b = text::to_chars(base);
    let v = text::to_chars(rel);
    if v.len() > 0 && v[0] == '/' {
        rel.to_owned()
    } else if b.len() == 0 || b[b.len() - 1] == '/' {
        base.to_owned().concat(rel)
    } else {
        base.to_owned().concat("/").concat(rel)
    }
}

/// The path of a manifest entry inside a folder.
pub fn join_inside(folder: &str, dest: &str) -> (r: String)
    ensures
        r@ == inside(folder@, dest@),
{
    let rel = text::trim_start_matches(dest, '/');
    join(folder, rel.as_str())
}

fn core_end(v: &Vec<char>) -> (r: usize)
    ensures
        r == core_len(v@),
        r <= v@.len(),
{
    let mut n: usize = v.len();
    assert(v@.take(n as int) =~= v@);
    while n > 0 && (v[n - 1] == '/' || (n > 1 && v[n - 1] == '.' && v[n - 2] == '/'))
        invariant
            n <= v@.len(),
            core_len(v@.take(n as int)) == core_len(v@),
        decreases n,
    {
        assert(v@.take(n as int).drop_last() =~= v@.take(n - 1));
        n = n - 1;
    }
    assert(core_len(v@.take(n as int)) == n);
    n
}

fn name_start(v: &Vec<char>, n: usize) -> (r: usize)
    requires
        n <= v@.len(),
    ensures
        r <= n,
        v@.subrange(r as int, n as int) == text::last_segment(v@.take(n as int)),
{
    let mut start: usize = n;
    while start > 0 && v[start - 1] != '/'
        invariant
            start <= n <= v@.len(),
            forall|j: int| start <= j < n ==> v@[j] != '/',
        decreases start,
    {
        start = start - 1;
    }
    proof {
        text::lemma_trail_is(v@.take(n as int), text::is_other_than('/'), n - start);
        assert(v@.subrange(start as int, n as int) =~= text::last_segment(v@.take(n as int)));
    }
    start
}

fn is_name(v: &Vec<char>, start: usize, n: usize) -> (r: bool)
    requires
        start <= n <= v@.len(),
    ensures
        r == ({
            let name = v@.subrange(start as int, n as int);
            name.len() > 0 && name != seq!['.'] && name != seq!['.', '.']
        }),
{
    let ghost name = v@.subrange(start as int, n as int);
    let dots = (n - start == 1 && v[start] == '.') || (n - start == 2 && v[start] == '.' && v[start
        + 1] == '.');
    proof {
        if name.len() == 1 {
            assert(name =~= seq!['.'] <==> name[0] == '.');
        }
        if name.len() == 2 {
            assert(name =~= seq!['.', '.'] <==> name[0] == '.' && name[1] == '.');
        }
    }
    start < n && !dots
}

/// `path` with `ext` in place of the extension of its file name; a path that does
/// not end in a file name stays as it is.
pub fn with_extension(path: &str, ext: &str) -> (r: String)
    ensures
        r@ == with_ext(path@, ext@),
{
    let v = text::to_chars(path);
    let n = core_end(&v);
    let start = name_start(&v, n);
    let ghost name = v@.subrange(start as int, n as int);
    assert(last_part(path@) =~= name);
    if !is_name(&v, start, n) {
        return path.to_owned();
    }
    let mut cut: usize = n;
    while cut > start && v[cut - 1] != '.'
        invariant
            start <= cut <= n <= v@.len(),
            forall|j: int| cut <= j < n ==> v@[j] != '.',
        decreases cut,
    {
        cut = cut - 1;
    }
    proof {
        assert forall|j: int| cut - start <= j < name.len() implies name[j] != '.' by {
            assert(name[j] == v@[j + start]);
        }
        text::lemma_trail_is(name, text::is_other_than('.'), n - cut);
    }
    let end: usize = if cut > start + 1 {
        cut - 1
    } else {
        n
    };
    assert(end == start + stem_len(name));
    assert(v@.subrange(0, end as int) =~= path@.take(end as int));
    let stem = text::spell(&v, 0, end);
    if ext.is_empty() {
        stem
    } else {
        stem.concat(".").concat(ext)
    }
}

/// The last part of a path, where it names a file or a folder.
pub open spec fn name_of(path: Seq<char>) -> Option<Seq<char>> {
    if names_file(path) {
        Some(last_part(path))
    } else {
        None
    }
}

/// The last part of a path, where it names a file or a folder.
pub fn file_name(path: &str) -> (r: Option<String>)
    ensures
        r.deep_view() == name_of(path@),
{
    let v = text::to_chars(path);
    let n = core_end(&v);
    let start = name_start(&v, n);
    let ghost name = v@.subrange(start as int, n as int);
    assert(last_part(path@) =~= name);
    if is_name(&v, start, n) {
        Some(text::spell(&v, start, n))
    } else {
        None
    }
}

}
