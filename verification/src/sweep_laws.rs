//! Which files a sweep finds, which it takes away, and which folders it prunes.

use vstd::prelude::*;

use crate::error::ErrorView;
use crate::paths;
use crate::plan_laws;
use crate::sweep;
use crate::sweep::Node;
use crate::text;
use crate::text_laws;
use crate::types::ResourceItemView;

verus! {

/// Whether a text ends in a dot and three letters, small or capital.
pub open spec fn has_extension(s: Seq<char>, small: (char, char, char), capital: (char, char, char)) -> bool {
    let n = s.len() - 4;
    &&& n >= 0
    &&& s[n] == '.'
    &&& plan_laws::is_letter(s[n + 1], small.0, capital.0)
    &&& plan_laws::is_letter(s[n + 2], small.1, capital.1)
    &&& plan_laws::is_letter(s[n + 3], small.2, capital.2)
}

/// The local configuration is never swept away, nor is what ends in `.tmp` or `.bak`, in small or
/// capital letters; nothing else is kept for its name.
pub proof fn law_kept_by_name(rel: Seq<char>)
    ensures
        sweep::is_kept(rel) <==> {
            ||| rel == "launcherDownloadConfig.json"@
            ||| has_extension(rel, ('t', 'm', 'p'), ('T', 'M', 'P'))
            ||| has_extension(rel, ('b', 'a', 'k'), ('B', 'A', 'K'))
        },
{
    reveal_strlit(".tmp");
    reveal_strlit(".bak");
    let low = text::lowered(rel);
    let n = rel.len() - 4;
    if n >= 0 {
        let tail = low.subrange(n, low.len() as int);
        assert(tail[0] == text::lower(rel[n]) && tail[1] == text::lower(rel[n + 1]) && tail[2]
            == text::lower(rel[n + 2]) && tail[3] == text::lower(rel[n + 3]));
        assert(".tmp"@.len() == 4 && ".tmp"@[0] == '.' && ".tmp"@[1] == 't' && ".tmp"@[2] == 'm'
            && ".tmp"@[3] == 'p');
        assert(".bak"@.len() == 4 && ".bak"@[0] == '.' && ".bak"@[1] == 'b' && ".bak"@[2] == 'a'
            && ".bak"@[3] == 'k');
        if has_extension(rel, ('t', 'm', 'p'), ('T', 'M', 'P')) {
            assert(tail =~= ".tmp"@);
        }
        if has_extension(rel, ('b', 'a', 'k'), ('B', 'A', 'K')) {
            assert(tail =~= ".bak"@);
        }
        if sweep::has_ending(rel, ".tmp"@) {
            assert(tail == ".tmp"@);
        }
        if sweep::has_ending(rel, ".bak"@) {
            assert(tail == ".bak"@);
        }
    }
}

/// A manifest lists a file under its path without the slashes in front, with each backslash turned
/// around.
pub proof fn law_listed_under(item: ResourceItemView, d: Seq<char>, n: nat)
    requires
        item.dest == text_laws::repeated('/', n) + d,
        d.len() > 0 ==> d[0] != '/',
    ensures
        sweep::listed_path(item).len() == d.len(),
        forall|i: int|
            0 <= i < d.len() ==> #[trigger] sweep::listed_path(item)[i] == if d[i] == '\\' {
                '/'
            } else {
                d[i]
            },
{
    text_laws::law_padded_front(d, '/', n);
}

/// A path that has no backslash is swept away exactly where it is not kept for its name and no entry of
/// the manifest lists it.
pub proof fn law_orphans_are_not_listed(list: Seq<ResourceItemView>, rel: Seq<char>)
    requires
        forall|i: int| 0 <= i < rel.len() ==> #[trigger] rel[i] != '\\',
    ensures
        sweep::is_orphan(list, rel) <==> !sweep::is_kept(rel) && forall|i: int|
            0 <= i < list.len() ==> #[trigger] sweep::listed_path(list[i]) != rel,
{
    assert(sweep::slashed(rel) =~= rel);
}

/// What is swept away are the orphans among the files, in their order.
pub proof fn law_orphans_are_swept(list: Seq<ResourceItemView>, files: Seq<Seq<char>>)
    ensures
        sweep::orphans(list, files) == files.filter(|f: Seq<char>| sweep::is_orphan(list, f)),
    decreases files.len(),
{
    reveal(Seq::filter);
    if files.len() > 0 {
        law_orphans_are_swept(list, files.drop_last());
    }
}

/// Whether a file lies at a path, in the folder `dir` or below it, outside every staging folder.
pub open spec fn lies_at(dir: Seq<char>, nodes: Seq<Node>, path: Seq<char>) -> bool
    decreases nodes,
{
    exists|i: int|
        0 <= i < nodes.len() && match #[trigger] nodes[i] {
            Node::File { name } => path == paths::joined(dir, name@),
            Node::Folder { name, entries } => name@ != ".incremental_download"@ && lies_at(
                paths::joined(dir, name@),
                entries@,
                path,
            ),
            Node::Unreadable { .. } => false,
        }
}

/// Whether some folder outside every staging folder could not be listed.
pub open spec fn is_blocked(nodes: Seq<Node>) -> bool
    decreases nodes,
{
    exists|i: int|
        0 <= i < nodes.len() && match #[trigger] nodes[i] {
            Node::File { .. } => false,
            Node::Folder { name, entries } => name@ != ".incremental_download"@ && is_blocked(
                entries@,
            ),
            Node::Unreadable { name, .. } => name@ != ".incremental_download"@,
        }
}

/// What one entry contributes to a walk.
spec fn lies_below(dir: Seq<char>, node: Node, path: Seq<char>) -> bool {
    match node {
        Node::File { name } => path == paths::joined(dir, name@),
        Node::Folder { name, entries } => name@ != ".incremental_download"@ && lies_at(
            paths::joined(dir, name@),
            entries@,
            path,
        ),
        Node::Unreadable { .. } => false,
    }
}

spec fn blocks(node: Node) -> bool {
    match node {
        Node::File { .. } => false,
        Node::Folder { name, entries } => name@ != ".incremental_download"@ && is_blocked(entries@),
        Node::Unreadable { name, .. } => name@ != ".incremental_download"@,
    }
}

proof fn lemma_lies_at(dir: Seq<char>, nodes: Seq<Node>, path: Seq<char>)
    ensures
        lies_at(dir, nodes, path) <==> exists|i: int|
            0 <= i < nodes.len() && lies_below(dir, #[trigger] nodes[i], path),
        is_blocked(nodes) <==> exists|i: int| 0 <= i < nodes.len() && blocks(#[trigger] nodes[i]),
{
    reveal_with_fuel(lies_at, 1);
    reveal_with_fuel(is_blocked, 1);
    if exists|i: int| 0 <= i < nodes.len() && lies_below(dir, #[trigger] nodes[i], path) {
        let i = choose|i: int| 0 <= i < nodes.len() && lies_below(dir, #[trigger] nodes[i], path);
        assert(lies_at(dir, nodes, path));
    }
    if lies_at(dir, nodes, path) {
        let i = choose|i: int|
            0 <= i < nodes.len() && match #[trigger] nodes[i] {
                Node::File { name } => path == paths::joined(dir, name@),
                Node::Folder { name, entries } => name@ != ".incremental_download"@ && lies_at(
                    paths::joined(dir, name@),
                    entries@,
                    path,
                ),
                Node::Unreadable { .. } => false,
            };
        assert(lies_below(dir, nodes[i], path));
    }
    if exists|i: int| 0 <= i < nodes.len() && blocks(#[trigger] nodes[i]) {
        let i = choose|i: int| 0 <= i < nodes.len() && blocks(#[trigger] nodes[i]);
        assert(is_blocked(nodes));
    }
    if is_blocked(nodes) {
        let i = choose|i: int|
            0 <= i < nodes.len() && match #[trigger] nodes[i] {
                Node::File { .. } => false,
                Node::Folder { name, entries } => name@ != ".incremental_download"@ && is_blocked(
                    entries@,
                ),
                Node::Unreadable { name, .. } => name@ != ".incremental_download"@,
            };
        assert(blocks(nodes[i]));
    }
}

proof fn lemma_split(dir: Seq<char>, nodes: Seq<Node>, path: Seq<char>)
    requires
        nodes.len() > 0,
    ensures
        lies_at(dir, nodes, path) <==> lies_at(dir, nodes.drop_last(), path) || lies_below(
            dir,
            nodes.last(),
            path,
        ),
        is_blocked(nodes) <==> is_blocked(nodes.drop_last()) || blocks(nodes.last()),
{
    let rest = nodes.drop_last();
    lemma_lies_at(dir, nodes, path);
    lemma_lies_at(dir, rest, path);
    if lies_at(dir, rest, path) {
        let i = choose|i: int| 0 <= i < rest.len() && lies_below(dir, #[trigger] rest[i], path);
        assert(lies_below(dir, nodes[i], path));
    }
    if is_blocked(rest) {
        let i = choose|i: int| 0 <= i < rest.len() && blocks(#[trigger] rest[i]);
        assert(blocks(nodes[i]));
    }
    assert(nodes[nodes.len() - 1] == nodes.last());
    if lies_at(dir, nodes, path) {
        let i = choose|i: int| 0 <= i < nodes.len() && lies_below(dir, #[trigger] nodes[i], path);
        assert(i < rest.len() ==> rest[i] == nodes[i]);
    }
    if is_blocked(nodes) {
        let i = choose|i: int| 0 <= i < nodes.len() && blocks(#[trigger] nodes[i]);
        assert(i < rest.len() ==> rest[i] == nodes[i]);
    }
}

/// A walk finds exactly the files that lie in a folder or below it, outside every staging folder; it
/// fails exactly where some folder outside every staging folder could not be listed.
pub proof fn law_walk_finds_every_file(dir: Seq<char>, nodes: Seq<Node>, path: Seq<char>)
    ensures
        sweep::files_in(dir, nodes) is Err <==> is_blocked(nodes),
        sweep::files_in(dir, nodes) is Ok ==> (sweep::files_in(dir, nodes)->Ok_0.contains(path)
            <==> lies_at(dir, nodes, path)),
    decreases nodes,
{
    reveal_with_fuel(sweep::files_in, 2);
    reveal_with_fuel(sweep::files_at, 2);
    assert(crate::state::INCREMENTAL_DIR@ == ".incremental_download"@);
    if nodes.len() == 0 {
        lemma_lies_at(dir, nodes, path);
    } else {
        let rest = nodes.drop_last();
        let last = nodes.last();
        law_walk_finds_every_file(dir, rest, path);
        lemma_split(dir, nodes, path);
        match last {
            Node::Folder { name, entries } => {
                assert(decreases_to!(nodes => nodes[nodes.len() - 1]));
                law_walk_finds_every_file(paths::joined(dir, name@), entries@, path);
            },
            _ => {},
        }
        let at = sweep::files_at(dir, last);
        assert(at is Err <==> blocks(last));
        if at is Ok {
            if let Node::File { name } = last {
                assert(at->Ok_0 =~= seq![paths::joined(dir, name@)]);
                assert(at->Ok_0[0] == paths::joined(dir, name@));
            }
            assert(at->Ok_0.contains(path) <==> lies_below(dir, last, path));
        }
        if sweep::files_in(dir, nodes) is Ok {
            let a = sweep::files_in(dir, rest)->Ok_0;
            let b = at->Ok_0;
            lemma_contains_sum(a, b, path);
        }
    }
}

proof fn lemma_contains_sum(a: Seq<Seq<char>>, b: Seq<Seq<char>>, x: Seq<char>)
    ensures
        (a + b).contains(x) <==> a.contains(x) || b.contains(x),
{
    if a.contains(x) {
        let i = choose|i: int| 0 <= i < a.len() && a[i] == x;
        assert((a + b)[i] == x);
    }
    if b.contains(x) {
        let i = choose|i: int| 0 <= i < b.len() && b[i] == x;
        assert((a + b)[a.len() + i] == x);
    }
    if (a + b).contains(x) {
        let i = choose|i: int| 0 <= i < (a + b).len() && (a + b)[i] == x;
        if i < a.len() {
            assert(a[i] == x);
        } else {
            assert(b[i - a.len()] == x);
        }
    }
}

/// Whether some entries are folders without a file in them or below them.
pub open spec fn are_bare(nodes: Seq<Node>) -> bool
    decreases nodes,
{
    forall|i: int|
        0 <= i < nodes.len() ==> match #[trigger] nodes[i] {
            Node::Folder { entries, .. } => are_bare(entries@),
            _ => false,
        }
}

proof fn lemma_bare(nodes: Seq<Node>)
    ensures
        sweep::all_hollow(nodes) <==> are_bare(nodes),
    decreases nodes,
{
    reveal_with_fuel(sweep::all_hollow, 2);
    reveal_with_fuel(sweep::is_hollow, 2);
    if nodes.len() > 0 {
        let rest = nodes.drop_last();
        lemma_bare(rest);
        let last = nodes.last();
        assert(last == nodes[nodes.len() - 1]);
        if let Node::Folder { name, entries } = last {
            assert(decreases_to!(nodes => nodes[nodes.len() - 1]));
            lemma_bare(entries@);
        }
        if are_bare(nodes) {
            assert forall|i: int| 0 <= i < rest.len() implies match #[trigger] rest[i] {
                Node::Folder { entries, .. } => are_bare(entries@),
                _ => false,
            } by {
                assert(rest[i] == nodes[i]);
            }
        }
        if are_bare(rest) && (last matches Node::Folder { entries, .. } && are_bare(entries@)) {
            assert forall|i: int| 0 <= i < nodes.len() implies match #[trigger] nodes[i] {
                Node::Folder { entries, .. } => are_bare(entries@),
                _ => false,
            } by {
                if i < rest.len() {
                    assert(rest[i] == nodes[i]);
                }
            }
        }
    }
}

/// A folder is pruned exactly where no file lies in it or below it, and after the folders below it.
pub proof fn law_bare_folders_are_pruned(dir: Seq<char>, node: Node)
    ensures
        node matches Node::Folder { name, entries } ==> {
            let pruned = sweep::hollows_at(dir, node);
            let inner = sweep::hollows_in(paths::joined(dir, name@), entries@);
            &&& are_bare(entries@) ==> pruned.len() == inner.len() + 1 && pruned.last()
                == paths::joined(dir, name@) && pruned.drop_last() == inner
            &&& !are_bare(entries@) ==> pruned == inner
        },
        !(node is Folder) ==> sweep::hollows_at(dir, node).len() == 0,
{
    reveal_with_fuel(sweep::hollows_at, 1);
    if let Node::Folder { name, entries } = node {
        lemma_bare(entries@);
        let inner = sweep::hollows_in(paths::joined(dir, name@), entries@);
        assert(inner.push(paths::joined(dir, name@)).drop_last() =~= inner);
    }
}

/// The entries of a folder are pruned one after the other.
pub proof fn law_entries_are_pruned_in_order(dir: Seq<char>, nodes: Seq<Node>, node: Node)
    ensures
        sweep::hollows_in(dir, Seq::empty()).len() == 0,
        sweep::hollows_in(dir, nodes.push(node)) == sweep::hollows_in(dir, nodes)
            + sweep::hollows_at(dir, node),
{
    reveal_with_fuel(sweep::hollows_in, 2);
    assert(nodes.push(node).drop_last() =~= nodes);
}

/// A folder that cannot be listed fails the walk with its reason.
pub proof fn law_walk_tells_the_reason(dir: Seq<char>, nodes: Seq<Node>, name: String, reason: String)
    requires
        !is_blocked(nodes),
        name@ != ".incremental_download"@,
    ensures
        sweep::files_in(dir, nodes.push(Node::Unreadable { name, reason })) == Err::<
            Seq<Seq<char>>,
            ErrorView,
        >(ErrorView::Patch("orphan walk: "@ + reason@)),
{
    reveal_with_fuel(sweep::files_in, 2);
    reveal_with_fuel(sweep::files_at, 2);
    assert(crate::state::INCREMENTAL_DIR@ == ".incremental_download"@);
    law_walk_finds_every_file(dir, nodes, dir);
    assert(nodes.push(Node::Unreadable { name, reason }).drop_last() =~= nodes);
}

/// The files of a folder come in the order of its entries.
pub proof fn law_files_come_in_order(dir: Seq<char>, nodes: Seq<Node>, node: Node)
    requires
        sweep::files_in(dir, nodes) is Ok,
        sweep::files_at(dir, node) is Ok,
    ensures
        sweep::files_in(dir, nodes.push(node)) == Ok::<Seq<Seq<char>>, ErrorView>(
            sweep::files_in(dir, nodes)->Ok_0 + sweep::files_at(dir, node)->Ok_0,
        ),
        node matches Node::File { name } ==> sweep::files_at(dir, node)->Ok_0 == seq![
            paths::joined(dir, name@),
        ],
        node matches Node::Folder { name, entries } ==> (name@ != ".incremental_download"@
            ==> sweep::files_at(dir, node) == sweep::files_in(
            paths::joined(dir, name@),
            entries@,
        )),
        node matches Node::Folder { name, entries } ==> (name@ == ".incremental_download"@
            ==> sweep::files_at(dir, node)->Ok_0.len() == 0),
{
    reveal_with_fuel(sweep::files_in, 2);
    reveal_with_fuel(sweep::files_at, 2);
    assert(crate::state::INCREMENTAL_DIR@ == ".incremental_download"@);
    assert(nodes.push(node).drop_last() =~= nodes);
}

/// A backslash in the path of a file counts as a slash.
pub proof fn law_backslashes_count_as_slashes(list: Seq<ResourceItemView>, rel: Seq<char>)
    ensures
        sweep::is_orphan(list, rel) <==> sweep::is_orphan(list, text::replaced(rel, '\\', '/')),
{
    let t = text::replaced(rel, '\\', '/');
    assert(text::replaced(t, '\\', '/') =~= t);
}

}
