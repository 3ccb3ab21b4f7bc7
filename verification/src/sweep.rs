//! Files that lie in the game folder but in no manifest.

use vstd::hash_set::StringHashSet;
use vstd::prelude::*;

use crate::error::{Error, ErrorView};
use crate::paths;
use crate::state;
use crate::text;
use crate::types::{ResourceItem, ResourceItemView};

verus! {

/// One entry of a folder, with all that lies below it.
#[derive(Debug)]
pub enum Node {
    File { name: String },
    Folder { name: String, entries: Vec<Node> },
    /// A folder that could not be listed, and why.
    Unreadable { name: String, reason: String },
}

/// The error for a folder that could not be listed.
pub open spec fn walk_error(reason: Seq<char>) -> ErrorView {
    ErrorView::Patch("orphan walk: "@ + reason)
}

/// The files at and below an entry, by their paths from the game folder on; the entry itself lies
/// in `dir`. Staging folders are passed over.
pub open spec fn files_at(dir: Seq<char>, node: Node) -> Result<Seq<Seq<char>>, ErrorView>
    decreases node,
{
    match node {
        Node::File { name } => Ok(seq![paths::joined(dir, name@)]),
        Node::Folder { name, entries } => if name@ == state::INCREMENTAL_DIR@ {
            Ok(Seq::empty())
        } else {
            files_in(paths::joined(dir, name@), entries@)
        },
        Node::Unreadable { name, reason } => if name@ == state::INCREMENTAL_DIR@ {
            Ok(Seq::empty())
        } else {
            Err(walk_error(reason@))
        },
    }
}

/// The files at and below some entries of `dir`; the first folder that could not be listed decides
/// the error.
pub open spec fn files_in(dir: Seq<char>, nodes: Seq<Node>) -> Result<Seq<Seq<char>>, ErrorView>
    decreases nodes,
{
    if nodes.len() == 0 {
        Ok(Seq::empty())
    } else {
        match files_in(dir, nodes.drop_last()) {
            Err(e) => Err(e),
            Ok(before) => match files_at(dir, nodes.last()) {
                Err(e) => Err(e),
                Ok(more) => Ok(before + more),
            },
        }
    }
}

/// A list of paths by its model.
pub open spec fn list_result(r: Result<Vec<String>, Error>) -> Result<Seq<Seq<char>>, ErrorView> {
    match r {
        Ok(list) => Ok(list.deep_view()),
        Err(e) => Err(e.deep_view()),
    }
}

fn push_files(dir: &str, nodes: &Vec<Node>, out: &mut Vec<String>) -> (r: Result<(), Error>)
    ensures
        match files_in(dir@, nodes@) {
            Ok(files) => r is Ok && final(out).deep_view() == old(out).deep_view() + files,
            Err(e) => r is Err && r->Err_0.deep_view() == e,
        },
    decreases nodes,
{
    let ghost start = out.deep_view();
    let mut i: usize = 0;
    assert(nodes@.take(0) =~= Seq::empty());
    assert(start + Seq::<Seq<char>>::empty() =~= start);
    while i < nodes.len()
        invariant
            i <= nodes@.len(),
            files_in(dir@, nodes@.take(i as int)) is Ok,
            out.deep_view() == start + files_in(dir@, nodes@.take(i as int))->Ok_0,
        decreases nodes@.len() - i,
    {
        let ghost before = out.deep_view();
        let ghost done = files_in(dir@, nodes@.take(i as int))->Ok_0;
        proof {
            reveal_with_fuel(files_in, 2);
            reveal_with_fuel(files_at, 2);
            assert(nodes@.take(i + 1).drop_last() =~= nodes@.take(i as int));
            assert(nodes@.take(i + 1).last() == nodes@[i as int]);
        }
        match &nodes[i] {
            Node::File { name } => {
                out.push(paths::join(dir, name.as_str()));
                assert(out.deep_view() =~= before.push(paths::joined(dir@, name@)));
                assert(out.deep_view() =~= start + (done + seq![paths::joined(dir@, name@)]));
            },
            Node::Folder { name, entries } => {
                if !text::same_text(name.as_str(), state::INCREMENTAL_DIR) {
                    let below = paths::join(dir, name.as_str());
                    assert(decreases_to!(nodes => nodes@[i as int]));
                    match push_files(below.as_str(), entries, out) {
                        Ok(()) => {
                            let ghost more = files_in(below@, entries@)->Ok_0;
                            assert(out.deep_view() =~= start + (done + more));
                        },
                        Err(e) => {
                            proof {
                                lemma_error_stays(dir@, nodes@, i + 1);
                            }
                            return Err(e);
                        },
                    }
                } else {
                    assert(done + Seq::<Seq<char>>::empty() =~= done);
                }
            },
            Node::Unreadable { name, reason } => {
                if !text::same_text(name.as_str(), state::INCREMENTAL_DIR) {
                    proof {
                        lemma_error_stays(dir@, nodes@, i + 1);
                    }
                    return Err(Error::Patch("orphan walk: ".to_owned().concat(reason.as_str())));
                }
                assert(done + Seq::<Seq<char>>::empty() =~= done);
            },
        }
        i = i + 1;
    }
    assert(nodes@.take(nodes@.len() as int) =~= nodes@);
    Ok(())
}

proof fn lemma_error_stays(dir: Seq<char>, nodes: Seq<Node>, n: int)
    requires
        0 <= n <= nodes.len(),
        files_in(dir, nodes.take(n)) is Err,
    ensures
        files_in(dir, nodes) == files_in(dir, nodes.take(n)),
    decreases nodes.len(),
{
    if n < nodes.len() {
        assert(nodes.drop_last().take(n) =~= nodes.take(n));
        lemma_error_stays(dir, nodes.drop_last(), n);
    } else {
        assert(nodes.take(n) =~= nodes);
    }
}

/// The files of a game folder, by their paths from there on. Staging folders are passed over.
pub fn walk_files(tree: &Vec<Node>) -> (r: Result<Vec<String>, Error>)
    ensures
        list_result(r) == files_in(""@, tree@),
{
    proof {
        reveal_strlit("");
    }
    let mut out: Vec<String> = Vec::new();
    assert(out.deep_view() =~= Seq::empty());
    match push_files("", tree, &mut out) {
        Ok(()) => {
            assert(out.deep_view() =~= files_in(""@, tree@)->Ok_0);
            Ok(out)
        },
        Err(e) => Err(e),
    }
}

/// Whether a path ends in this, capital or not.
pub open spec fn has_ending(rel: Seq<char>, ending: Seq<char>) -> bool {
    ending.is_suffix_of(text::lowered(rel))
}

/// Whether a file is never swept away: the local configuration, a file in the making, a backup.
pub open spec fn is_kept(rel: Seq<char>) -> bool {
    rel == "launcherDownloadConfig.json"@ || has_ending(rel, ".tmp"@) || has_ending(rel, ".bak"@)
}

/// Whether a file is never swept away.
pub fn is_protected(rel: &str) -> (r: bool)
    ensures
        r == is_kept(rel@),
{
    if text::same_text(rel, "launcherDownloadConfig.json") {
        return true;
    }
    let low = text::to_lower(rel);
    text::ends_with(low.as_str(), ".tmp") || text::ends_with(low.as_str(), ".bak")
}

/// A path with forward slashes.
pub open spec fn slashed(path: Seq<char>) -> Seq<char> {
    text::replaced(path, '\\', '/')
}

/// The path that a manifest gives a file, from the game folder on.
pub open spec fn listed_path(item: ResourceItemView) -> Seq<char> {
    slashed(paths::relative(item.dest))
}

/// Whether a manifest lists a path.
pub open spec fn is_listed(list: Seq<ResourceItemView>, rel: Seq<char>) -> bool {
    exists|i: int| 0 <= i < list.len() && #[trigger] listed_path(list[i]) == rel
}

/// Whether a file is to be swept away: no manifest lists it, and it is not kept for itself.
pub open spec fn is_orphan(list: Seq<ResourceItemView>, rel: Seq<char>) -> bool {
    !is_kept(slashed(rel)) && !is_listed(list, slashed(rel))
}

/// Those of some files that are to be swept away, in order.
pub open spec fn orphans(list: Seq<ResourceItemView>, files: Seq<Seq<char>>) -> Seq<Seq<char>>
    decreases files.len(),
{
    if files.len() == 0 {
        Seq::empty()
    } else {
        let before = orphans(list, files.drop_last());
        if is_orphan(list, files.last()) {
            before.push(files.last())
        } else {
            before
        }
    }
}

fn listed_paths(list: &Vec<ResourceItem>) -> (r: StringHashSet)
    ensures
        forall|rel: Seq<char>|
            #[trigger] r@.contains(rel) <==> is_listed(list.deep_view(), rel),
{
    let ghost all = list.deep_view();
    let mut r = StringHashSet::new();
    let mut i: usize = 0;
    while i < list.len()
        invariant
            i <= list@.len(),
            all == list.deep_view(),
            forall|rel: Seq<char>|
                #[trigger] r@.contains(rel) <==> exists|k: int|
                    0 <= k < i && #[trigger] listed_path(all[k]) == rel,
        decreases list@.len() - i,
    {
        let rel = text::trim_start_matches(list[i].dest.as_str(), '/');
        let path = text::replace(rel.as_str(), '\\', '/');
        let ghost before = r@;
        assert(path@ == listed_path(all[i as int]));
        r.insert(path);
        assert forall|rel: Seq<char>| #[trigger] r@.contains(rel) <==> exists|k: int|
            0 <= k < i + 1 && #[trigger] listed_path(all[k]) == rel by {
            assert(before.contains(rel) <==> exists|k: int|
                0 <= k < i && #[trigger] listed_path(all[k]) == rel);
        }
        i = i + 1;
    }
    r
}

/// The files to sweep away, of those that lie in the game folder.
pub fn sweep_orphans(manifest: &Vec<ResourceItem>, files: &Vec<String>) -> (r: Vec<String>)
    ensures
        r.deep_view() == orphans(manifest.deep_view(), files.deep_view()),
{
    let listed = listed_paths(manifest);
    let ghost list = manifest.deep_view();
    let ghost all = files.deep_view();
    let mut r: Vec<String> = Vec::new();
    let mut i: usize = 0;
    assert(r.deep_view() =~= orphans(list, all.take(0)));
    while i < files.len()
        invariant
            i <= files@.len(),
            all == files.deep_view(),
            forall|rel: Seq<char>| #[trigger] listed@.contains(rel) <==> is_listed(list, rel),
            r.deep_view() == orphans(list, all.take(i as int)),
        decreases files@.len() - i,
    {
        proof {
            assert(all.take(i + 1).drop_last() =~= all.take(i as int));
            assert(all.take(i + 1).last() == files@[i as int]@);
        }
        let ghost before = r.deep_view();
        let rel = text::replace(files[i].as_str(), '\\', '/');
        if !is_protected(rel.as_str()) && !listed.contains(rel.as_str()) {
            r.push(files[i].clone());
            assert(r.deep_view() =~= before.push(files@[i as int]@));
        }
        i = i + 1;
    }
    assert(all.take(all.len() as int) =~= all);
    r
}

/// Whether nothing but folders lies below an entry, all of which could be listed.
pub open spec fn is_hollow(node: Node) -> bool
    decreases node,
{
    match node {
        Node::Folder { entries, .. } => all_hollow(entries@),
        _ => false,
    }
}

/// Whether some entries are hollow.
pub open spec fn all_hollow(nodes: Seq<Node>) -> bool
    decreases nodes,
{
    nodes.len() > 0 ==> all_hollow(nodes.drop_last()) && is_hollow(nodes.last())
}

/// The folders at and below an entry in which there is no file, the inner ones first.
pub open spec fn hollows_at(dir: Seq<char>, node: Node) -> Seq<Seq<char>>
    decreases node,
{
    match node {
        Node::Folder { name, entries } => {
            let path = paths::joined(dir, name@);
            let inner = hollows_in(path, entries@);
            if all_hollow(entries@) {
                inner.push(path)
            } else {
                inner
            }
        },
        _ => Seq::empty(),
    }
}

/// The folders at and below some entries of `dir` in which there is no file, the inner ones first.
pub open spec fn hollows_in(dir: Seq<char>, nodes: Seq<Node>) -> Seq<Seq<char>>
    decreases nodes,
{
    if nodes.len() == 0 {
        Seq::empty()
    } else {
        hollows_in(dir, nodes.drop_last()) + hollows_at(dir, nodes.last())
    }
}

/// Adds the folders in which there is no file, and says whether all of the entries are such.
fn push_hollows(dir: &str, nodes: &Vec<Node>, out: &mut Vec<String>) -> (r: bool)
    ensures
        r == all_hollow(nodes@),
        final(out).deep_view() == old(out).deep_view() + hollows_in(dir@, nodes@),
    decreases nodes,
{
    let ghost start = out.deep_view();
    let mut hollow = true;
    let mut i: usize = 0;
    assert(nodes@.take(0) =~= Seq::empty());
    assert(start + Seq::<Seq<char>>::empty() =~= start);
    while i < nodes.len()
        invariant
            i <= nodes@.len(),
            hollow == all_hollow(nodes@.take(i as int)),
            out.deep_view() == start + hollows_in(dir@, nodes@.take(i as int)),
        decreases nodes@.len() - i,
    {
        let ghost done = hollows_in(dir@, nodes@.take(i as int));
        proof {
            reveal_with_fuel(hollows_in, 2);
            reveal_with_fuel(hollows_at, 2);
            reveal_with_fuel(all_hollow, 2);
            reveal_with_fuel(is_hollow, 2);
            assert(nodes@.take(i + 1).drop_last() =~= nodes@.take(i as int));
            assert(nodes@.take(i + 1).last() == nodes@[i as int]);
        }
        match &nodes[i] {
            Node::Folder { name, entries } => {
                let path = paths::join(dir, name.as_str());
                let ghost before = out.deep_view();
                assert(decreases_to!(nodes => nodes@[i as int]));
                let empty = push_hollows(path.as_str(), entries, out);
                let ghost inner = hollows_in(path@, entries@);
                if empty {
                    let ghost all_inner = out.deep_view();
                    out.push(path);
                    assert(out.deep_view() =~= all_inner.push(path@));
                    assert(out.deep_view() =~= start + (done + inner.push(path@)));
                } else {
                    hollow = false;
                    assert(out.deep_view() =~= start + (done + inner));
                }
            },
            _ => {
                hollow = false;
                assert(done + Seq::<Seq<char>>::empty() =~= done);
            },
        }
        i = i + 1;
    }
    assert(nodes@.take(nodes@.len() as int) =~= nodes@);
    hollow
}

/// The folders of a game folder to remove because there is no file in them, the inner ones first.
/// The game folder itself is never one of them.
pub fn prune_empty_dirs(tree: &Vec<Node>) -> (r: Vec<String>)
    ensures
        r.deep_view() == hollows_in(""@, tree@),
{
    let mut out: Vec<String> = Vec::new();
    let ghost none = out.deep_view();
    let _ = push_hollows("", tree, &mut out);
    assert(none =~= Seq::empty());
    assert(out.deep_view() =~= hollows_in(""@, tree@));
    out
}

/// What a manifest lists is never swept away, nor is the local configuration, a file in the making
/// or a backup; everything else that lies in the folder is.
pub proof fn law_sweep_removes_exactly_orphans(
    list: Seq<ResourceItemView>,
    files: Seq<Seq<char>>,
    rel: Seq<char>,
)
    ensures
        orphans(list, files).contains(rel) <==> files.contains(rel) && is_orphan(list, rel),
    decreases files.len(),
{
    if files.len() > 0 {
        let before = files.drop_last();
        law_sweep_removes_exactly_orphans(list, before, rel);
        let swept = orphans(list, before);
        let last = files.last();
        if files.contains(rel) {
            let k = choose|k: int| 0 <= k < files.len() && files[k] == rel;
            assert(k == files.len() - 1 || before[k] == rel);
        }
        if before.contains(rel) {
            let k = choose|k: int| 0 <= k < before.len() && before[k] == rel;
            assert(files[k] == rel);
        }
        if is_orphan(list, last) {
            assert(swept.push(last)[swept.len() as int] == last);
            if swept.contains(rel) {
                let k = choose|k: int| 0 <= k < swept.len() && swept[k] == rel;
                assert(swept.push(last)[k] == rel);
            }
            if swept.push(last).contains(rel) {
                let k = choose|k: int| 0 <= k < swept.push(last).len() && swept.push(last)[k] == rel;
                assert(k == swept.len() || swept[k] == rel);
            }
        }
        assert(files[files.len() - 1] == last);
    }
}

/// A file that lies where a manifest puts it is no orphan.
pub proof fn law_listed_files_stay(list: Seq<ResourceItemView>, i: int)
    requires
        0 <= i < list.len(),
    ensures
        !is_orphan(list, paths::relative(list[i].dest)),
{
    assert(listed_path(list[i]) == slashed(paths::relative(list[i].dest)));
}

/// A folder is pruned only where no file lies below it.
pub proof fn law_pruned_folders_hold_no_files(dir: Seq<char>, nodes: Seq<Node>)
    requires
        all_hollow(nodes),
    ensures
        files_in(dir, nodes) == Ok::<Seq<Seq<char>>, ErrorView>(Seq::empty()),
    decreases nodes,
{
    reveal_with_fuel(files_in, 2);
    reveal_with_fuel(files_at, 2);
    reveal_with_fuel(all_hollow, 2);
    reveal_with_fuel(is_hollow, 2);
    if nodes.len() > 0 {
        law_pruned_folders_hold_no_files(dir, nodes.drop_last());
        let last = nodes.last();
        if let Node::Folder { name, entries } = last {
            assert(decreases_to!(nodes => nodes[nodes.len() - 1]));
            law_pruned_folders_hold_no_files(paths::joined(dir, name@), entries@);
        }
        assert(Seq::<Seq<char>>::empty() + Seq::<Seq<char>>::empty() =~= Seq::empty());
    }
}

}
