//! What the addresses on the servers and the paths on the disk are made of.
//!
//! A server may be written with slashes behind it, a folder with slashes around it, and a file with
//! slashes before it: the laws here say what comes of each, however many they are.

use vstd::prelude::*;

use crate::apply;
use crate::apply::ApplyTask;
use crate::checkout;
use crate::client;
use crate::manifest;
use crate::paths;
use crate::predownload;
use crate::predownload::PendingGroupView;
use crate::state;
use crate::sync;
use crate::text;
use crate::text_laws;
use crate::text_laws::repeated;
use crate::types::{FileRefView, ResourceItemView};

verus! {

/// Whether a text ends without a slash.
pub open spec fn ends_bare(s: Seq<char>) -> bool {
    s.len() > 0 ==> s.last() != '/'
}

/// Whether a text begins without a slash.
pub open spec fn begins_bare(s: Seq<char>) -> bool {
    s.len() > 0 ==> s[0] != '/'
}

/// Texts with one slash between each two.
pub open spec fn slashed(a: Seq<char>, b: Seq<char>) -> Seq<char> {
    a + seq!['/'] + b
}

/// A server, however many slashes stand behind it.
pub open spec fn is_server(cdn: Seq<char>, c: Seq<char>, n: nat) -> bool {
    ends_bare(c) && cdn == c + repeated('/', n)
}

/// A folder, however many slashes stand around it.
pub open spec fn is_folder(folder: Seq<char>, f: Seq<char>, m: nat, n: nat) -> bool {
    begins_bare(f) && ends_bare(f) && folder == repeated('/', m) + f + repeated('/', n)
}

/// A file, however many slashes stand before it.
pub open spec fn is_file(dest: Seq<char>, d: Seq<char>, n: nat) -> bool {
    begins_bare(d) && dest == repeated('/', n) + d
}

proof fn lemma_slash()
    ensures
        "/"@ == seq!['/'],
{
    reveal_strlit("/");
    assert("/"@ =~= seq!['/']);
}

/// A full file lies on its server, in its folder, under its own path, with one slash between each
/// two of them.
pub proof fn law_resource_address(
    cdn: Seq<char>,
    folder: Seq<char>,
    dest: Seq<char>,
    c: Seq<char>,
    f: Seq<char>,
    d: Seq<char>,
    i: nat,
    j: nat,
    k: nat,
    l: nat,
)
    requires
        is_server(cdn, c, i),
        is_folder(folder, f, j, k),
        is_file(dest, d, l),
    ensures
        client::resource_address(cdn, folder, dest) == slashed(slashed(c, f), d),
{
    lemma_slash();
    text_laws::law_padded_back(c, '/', i);
    text_laws::law_padded(f, '/', j, k);
    text_laws::law_padded_front(d, '/', l);
}

/// A patch lies on its server, in the folder of its update, under its name.
pub proof fn law_patch_address(
    cdn: Seq<char>,
    folder: Seq<char>,
    name: Seq<char>,
    c: Seq<char>,
    f: Seq<char>,
    i: nat,
    j: nat,
    k: nat,
)
    requires
        is_server(cdn, c, i),
        is_folder(folder, f, j, k),
    ensures
        client::krpdiff_address(cdn, folder, name) == slashed(slashed(c, f), name),
{
    lemma_slash();
    text_laws::law_padded_back(c, '/', i);
    text_laws::law_padded(f, '/', j, k);
}

/// A manifest lies on its server, under its own path.
pub proof fn law_manifest_address(
    cdn: Seq<char>,
    file: Seq<char>,
    c: Seq<char>,
    d: Seq<char>,
    i: nat,
    l: nat,
)
    requires
        is_server(cdn, c, i),
        is_file(file, d, l),
    ensures
        client::manifest_address(cdn, file) == slashed(c, d),
{
    lemma_slash();
    text_laws::law_padded_back(c, '/', i);
    text_laws::law_padded_front(d, '/', l);
}

/// A relative path seen from a folder is the folder, one slash and the path; an absolute one stands
/// for itself.
pub proof fn law_joined(base: Seq<char>, rel: Seq<char>)
    ensures
        rel.len() > 0 && rel[0] == '/' ==> paths::joined(base, rel) == rel,
        begins_bare(rel) && base.len() > 0 && base.last() != '/' ==> paths::joined(base, rel)
            == slashed(base, rel),
        begins_bare(rel) && base.len() > 0 && base.last() == '/' ==> paths::joined(base, rel) == base
            + rel,
        begins_bare(rel) && base.len() == 0 ==> paths::joined(base, rel) == rel,
{
    lemma_slash();
    if base.len() == 0 {
        assert(base + rel =~= rel);
    }
}

/// A file of a manifest lies below its folder, however many slashes its path begins with.
pub proof fn law_inside(folder: Seq<char>, dest: Seq<char>, d: Seq<char>, l: nat)
    requires
        is_file(dest, d, l),
        folder.len() > 0,
        folder.last() != '/',
    ensures
        paths::inside(folder, dest) == slashed(folder, d),
{
    text_laws::law_padded_front(d, '/', l);
    law_joined(folder, d);
}

/// The places of an installation: the staging folder, the full files and the results of patches in
/// it, and the local configuration.
pub proof fn law_places(folder: Seq<char>, dest: Seq<char>, d: Seq<char>, l: nat)
    requires
        is_file(dest, d, l),
        folder.len() > 0,
        folder.last() != '/',
    ensures
        state::staging(folder) == slashed(folder, ".incremental_download"@),
        state::staged_output(folder, dest) == slashed(slashed(folder, ".incremental_download"@), d),
        state::staged_resource(folder, dest) == slashed(
            slashed(slashed(folder, ".incremental_download"@), "resources"@),
            d,
        ),
        state::config_file(folder) == slashed(folder, "launcherDownloadConfig.json"@),
        begins_bare(dest) ==> state::staged_patch(folder, dest) == slashed(
            slashed(folder, ".incremental_download"@),
            dest,
        ),
{
    reveal_strlit(".incremental_download");
    reveal_strlit("launcherDownloadConfig.json");
    reveal_strlit("resources");
    assert(state::INCREMENTAL_DIR@ == ".incremental_download"@);
    assert(state::LOCAL_CONFIG_FILE@ == "launcherDownloadConfig.json"@);
    law_joined(folder, ".incremental_download"@);
    law_joined(folder, "launcherDownloadConfig.json"@);
    let staging = state::staging(folder);
    assert(staging.last() == 'd');
    law_joined(staging, "resources"@);
    law_joined(staging, dest);
    let full = paths::joined(staging, "resources"@);
    assert(full.last() == 's');
    law_inside(staging, dest, d, l);
    law_inside(full, dest, d, l);
}

proof fn lemma_segment(front: Seq<char>, name: Seq<char>)
    requires
        front.len() > 0 ==> front.last() == '/',
        forall|i: int| 0 <= i < name.len() ==> #[trigger] name[i] != '/',
    ensures
        text::last_segment(front + name) == name,
{
    let s = front + name;
    let p = text::is_other_than('/');
    assert forall|i: int| s.len() - name.len() <= i < s.len() implies p(s[i]) by {
        assert(s[i] == name[i - front.len()]);
    }
    text::lemma_trail_is(s, p, name.len() as int);
    assert(s.skip(front.len() as int) =~= name);
}

/// The extension of a file name is what stands behind its last dot, and it is what is replaced.
pub proof fn law_extension_is_replaced(
    front: Seq<char>,
    stem: Seq<char>,
    old_ext: Seq<char>,
    ext: Seq<char>,
)
    requires
        front.len() > 0 ==> front.last() == '/',
        stem.len() > 0,
        old_ext.len() > 0,
        ext.len() > 0,
        stem != seq!['.'],
        forall|i: int| 0 <= i < stem.len() ==> #[trigger] stem[i] != '/',
        forall|i: int|
            0 <= i < old_ext.len() ==> #[trigger] old_ext[i] != '/' && old_ext[i] != '.',
    ensures
        paths::with_ext(front + stem + seq!['.'] + old_ext, ext) == front + stem + seq!['.'] + ext,
{
    reveal_strlit(".");
    assert("."@ =~= seq!['.']);
    let name = stem + seq!['.'] + old_ext;
    let path = front + stem + seq!['.'] + old_ext;
    assert(path =~= front + name);
    assert(path.last() == old_ext.last());
    assert(paths::core_len(path) == path.len());
    assert(path.take(path.len() as int) =~= path);
    assert forall|i: int| 0 <= i < name.len() implies #[trigger] name[i] != '/' by {
        if i < stem.len() {
            assert(name[i] == stem[i]);
        } else if i > stem.len() {
            assert(name[i] == old_ext[i - stem.len() - 1]);
        }
    }
    lemma_segment(front, name);
    assert(paths::last_part(path) == name);
    let p = text::is_other_than('.');
    assert forall|i: int| name.len() - old_ext.len() <= i < name.len() implies p(name[i]) by {
        assert(name[i] == old_ext[i - stem.len() - 1]);
    }
    text::lemma_trail_is(name, p, old_ext.len() as int);
    assert(name.last() != '.');
    assert(name != seq!['.'] && name != seq!['.', '.']) by {
        assert(seq!['.'].last() == '.' && seq!['.', '.'].last() == '.');
    }
    assert(path.take((front.len() + stem.len()) as int) =~= front + stem);
}

/// A file that is fetched whole because its patch failed, and for which the manifest names no folder,
/// comes from the folder of the update; where the manifest names one, it comes from there. It must
/// have the size and the digest that the group gives, or the digest of the manifest where it comes in
/// ranges, and goes to where the results of patches are staged.
pub proof fn law_failed_patch_is_fetched_from(
    task: ApplyTask,
    file: FileRefView,
    c: Seq<char>,
    f: Seq<char>,
    d: Seq<char>,
    i: nat,
    j: nat,
    k: nat,
    l: nat,
)
    requires
        is_server(task.cdn, c, i),
        is_file(file.dest, d, l),
    ensures
        ({
            let job = apply::fallback_job(task, file);
            let entry = manifest::entry_for(task.index.resource, file.dest);
            &&& job.name == file.dest
            &&& job.size == Some(file.size)
            &&& (entry is None || entry->0.from_folder is None) && is_folder(task.base_url, f, j, k)
                ==> job.url == slashed(slashed(c, f), d) && job.chunks.len() == 0 && job.md5
                == Some(file.md5)
            &&& entry is Some && entry->0.from_folder is Some && is_folder(
                entry->0.from_folder->0,
                f,
                j,
                k,
            ) ==> job.url == slashed(slashed(c, f), d) && job.chunks == entry->0.chunk_infos
                && job.md5 == Some(
                if entry->0.chunk_infos.len() == 0 {
                    file.md5
                } else {
                    entry->0.md5
                },
            )
            &&& task.game_folder.len() > 0 && task.game_folder.last() != '/' ==> job.target
                == slashed(slashed(task.game_folder, ".incremental_download"@), d)
        }),
{
    let entry = manifest::entry_for(task.index.resource, file.dest);
    if (entry is None || entry->0.from_folder is None) && is_folder(task.base_url, f, j, k) {
        law_resource_address(task.cdn, task.base_url, file.dest, c, f, d, i, j, k, l);
    }
    if entry is Some && entry->0.from_folder is Some && is_folder(
        entry->0.from_folder->0,
        f,
        j,
        k,
    ) {
        law_resource_address(task.cdn, entry->0.from_folder->0, file.dest, c, f, d, i, j, k, l);
    }
    if task.game_folder.len() > 0 && task.game_folder.last() != '/' {
        law_places(task.game_folder, file.dest, d, l);
    }
}

/// A patch of a plan comes from the folder of the update under its name, must have the size of the
/// plan and the digest of the manifest where that gives one, and goes to the staging folder under its
/// name.
pub proof fn law_patch_is_fetched_from(
    folder: Seq<char>,
    cdn: Seq<char>,
    base_url: Seq<char>,
    list: Seq<ResourceItemView>,
    p: PendingGroupView,
    c: Seq<char>,
    f: Seq<char>,
    i: nat,
    j: nat,
    k: nat,
)
    requires
        is_server(cdn, c, i),
        is_folder(base_url, f, j, k),
        begins_bare(p.name),
        folder.len() > 0,
        folder.last() != '/',
    ensures
        ({
            let job = predownload::patch_job(folder, cdn, base_url, list, p);
            let entry = manifest::entry_for(list, p.name);
            &&& job.name == p.name
            &&& job.url == slashed(slashed(c, f), p.name)
            &&& job.target == slashed(slashed(folder, ".incremental_download"@), p.name)
            &&& job.size == Some(p.size)
            &&& job.chunks.len() == 0
            &&& entry is Some && entry->0.md5.len() > 0 ==> job.md5 == Some(entry->0.md5)
            &&& entry is None || entry->0.md5.len() == 0 ==> job.md5 is None
        }),
{
    law_patch_address(cdn, base_url, p.name, c, f, i, j, k);
    assert(repeated('/', 0) + p.name =~= p.name);
    law_places(folder, p.name, p.name, 0);
}

/// A full file of a plan comes from the folder that its entry names, must be what the entry says, and
/// goes to the full files of the staging folder; without an entry, or without a folder, there is
/// nothing to fetch.
pub proof fn law_full_file_is_fetched_from(
    folder: Seq<char>,
    cdn: Seq<char>,
    list: Seq<ResourceItemView>,
    name: Seq<char>,
    c: Seq<char>,
    f: Seq<char>,
    d: Seq<char>,
    i: nat,
    j: nat,
    k: nat,
    l: nat,
)
    requires
        is_server(cdn, c, i),
        is_file(name, d, l),
        folder.len() > 0,
        folder.last() != '/',
    ensures
        ({
            let r = predownload::file_job(folder, cdn, list, name);
            let entry = manifest::entry_for(list, name);
            &&& r is Ok <==> entry is Some && entry->0.from_folder is Some
            &&& r is Ok && is_folder(entry->0.from_folder->0, f, j, k) ==> {
                &&& r->Ok_0.url == slashed(slashed(c, f), d)
                &&& r->Ok_0.target == slashed(
                    slashed(slashed(folder, ".incremental_download"@), "resources"@),
                    d,
                )
                &&& r->Ok_0.size == Some(entry->0.size)
                &&& r->Ok_0.md5 == Some(entry->0.md5)
                &&& entry->0.chunk_infos.len() > 0 ==> r->Ok_0.chunks == entry->0.chunk_infos
            }
        }),
{
    let entry = manifest::entry_for(list, name);
    manifest::lemma_entry_at(list, name);
    if entry is Some && entry->0.from_folder is Some && is_folder(
        entry->0.from_folder->0,
        f,
        j,
        k,
    ) {
        law_resource_address(cdn, entry->0.from_folder->0, name, c, f, d, i, j, k, l);
        law_places(folder, name, d, l);
    }
}

/// A damaged file comes from the folder that its entry names, else from that of the release, must be
/// what the entry says, and goes to its place in the game.
pub proof fn law_damaged_file_is_fetched_from(
    folder: Seq<char>,
    cdn: Seq<char>,
    base_url: Seq<char>,
    item: ResourceItemView,
    c: Seq<char>,
    f: Seq<char>,
    d: Seq<char>,
    i: nat,
    j: nat,
    k: nat,
    l: nat,
)
    requires
        is_server(cdn, c, i),
        is_file(item.dest, d, l),
        item.from_folder is Some ==> is_folder(item.from_folder->0, f, j, k),
        item.from_folder is None ==> is_folder(base_url, f, j, k),
        folder.len() > 0,
        folder.last() != '/',
    ensures
        ({
            let job = sync::repair_job(folder, cdn, base_url, item);
            &&& job.name == item.dest
            &&& job.url == slashed(slashed(c, f), d)
            &&& job.target == slashed(folder, d)
            &&& job.size == Some(item.size)
            &&& job.md5 == Some(item.md5)
            &&& item.chunk_infos.len() > 0 ==> job.chunks == item.chunk_infos
        }),
{
    let from = match item.from_folder {
        Some(x) => x,
        None => base_url,
    };
    law_resource_address(cdn, from, item.dest, c, f, d, i, j, k, l);
    law_inside(folder, item.dest, d, l);
}

/// A channel file comes from the folder of the channel's release, must have the digest of its
/// manifest, and goes to its place in the game.
pub proof fn law_channel_file_is_fetched_from(
    folder: Seq<char>,
    cdn: Seq<char>,
    base_url: Seq<char>,
    dest: Seq<char>,
    md5: Seq<char>,
    c: Seq<char>,
    f: Seq<char>,
    d: Seq<char>,
    i: nat,
    j: nat,
    k: nat,
    l: nat,
)
    requires
        is_server(cdn, c, i),
        is_folder(base_url, f, j, k),
        is_file(dest, d, l),
        folder.len() > 0,
        folder.last() != '/',
    ensures
        ({
            let job = checkout::channel_job(folder, cdn, base_url, dest, md5);
            &&& job.name == dest
            &&& job.url == slashed(slashed(c, f), d)
            &&& job.target == slashed(folder, d)
            &&& job.md5 == Some(md5)
            &&& job.size is None
            &&& job.chunks.len() == 0
        }),
{
    law_resource_address(cdn, base_url, dest, c, f, d, i, j, k, l);
    law_inside(folder, dest, d, l);
}

}
