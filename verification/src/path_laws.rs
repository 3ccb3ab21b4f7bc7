//! What the names and the places of files are.

use vstd::prelude::*;

use crate::address_laws;
use crate::apply;
use crate::apply::ApplyTask;
use crate::checkout;
use crate::paths;
use crate::predownload;
use crate::predownload::PendingGroupView;
use crate::state;
use crate::sync;
use crate::text;
use crate::text_laws;
use crate::types::{FileRefView, ResourceItemView};

verus! {

/// Whether a text is the name of a file or a folder: not empty, without a slash, and neither `.` nor
/// `..`.
pub open spec fn is_name(name: Seq<char>) -> bool {
    &&& name.len() > 0
    &&& name != seq!['.']
    &&& name != seq!['.', '.']
    &&& forall|i: int| 0 <= i < name.len() ==> #[trigger] name[i] != '/'
}

/// Whether a text can stand before a name: nothing, or something that ends with a slash.
pub open spec fn is_front(front: Seq<char>) -> bool {
    front.len() > 0 ==> front.last() == '/'
}

/// What stands behind the last slash is the last segment, whatever it is.
pub proof fn law_last_segment(front: Seq<char>, name: Seq<char>)
    requires
        is_front(front),
        forall|i: int| 0 <= i < name.len() ==> #[trigger] name[i] != '/',
    ensures
        text::last_segment(front + name) == name,
{
    let s = front + name;
    text::lemma_trail_is(s, text::is_other_than('/'), name.len() as int);
    assert(s.skip(front.len() as int) =~= name);
}

proof fn lemma_core(front: Seq<char>, name: Seq<char>)
    requires
        is_front(front),
        is_name(name),
    ensures
        paths::core_len(front + name) == (front + name).len(),
        paths::last_part(front + name) == name,
        paths::names_file(front + name),
{
    let s = front + name;
    assert(s.last() == name.last());
    if name.len() == 1 {
        assert(name =~= seq![name[0]]);
        assert(name[0] != '.');
    } else {
        assert(s[s.len() - 2] == name[name.len() - 2]);
    }
    assert(s.take(s.len() as int) =~= s);
    law_last_segment(front, name);
}

/// The name of a path is what stands behind its last slash.
pub proof fn law_name_of_a_path(front: Seq<char>, name: Seq<char>)
    requires
        is_front(front),
        is_name(name),
    ensures
        paths::name_of(front + name) == Some(name),
        paths::name_of(front + name + seq!['/']) == Some(name),
{
    lemma_core(front, name);
    let s = front + name;
    let t = s + seq!['/'];
    assert(t.last() == '/');
    assert(t.drop_last() =~= s);
    assert(paths::core_len(t) == paths::core_len(s));
    assert(t.take(s.len() as int) =~= s.take(s.len() as int));
}

/// A path that ends in `..` has no name, and no extension is put on it.
pub proof fn law_parent_has_no_name(front: Seq<char>, ext: Seq<char>)
    requires
        is_front(front),
    ensures
        paths::name_of(front + seq!['.', '.']) is None,
        paths::with_ext(front + seq!['.', '.'], ext) == front + seq!['.', '.'],
{
    let s = front + seq!['.', '.'];
    assert(s[s.len() - 1] == '.' && s[s.len() - 2] == '.');
    assert(paths::core_len(s) == s.len());
    assert(s.take(s.len() as int) =~= s);
    law_last_segment(front, seq!['.', '.']);
}

/// A name without a dot, or with none but in front, gets the extension behind it.
pub proof fn law_extension_is_added(front: Seq<char>, name: Seq<char>, ext: Seq<char>)
    requires
        is_front(front),
        is_name(name),
        forall|i: int| 0 < i < name.len() ==> #[trigger] name[i] != '.',
        ext.len() > 0,
    ensures
        paths::with_ext(front + name, ext) == front + name + seq!['.'] + ext,
{
    reveal_strlit(".");
    assert("."@ =~= seq!['.']);
    lemma_core(front, name);
    let s = front + name;
    let p = text::is_other_than('.');
    if name[0] == '.' {
        text::lemma_trail_is(name, p, name.len() - 1);
    } else {
        assert forall|i: int| 0 <= i < name.len() implies p(name[i]) by {}
        text::lemma_trail_is(name, p, name.len() as int);
    }
    assert(paths::stem_len(name) == name.len());
    assert(s.take(s.len() as int) =~= s);
}

/// The places that an update uses besides: what it keeps, its record, and where its staging folder goes.
pub proof fn law_places_of_an_update(folder: Seq<char>, n: nat)
    requires
        folder.len() > 0,
        folder.last() != '/',
    ensures
        ({
            let kept = address_laws::slashed(
                address_laws::slashed(folder, ".incremental_download"@),
                ".kept"@,
            );
            &&& state::kept_folder(folder) == kept
            &&& state::slot(folder, n) == address_laws::slashed(kept, text::decimal(n))
            &&& state::staged_config(folder) == address_laws::slashed(
                kept,
                "launcherDownloadConfig.json"@,
            )
            &&& state::discarded(folder) == address_laws::slashed(
                folder,
                ".incremental_download.old"@,
            )
        }),
{
    reveal_strlit(".incremental_download");
    reveal_strlit(".incremental_download.old");
    reveal_strlit(".kept");
    reveal_strlit("launcherDownloadConfig.json");
    reveal_strlit("/");
    assert("/"@ =~= seq!['/']);
    assert(state::INCREMENTAL_DIR@ == ".incremental_download"@);
    assert(state::DISCARDED_DIR@ == ".incremental_download.old"@);
    assert(state::KEPT_DIR@ == ".kept"@);
    assert(state::LOCAL_CONFIG_FILE@ == "launcherDownloadConfig.json"@);
    text::lemma_decimal_is_digits(n);
    let staging = state::staging(folder);
    assert(staging.last() == 'd');
    let kept = state::kept_folder(folder);
    assert(kept.last() == 't');
}

/// A slash, or a slash and a dot, at the end of a path changes neither its name nor what becomes of its
/// extension.
pub proof fn law_trailing_parts(path: Seq<char>, ext: Seq<char>)
    ensures
        paths::name_of(path + seq!['/']) == paths::name_of(path),
        paths::name_of(path + seq!['/', '.']) == paths::name_of(path),
        paths::name_of(path) is Some ==> paths::with_ext(path + seq!['/'], ext) == paths::with_ext(
            path,
            ext,
        ),
{
    let a = path + seq!['/'];
    let b = path + seq!['/', '.'];
    assert(a.last() == '/' && a.drop_last() =~= path);
    assert(b[b.len() - 1] == '.' && b[b.len() - 2] == '/' && b.drop_last() =~= a);
    assert(paths::core_len(a) == paths::core_len(path));
    assert(paths::core_len(b) == paths::core_len(a));
    lemma_core_bound(path);
    let n = paths::core_len(path) as int;
    assert(a.take(n) =~= path.take(n));
    assert(b.take(n) =~= path.take(n));
    if paths::name_of(path) is Some {
        let name = paths::last_part(path);
        lemma_stem(path.take(n), name);
        let cut = n - name.len() + paths::stem_len(name);
        assert(a.take(cut) =~= path.take(cut));
    }
}

proof fn lemma_core_bound(path: Seq<char>)
    ensures
        paths::core_len(path) <= path.len(),
    decreases path.len(),
{
    if path.len() > 0 {
        lemma_core_bound(path.drop_last());
    }
}

proof fn lemma_stem(s: Seq<char>, name: Seq<char>)
    requires
        name == text::last_segment(s),
    ensures
        name.len() <= s.len(),
        paths::stem_len(name) <= name.len(),
{
    text_laws::lemma_trail(s, text::is_other_than('/'));
    text_laws::lemma_trail(name, text::is_other_than('.'));
}

/// Without a new extension the old one goes.
pub proof fn law_extension_is_dropped(front: Seq<char>, stem: Seq<char>, ext: Seq<char>)
    requires
        is_front(front),
        stem.len() > 0,
        ext.len() > 0,
        forall|i: int| 0 <= i < stem.len() ==> #[trigger] stem[i] != '/',
        forall|i: int| 0 <= i < ext.len() ==> #[trigger] ext[i] != '/' && ext[i] != '.',
    ensures
        paths::with_ext(front + stem + seq!['.'] + ext, Seq::empty()) == front + stem,
{
    let name = stem + seq!['.'] + ext;
    let s = front + name;
    assert(s =~= front + stem + seq!['.'] + ext);
    assert(name.len() >= 3);
    assert(is_name(name));
    lemma_core(front, name);
    let p = text::is_other_than('.');
    let n = ext.len() as int;
    assert(name[name.len() - n - 1] == '.');
    assert forall|i: int| name.len() - n <= i < name.len() implies p(name[i]) by {
        assert(name[i] == ext[i - (name.len() - n)]);
    }
    text::lemma_trail_is(name, p, n);
    assert(paths::stem_len(name) == stem.len());
    assert(s.take((front.len() + stem.len()) as int) =~= front + stem);
}

/// A file of a manifest lies in the folder under its path without the slashes in front, whatever the
/// folder.
pub proof fn law_inside_any_folder(folder: Seq<char>, d: Seq<char>, n: nat)
    requires
        d.len() > 0 ==> d[0] != '/',
    ensures
        paths::inside(folder, text_laws::repeated('/', n) + d) == paths::joined(folder, d),
{
    text_laws::law_padded_front(d, '/', n);
}

/// The places of an installation, whatever its folder.
pub proof fn law_places_in_any_folder(folder: Seq<char>, dest: Seq<char>, n: nat)
    ensures
        state::staging(folder) == paths::joined(folder, ".incremental_download"@),
        state::staged_patch(folder, dest) == paths::joined(state::staging(folder), dest),
        state::staged_resource(folder, dest) == paths::inside(
            paths::joined(state::staging(folder), "resources"@),
            dest,
        ),
        state::staged_output(folder, dest) == paths::inside(state::staging(folder), dest),
        state::kept_folder(folder) == paths::joined(state::staging(folder), ".kept"@),
        state::slot(folder, n) == paths::joined(state::kept_folder(folder), text::decimal(n)),
        state::staged_config(folder) == paths::joined(
            state::kept_folder(folder),
            "launcherDownloadConfig.json"@,
        ),
        state::discarded(folder) == paths::joined(folder, ".incremental_download.old"@),
        state::config_file(folder) == paths::joined(folder, "launcherDownloadConfig.json"@),
{
}

/// Where each file that is fetched goes, and through which temporary file.
pub proof fn law_places_of_downloads(
    folder: Seq<char>,
    cdn: Seq<char>,
    base_url: Seq<char>,
    list: Seq<ResourceItemView>,
    p: PendingGroupView,
    item: ResourceItemView,
    md5: Seq<char>,
)
    ensures
        ({
            let job = predownload::patch_job(folder, cdn, base_url, list, p);
            &&& job.target == state::staged_patch(folder, p.name)
            &&& job.tmp == paths::with_ext(job.target, "krpdiff.tmp"@)
        }),
        ({
            let r = predownload::file_job(folder, cdn, list, p.name);
            r is Ok ==> r->Ok_0.target == state::staged_resource(folder, r->Ok_0.name)
                && r->Ok_0.tmp == paths::with_ext(r->Ok_0.target, "tmp"@)
        }),
        ({
            let job = sync::repair_job(folder, cdn, base_url, item);
            &&& job.target == paths::inside(folder, item.dest)
            &&& job.tmp == paths::with_ext(job.target, "sync.tmp"@)
        }),
        ({
            let job = checkout::channel_job(folder, cdn, base_url, item.dest, md5);
            &&& job.name == item.dest
            &&& job.target == paths::inside(folder, item.dest)
            &&& job.tmp == paths::with_ext(job.target, "checkout.tmp"@)
            &&& job.md5 == Some(md5)
        }),
{
}

/// Where a file that is fetched whole after its patch failed goes, and through which temporary file.
pub proof fn law_place_of_a_fallback(task: ApplyTask, file: FileRefView)
    ensures
        apply::fallback_job(task, file).target == state::staged_output(task.game_folder, file.dest),
        apply::fallback_job(task, file).tmp == paths::with_ext(
            state::staged_output(task.game_folder, file.dest),
            "tmp"@,
        ),
{
}

}
