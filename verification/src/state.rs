//! Where the files of an installation lie.

use vstd::prelude::*;

use crate::moves;
use crate::paths;
use crate::text;
use crate::types::{LocalConfig, LocalConfigView};

verus! {

/// The file that holds the installed version and app id.
pub const LOCAL_CONFIG_FILE: &'static str = "launcherDownloadConfig.json";

/// The folder that holds what was downloaded for an update.
pub const INCREMENTAL_DIR: &'static str = ".incremental_download";

/// The folder inside the staging folder that holds what an update replaced and removed.
pub const KEPT_DIR: &'static str = ".kept";

/// What the staging folder is called while it is removed.
pub const DISCARDED_DIR: &'static str = ".incremental_download.old";

/// The folder that holds the tool's own cache.
pub const CACHE_DIR: &'static str = ".kuro_cache";

/// The staging folder of a game folder.
pub open spec fn staging(game_folder: Seq<char>) -> Seq<char> {
    paths::joined(game_folder, INCREMENTAL_DIR@)
}

/// Where a patch is staged.
pub open spec fn staged_patch(game_folder: Seq<char>, name: Seq<char>) -> Seq<char> {
    paths::joined(staging(game_folder), name)
}

/// Where a full file is staged.
pub open spec fn staged_resource(game_folder: Seq<char>, dest: Seq<char>) -> Seq<char> {
    paths::inside(paths::joined(staging(game_folder), "resources"@), dest)
}

/// Where the result of a patch is staged.
pub open spec fn staged_output(game_folder: Seq<char>, dest: Seq<char>) -> Seq<char> {
    paths::inside(staging(game_folder), dest)
}

/// The folder that holds what an update replaced and removed, until it is recorded.
pub open spec fn kept_folder(game_folder: Seq<char>) -> Seq<char> {
    paths::joined(staging(game_folder), KEPT_DIR@)
}

/// A place for something that is kept, by its number.
pub open spec fn slot(game_folder: Seq<char>, n: nat) -> Seq<char> {
    paths::joined(kept_folder(game_folder), text::decimal(n))
}

/// Where the local configuration is staged.
pub open spec fn staged_config(game_folder: Seq<char>) -> Seq<char> {
    paths::joined(kept_folder(game_folder), LOCAL_CONFIG_FILE@)
}

/// Where the staging folder is moved once an update is recorded, to be removed from there.
pub open spec fn discarded(game_folder: Seq<char>) -> Seq<char> {
    paths::joined(game_folder, DISCARDED_DIR@)
}

/// Where the local configuration of a game folder lies.
pub open spec fn config_file(game_folder: Seq<char>) -> Seq<char> {
    paths::joined(game_folder, LOCAL_CONFIG_FILE@)
}

/// The staging folder of a game folder.
pub fn incremental_dir(game_folder: &str) -> (r: String)
    ensures
        r@ == staging(game_folder@),
{
    paths::join(game_folder, INCREMENTAL_DIR)
}

/// The cache folder of a game folder.
pub fn cache_dir(game_folder: &str) -> (r: String)
    ensures
        r@ == paths::joined(game_folder@, CACHE_DIR@),
        r@ == paths::joined(game_folder@, ".kuro_cache"@),
{
    paths::join(game_folder, CACHE_DIR)
}

/// Where a patch is staged.
pub fn staged_patch_path(game_folder: &str, name: &str) -> (r: String)
    ensures
        r@ == staged_patch(game_folder@, name@),
{
    let dir = incremental_dir(game_folder);
    paths::join(dir.as_str(), name)
}

/// Where a full file is staged.
pub fn staged_resource_path(game_folder: &str, dest: &str) -> (r: String)
    ensures
        r@ == staged_resource(game_folder@, dest@),
{
    let dir = incremental_dir(game_folder);
    let resources = paths::join(dir.as_str(), "resources");
    paths::join_inside(resources.as_str(), dest)
}

/// Where the result of a patch is staged.
pub fn staged_output_path(game_folder: &str, dest: &str) -> (r: String)
    ensures
        r@ == staged_output(game_folder@, dest@),
{
    let dir = incremental_dir(game_folder);
    paths::join_inside(dir.as_str(), dest)
}

/// The folder that holds what an update replaced and removed, until it is recorded.
pub fn kept_dir(game_folder: &str) -> (r: String)
    ensures
        r@ == kept_folder(game_folder@),
{
    let dir = incremental_dir(game_folder);
    paths::join(dir.as_str(), KEPT_DIR)
}

/// A place for something that is kept, by its number.
pub fn slot_path(game_folder: &str, n: usize) -> (r: String)
    ensures
        r@ == slot(game_folder@, n as nat),
{
    let dir = kept_dir(game_folder);
    let name = text::number(n as u64);
    paths::join(dir.as_str(), name.as_str())
}

/// Where the local configuration is staged.
pub fn staged_config_path(game_folder: &str) -> (r: String)
    ensures
        r@ == staged_config(game_folder@),
{
    let dir = kept_dir(game_folder);
    paths::join(dir.as_str(), LOCAL_CONFIG_FILE)
}

/// Where the staging folder is moved once an update is recorded, to be removed from there.
pub fn discarded_dir(game_folder: &str) -> (r: String)
    ensures
        r@ == discarded(game_folder@),
{
    paths::join(game_folder, DISCARDED_DIR)
}

/// Where the local configuration of a game folder lies.
pub fn local_config_path(game_folder: &str) -> (r: String)
    ensures
        r@ == config_file(game_folder@),
{
    paths::join(game_folder, LOCAL_CONFIG_FILE)
}

/// The configuration of an installation of `version` with the app id `app_id`.
pub open spec fn config_of(version: Seq<char>, app_id: Seq<char>) -> LocalConfigView {
    LocalConfigView { version, app_id, group: "default"@ }
}

/// The configuration of an installation of `version` with the app id `app_id`.
pub fn new_local_config(version: &str, app_id: &str) -> (r: LocalConfig)
    ensures
        r.deep_view() == config_of(version@, app_id@),
        r.version@ == version@,
        r.app_id@ == app_id@,
        r.group@ == "default"@,
{
    LocalConfig {
        version: version.to_owned(),
        app_id: app_id.to_owned(),
        group: "default".to_owned(),
    }
}

/// What is joined to the staging folder lies below it.
pub proof fn lemma_staging_holds(game_folder: Seq<char>, rel: Seq<char>)
    requires
        rel.len() == 0 || rel[0] != '/',
    ensures
        staging(game_folder).len() > 0,
        staging(game_folder).last() != '/',
        moves::is_under(staging(game_folder), paths::joined(staging(game_folder), rel)),
{
    reveal_strlit(".incremental_download");
    reveal_strlit("/");
    assert(INCREMENTAL_DIR@ == ".incremental_download"@);
    assert(staging(game_folder).last() == 'd');
    moves::lemma_joined_is_under(staging(game_folder), rel);
}

/// What a group or a download stages lies in the staging folder.
pub proof fn lemma_staged_is_staged(game_folder: Seq<char>, dest: Seq<char>)
    ensures
        moves::is_under(staging(game_folder), staged_output(game_folder, dest)),
        moves::is_under(staging(game_folder), staged_resource(game_folder, dest)),
{
    reveal_strlit("resources");
    let dir = paths::joined(staging(game_folder), "resources"@);
    paths::lemma_relative(dest);
    lemma_staging_holds(game_folder, "resources"@);
    lemma_staging_holds(game_folder, paths::relative(dest));
    assert(dir.last() == 's');
    moves::lemma_joined_is_under(dir, paths::relative(dest));
    moves::lemma_under_is_transitive(
        staging(game_folder),
        dir,
        staged_resource(game_folder, dest),
    );
}

/// The places of an update lie in its staging folder, apart from one another.
pub proof fn lemma_slots(game_folder: Seq<char>, i: nat)
    ensures
        moves::is_under(staging(game_folder), kept_folder(game_folder)),
        moves::is_under(kept_folder(game_folder), slot(game_folder, i)),
        moves::is_under(staging(game_folder), slot(game_folder, i)),
        moves::is_under(kept_folder(game_folder), staged_config(game_folder)),
        moves::is_under(staging(game_folder), staged_config(game_folder)),
        moves::are_apart(slot(game_folder, i), staged_config(game_folder)),
{
    reveal_strlit(".kept");
    reveal_strlit("launcherDownloadConfig.json");
    assert(KEPT_DIR@ == ".kept"@);
    assert(LOCAL_CONFIG_FILE@ == "launcherDownloadConfig.json"@);
    let kept = kept_folder(game_folder);
    lemma_staging_holds(game_folder, KEPT_DIR@);
    moves::lemma_joined_is_under(staging(game_folder), KEPT_DIR@);
    assert(kept.last() == 't');
    text::lemma_decimal(i, i);
    moves::lemma_joined_is_under(kept, text::decimal(i));
    moves::lemma_joined_is_under(kept, LOCAL_CONFIG_FILE@);
    moves::lemma_under_is_transitive(staging(game_folder), kept, slot(game_folder, i));
    moves::lemma_under_is_transitive(staging(game_folder), kept, staged_config(game_folder));
    assert(forall|k: int| 0 <= k < LOCAL_CONFIG_FILE@.len() ==> #[trigger] LOCAL_CONFIG_FILE@[k] != '/');
    text::lemma_decimal_is_digits(i);
    assert(LOCAL_CONFIG_FILE@[0] == 'l');
    moves::lemma_names_are_apart(kept, text::decimal(i), LOCAL_CONFIG_FILE@);
}

/// No two numbers have the same place, nor a place inside the other's.
pub proof fn law_slots_are_apart(game_folder: Seq<char>, i: nat, j: nat)
    requires
        i != j,
    ensures
        moves::are_apart(slot(game_folder, i), slot(game_folder, j)),
{
    reveal_strlit(".kept");
    assert(KEPT_DIR@ == ".kept"@);
    lemma_staging_holds(game_folder, KEPT_DIR@);
    let kept = kept_folder(game_folder);
    assert(kept.last() == 't');
    text::lemma_decimal(i, j);
    text::lemma_decimal_is_digits(i);
    text::lemma_decimal_is_digits(j);
    moves::lemma_names_are_apart(kept, text::decimal(i), text::decimal(j));
}

/// The local configuration and what is discarded lie apart from the staging folder.
pub proof fn lemma_outside_staging(game_folder: Seq<char>)
    ensures
        moves::are_apart(config_file(game_folder), staging(game_folder)),
        moves::are_apart(crate::atomic::backup_of(config_file(game_folder)), staging(game_folder)),
        moves::are_apart(discarded(game_folder), staging(game_folder)),
{
    reveal_strlit(".incremental_download");
    reveal_strlit(".incremental_download.old");
    reveal_strlit("launcherDownloadConfig.json");
    reveal_strlit(".bak");
    reveal_strlit("/");
    assert(INCREMENTAL_DIR@ == ".incremental_download"@);
    assert(DISCARDED_DIR@ == ".incremental_download.old"@);
    assert(LOCAL_CONFIG_FILE@ == "launcherDownloadConfig.json"@);
    let front = if game_folder.len() == 0 || game_folder.last() == '/' {
        game_folder
    } else {
        game_folder + "/"@
    };
    let n = front.len() as int;
    let dir = staging(game_folder);
    let old = discarded(game_folder);
    let file = config_file(game_folder);
    let backup = crate::atomic::backup_of(file);
    assert(dir[n] == '.' && old[n] == '.' && file[n] == 'l' && backup[n] == 'l');
    assert(old[n + 21] == '.');
    assert(file.take(dir.len() as int)[n] == 'l');
    assert(backup.take(dir.len() as int)[n] == 'l');
}

}
