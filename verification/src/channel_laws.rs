//! What a switch of the channel swaps, asks for and records.

use vstd::prelude::*;

use crate::checkout;
use crate::checkout::{CheckoutActionView, CheckoutEventView, CheckoutTask};
use crate::config;
use crate::config::{Game, Server};
use crate::error::ErrorView;
use crate::manifest;
use crate::manifest::FetchJobView;
use crate::plan_laws;
use crate::types::ResourceItemView;

verus! {

/// Whether a manifest has an entry for a file.
pub open spec fn lists(list: Seq<ResourceItemView>, file: Seq<char>) -> bool {
    exists|i: int| 0 <= i < list.len() && (#[trigger] list[i]).dest == file
}

proof fn lemma_listed(list: Seq<ResourceItemView>, file: Seq<char>)
    ensures
        lists(list, file) <==> manifest::entry_for(list, file) is Some,
{
    plan_laws::law_last_entry_counts(list, file);
}

/// A switch swaps those of the channel files that the manifest lists: each once, in their order, and
/// nothing else.
pub proof fn law_listed_channel_files_are_swapped(
    game_folder: Seq<char>,
    cdn: Seq<char>,
    base_url: Seq<char>,
    list: Seq<ResourceItemView>,
    files: Seq<Seq<char>>,
)
    ensures
        checkout::channel_jobs(game_folder, cdn, base_url, list, files).map_values(
            |j: FetchJobView| j.name,
        ) == files.filter(|f: Seq<char>| lists(list, f)),
    decreases files.len(),
{
    reveal(Seq::filter);
    let name = |j: FetchJobView| j.name;
    let keep = |f: Seq<char>| lists(list, f);
    let now = checkout::channel_jobs(game_folder, cdn, base_url, list, files);
    if files.len() == 0 {
        assert(now.map_values(name) =~= files.filter(keep));
    } else {
        let rest = files.drop_last();
        law_listed_channel_files_are_swapped(game_folder, cdn, base_url, list, rest);
        lemma_listed(list, files.last());
        let before = checkout::channel_jobs(game_folder, cdn, base_url, list, rest);
        if keep(files.last()) {
            assert(now.map_values(name) =~= before.map_values(name).push(files.last()));
        }
    }
}

/// A channel file is checked against the digest of its last entry. Its size is not known beforehand,
/// and it comes in one stream.
pub proof fn law_channel_file_is_checked(
    game_folder: Seq<char>,
    cdn: Seq<char>,
    base_url: Seq<char>,
    list: Seq<ResourceItemView>,
    files: Seq<Seq<char>>,
    k: int,
    i: int,
)
    requires
        0 <= k < checkout::channel_jobs(game_folder, cdn, base_url, list, files).len(),
        0 <= i < list.len(),
        list[i].dest == checkout::channel_jobs(game_folder, cdn, base_url, list, files)[k].name,
        forall|j: int| i < j < list.len() ==> (#[trigger] list[j]).dest != list[i].dest,
    ensures
        ({
            let job = checkout::channel_jobs(game_folder, cdn, base_url, list, files)[k];
            &&& job == checkout::channel_job(
                game_folder,
                cdn,
                base_url,
                list[i].dest,
                list[i].md5,
            )
            &&& job.md5 == Some(list[i].md5)
            &&& job.size is None
            &&& job.chunks.len() == 0
        }),
    decreases files.len(),
{
    let rest = files.drop_last();
    let before = checkout::channel_jobs(game_folder, cdn, base_url, list, rest);
    if k < before.len() {
        law_channel_file_is_checked(game_folder, cdn, base_url, list, rest, k, i);
    } else {
        let file = files.last();
        plan_laws::law_last_entry_counts(list, file);
        let item = manifest::entry_for(list, file)->0;
        let m = choose|m: int|
            0 <= m < list.len() && #[trigger] list[m] == item && item.dest == file && forall|j: int|
                m < j < list.len() ==> (#[trigger] list[j]).dest != file;
        assert(list[m].dest == file && list[i].dest == file);
        assert(m == i);
    }
}

/// A switch of Wuthering Waves to a channel whose manifest lists both channel files swaps two files:
/// the login library and the pak of that channel.
pub proof fn law_switch_swaps_library_and_pak(
    server: Server,
    game_folder: Seq<char>,
    cdn: Seq<char>,
    base_url: Seq<char>,
    list: Seq<ResourceItemView>,
)
    requires
        server == Server::Bilibili ==> lists(list, "Client/Binaries/Win64/bilibili_sdk.dll"@)
            && lists(list, "Client/Content/Paks/pakchunk1-Bilibili-Win64-Shipping.pak"@),
        server != Server::Bilibili ==> lists(list, "Client/Binaries/Win64/kuro_login.dll"@) && lists(
            list,
            "Client/Content/Paks/pakchunk1-Kuro-Win64-Shipping.pak"@,
        ),
    ensures
        config::entry_of(Game::WuWa, server) is Some,
        ({
            let jobs = checkout::channel_jobs(
                game_folder,
                cdn,
                base_url,
                list,
                config::entry_of(Game::WuWa, server)->0.diff_files,
            );
            &&& jobs.len() == 2
            &&& server == Server::Bilibili ==> jobs[0].name
                == "Client/Binaries/Win64/bilibili_sdk.dll"@ && jobs[1].name
                == "Client/Content/Paks/pakchunk1-Bilibili-Win64-Shipping.pak"@
            &&& server != Server::Bilibili ==> jobs[0].name
                == "Client/Binaries/Win64/kuro_login.dll"@ && jobs[1].name
                == "Client/Content/Paks/pakchunk1-Kuro-Win64-Shipping.pak"@
        }),
{
    config::law_registry(Game::WuWa, server);
    let files = config::entry_of(Game::WuWa, server)->0.diff_files;
    lemma_both_are_swapped(game_folder, cdn, base_url, list, files);
}

proof fn lemma_both_are_swapped(
    game_folder: Seq<char>,
    cdn: Seq<char>,
    base_url: Seq<char>,
    list: Seq<ResourceItemView>,
    files: Seq<Seq<char>>,
)
    requires
        files.len() == 2,
        lists(list, files[0]),
        lists(list, files[1]),
    ensures
        ({
            let jobs = checkout::channel_jobs(game_folder, cdn, base_url, list, files);
            jobs.len() == 2 && jobs[0].name == files[0] && jobs[1].name == files[1]
        }),
{
    reveal(Seq::filter);
    reveal_with_fuel(Seq::filter, 3);
    let keep = |f: Seq<char>| lists(list, f);
    let name = |j: FetchJobView| j.name;
    law_listed_channel_files_are_swapped(game_folder, cdn, base_url, list, files);
    let jobs = checkout::channel_jobs(game_folder, cdn, base_url, list, files);
    let one = files.drop_last();
    assert(one.drop_last() =~= Seq::empty());
    assert(one.filter(keep) =~= seq![files[0]]);
    assert(files.filter(keep) =~= seq![files[0], files[1]]);
    let names = jobs.map_values(name);
    assert(names.len() == 2 && names[0] == files[0] && names[1] == files[1]);
    assert(jobs[0].name == names[0]);
    assert(jobs[1].name == names[1]);
}

/// The answers of `n` actions that all went well.
pub open spec fn went_well(n: nat) -> Seq<CheckoutEventView> {
    Seq::new(n, |i: int| CheckoutEventView::Done)
}

/// A switch in which all goes well replaces one file after the other; then it records the version and
/// the app id of the new channel; then it reports the two channels, the version and how many files
/// there were.
pub proof fn law_switch_runs_through(task: CheckoutTask, n: nat)
    requires
        0 < task.jobs.len() <= usize::MAX,
        n <= task.jobs.len() + 1,
    ensures
        n < task.jobs.len() ==> task.run(went_well(n)).1 == CheckoutActionView::Replace(
            task.jobs[n as int],
        ),
        n == task.jobs.len() ==> {
            let asked = task.run(went_well(n)).1;
            &&& asked is Record
            &&& asked->Record_0.version == task.version
            &&& asked->Record_0.app_id == task.app_id
            &&& asked->Record_0.group == "default"@
        },
        n == task.jobs.len() + 1 ==> {
            let asked = task.run(went_well(n)).1;
            &&& asked is Finish
            &&& asked->Finish_0.from_server == task.from_server
            &&& asked->Finish_0.to_server == task.to_server
            &&& asked->Finish_0.swapped_files == task.jobs.len()
            &&& asked->Finish_0.new_version == task.version
        },
{
    lemma_stages(task, n);
}

proof fn lemma_stages(task: CheckoutTask, n: nat)
    requires
        0 < task.jobs.len() <= usize::MAX,
        n <= task.jobs.len() + 1,
    ensures
        n < task.jobs.len() ==> task.run(went_well(n)) == task.proceed(n as int),
        n == task.jobs.len() ==> task.run(went_well(n)) == task.proceed(n as int),
        n == task.jobs.len() + 1 ==> task.run(went_well(n)) == task.next(
            checkout::CheckoutStage::Recording,
            CheckoutEventView::Done,
        ),
    decreases n,
{
    if n > 0 {
        lemma_stages(task, (n - 1) as nat);
        assert(went_well(n).drop_last() =~= went_well((n - 1) as nat));
        assert(went_well(n).last() == CheckoutEventView::Done);
    }
}

/// A switch without a file to swap fails at once and records nothing.
pub proof fn law_empty_switch_fails(task: CheckoutTask)
    requires
        task.jobs.len() == 0,
    ensures
        task.run(Seq::empty()).1 == CheckoutActionView::Fail(
            ErrorView::Patch(
                "checkout: no channel files could be swapped (missing from target manifest) — config left unchanged"@,
            ),
        ),
        checkout::global_refused() == ErrorView::Unimplemented(
            "global fast-switch is not supported (package differences) — full sync instead"@,
        ),
{
}

/// A switch ends with the first failure and reports it.
pub proof fn law_failure_ends_the_switch(
    task: CheckoutTask,
    answers: Seq<CheckoutEventView>,
    e: ErrorView,
)
    ensures
        task.run(answers.push(CheckoutEventView::Failed(e))).1 == CheckoutActionView::Fail(e),
        task.run(answers.push(CheckoutEventView::Failed(e))).0 is Ended,
{
    let all = answers.push(CheckoutEventView::Failed(e));
    assert(all.drop_last() =~= answers);
    assert(all.last() == CheckoutEventView::Failed(e));
}

}
