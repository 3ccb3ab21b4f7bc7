//! Installing a game from nothing.

use vstd::prelude::*;

use crate::config;
use crate::config::{Game, Server};
use crate::error::{Error, ErrorView};
use crate::game::GameManager;
use crate::state;
use crate::sync::{SyncReport, SyncReportView};
use crate::text;
use crate::types::LocalConfig;

verus! {

/// What an installation did.
#[derive(Debug)]
pub struct InstallReport {
    pub version: String,
    pub sync: SyncReport,
    /// The program that starts the game, from the game folder on, if one was found.
    pub game_exe: Option<String>,
}

/// The model of [`InstallReport`].
#[verifier::ext_equal]
pub struct InstallReportView {
    pub version: Seq<char>,
    pub sync: SyncReportView,
    pub game_exe: Option<Seq<char>>,
}

impl DeepView for InstallReport {
    type V = InstallReportView;

    open spec fn deep_view(&self) -> InstallReportView {
        InstallReportView {
            version: self.version@,
            sync: self.sync.deep_view(),
            game_exe: self.game_exe.deep_view(),
        }
    }
}

impl Clone for InstallReport {
    fn clone(&self) -> (r: Self)
        ensures
            r.deep_view() == self.deep_view(),
            r.version@ == self.version@,
            r.sync.deep_view() == self.sync.deep_view(),
            r.game_exe.deep_view() == self.game_exe.deep_view(),
    {
        InstallReport {
            version: self.version.clone(),
            sync: self.sync.clone(),
            game_exe: self.game_exe.clone(),
        }
    }
}

/// The error for a server that a game does not have.
pub open spec fn no_such_server(game: Game, server: Server) -> ErrorView {
    ErrorView::UnknownAppId(config::game_name(game) + "/"@ + config::server_name(server))
}

impl GameManager {
    /// The local configuration that marks a new installation, for the version on the server.
    pub fn install_with_progress(game: Game, server: Server, version: &str) -> (r: Result<
        LocalConfig,
        Error,
    >)
        ensures
            match config::entry_of(game, server) {
                Some(entry) => r is Ok && r->Ok_0.deep_view() == state::config_of(
                    version@,
                    entry.app_id,
                ),
                None => r is Err && r->Err_0.deep_view() == no_such_server(game, server),
            },
            r is Err <==> game == Game::Pgr && server == Server::Bilibili,
            r is Err ==> r->Err_0.deep_view() == ErrorView::UnknownAppId(
                "punishing-gray-raven"@ + "/"@ + "bilibili"@,
            ),
            r is Ok ==> r->Ok_0.version@ == version@ && r->Ok_0.group@ == "default"@,
            game == Game::WuWa && server == Server::Cn ==> r->Ok_0.app_id@ == "10003"@,
            game == Game::WuWa && server == Server::Bilibili ==> r->Ok_0.app_id@ == "10004"@,
            game == Game::WuWa && server == Server::Global ==> r->Ok_0.app_id@ == "50004"@,
            game == Game::Pgr && server == Server::Global ==> r->Ok_0.app_id@ == "50015"@,
            game == Game::Pgr && server == Server::Cn ==> r->Ok_0.app_id@ == "10012"@,
    {
        match config::server_entry(game, server) {
            Some(entry) => Ok(state::new_local_config(version, entry.app_id)),
            None => Err(config::unknown_server(game, server)),
        }
    }
}

/// Where the program that starts a game usually lies.
pub open spec fn usual_exes() -> Seq<Seq<char>> {
    seq![
        "Client/Binaries/Win64/Client-Win64-Shipping.exe"@,
        "Client/Binaries/Win64/PGR.exe"@,
        "PGR.exe"@,
    ]
}

/// Where the program that starts a game usually lies, from the game folder on.
pub fn exe_candidates() -> (r: Vec<&'static str>)
    ensures
        r@.map_values(|s: &'static str| s@) == usual_exes(),
        r@.len() == 3,
        r@[0]@ == "Client/Binaries/Win64/Client-Win64-Shipping.exe"@,
        r@[1]@ == "Client/Binaries/Win64/PGR.exe"@,
        r@[2]@ == "PGR.exe"@,
{
    let r = vec![
        "Client/Binaries/Win64/Client-Win64-Shipping.exe",
        "Client/Binaries/Win64/PGR.exe",
        "PGR.exe",
    ];
    assert(r@.map_values(|s: &'static str| s@) =~= usual_exes());
    r
}

/// One entry of the game folder.
#[derive(Debug)]
pub struct RootEntry {
    pub name: String,
    pub is_file: bool,
}

/// Whether an entry of the game folder is a program.
pub open spec fn is_program(entry: RootEntry) -> bool {
    ".exe"@.is_suffix_of(entry.name@) && entry.is_file
}

/// Whether the first program among some entries stands at `i`.
pub open spec fn first_program(entries: Seq<RootEntry>, i: int) -> bool {
    &&& 0 <= i < entries.len()
    &&& is_program(entries[i])
    &&& forall|j: int| 0 <= j < i ==> !is_program(#[trigger] entries[j])
}

/// The program that starts an installed game: the first of the usual ones that is there, else the
/// first program of the game folder itself. `found` says which of the usual ones are there.
pub fn find_game_exe(found: &Vec<bool>, entries: &Vec<RootEntry>) -> (r: Option<String>)
    requires
        found@.len() == usual_exes().len(),
    ensures
        if found@[0] {
            r.deep_view() == Some(usual_exes()[0])
        } else if found@[1] {
            r.deep_view() == Some(usual_exes()[1])
        } else if found@[2] {
            r.deep_view() == Some(usual_exes()[2])
        } else {
            match r {
                Some(name) => exists|i: int|
                    #[trigger] first_program(entries@, i) && name@ == entries@[i].name@,
                None => forall|i: int|
                    0 <= i < entries@.len() ==> !is_program(#[trigger] entries@[i]),
            }
        },
        found@[0] ==> r is Some && r->0@ == "Client/Binaries/Win64/Client-Win64-Shipping.exe"@,
        !found@[0] && found@[1] ==> r is Some && r->0@ == "Client/Binaries/Win64/PGR.exe"@,
        !found@[0] && !found@[1] && found@[2] ==> r is Some && r->0@ == "PGR.exe"@,
        !found@[0] && !found@[1] && !found@[2] ==> {
            &&& r is Some ==> exists|i: int|
                0 <= i < entries@.len() && (#[trigger] entries@[i]).is_file && entries@[i].name@
                    == r->0@ && ".exe"@.is_suffix_of(r->0@) && forall|j: int|
                    0 <= j < i ==> !(#[trigger] entries@[j]).is_file || !".exe"@.is_suffix_of(
                        entries@[j].name@,
                    )
            &&& r is None ==> forall|j: int|
                0 <= j < entries@.len() ==> !(#[trigger] entries@[j]).is_file
                    || !".exe"@.is_suffix_of(entries@[j].name@)
        },
{
    if found[0] {
        return Some("Client/Binaries/Win64/Client-Win64-Shipping.exe".to_owned());
    }
    if found[1] {
        return Some("Client/Binaries/Win64/PGR.exe".to_owned());
    }
    if found[2] {
        return Some("PGR.exe".to_owned());
    }
    let mut i: usize = 0;
    while i < entries.len()
        invariant
            i <= entries@.len(),
            !found@[0] && !found@[1] && !found@[2],
            forall|j: int| 0 <= j < i ==> !is_program(#[trigger] entries@[j]),
            forall|j: int|
                0 <= j < i ==> !(#[trigger] entries@[j]).is_file || !".exe"@.is_suffix_of(
                    entries@[j].name@,
                ),
        decreases entries@.len() - i,
    {
        if text::ends_with(entries[i].name.as_str(), ".exe") && entries[i].is_file {
            assert(first_program(entries@, i as int));
            return Some(entries[i].name.clone());
        }
        i = i + 1;
    }
    None
}

/// A folder that holds the configuration of a new installation is found to be of the game and the
/// server that were installed.
pub proof fn law_installed_game_is_recognised(
    game: Game,
    server: Server,
    version: Seq<char>,
    found: (Game, Server),
)
    requires
        config::entry_of(game, server) is Some,
        config::entry_of(found.0, found.1) is Some,
        config::entry_of(found.0, found.1)->0.app_id == state::config_of(
            version,
            config::entry_of(game, server)->0.app_id,
        ).app_id,
    ensures
        found == (game, server),
{
    config::law_app_ids_differ(found.0, found.1, game, server);
}

}
