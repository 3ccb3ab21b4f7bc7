//! An installed game: which one it is, and whether it is up to date.

use vstd::prelude::*;

use crate::config;
use crate::config::{Game, Server, ServerEntry};
use crate::error::{Error, ErrorView};
use crate::text;
use crate::types::LocalConfig;

verus! {

/// An installed game.
#[derive(Debug)]
pub struct GameManager {
    pub game_folder: String,
    pub game: Game,
    pub server: Server,
}

/// The installed version against the one on the server.
#[derive(Debug)]
pub struct GameStatus {
    pub game: Game,
    pub server: Server,
    pub local_version: Option<String>,
    pub remote_version: String,
    pub update_available: bool,
}

/// The model of [`GameStatus`].
#[verifier::ext_equal]
pub struct GameStatusView {
    pub game: Game,
    pub server: Server,
    pub local_version: Option<Seq<char>>,
    pub remote_version: Seq<char>,
    pub update_available: bool,
}

impl DeepView for GameStatus {
    type V = GameStatusView;

    open spec fn deep_view(&self) -> GameStatusView {
        GameStatusView {
            game: self.game,
            server: self.server,
            local_version: self.local_version.deep_view(),
            remote_version: self.remote_version@,
            update_available: self.update_available,
        }
    }
}

impl Clone for GameStatus {
    fn clone(&self) -> (r: Self)
        ensures
            r.deep_view() == self.deep_view(),
            r.game == self.game,
            r.server == self.server,
            r.local_version.deep_view() == self.local_version.deep_view(),
            r.remote_version@ == self.remote_version@,
            r.update_available == self.update_available,
    {
        GameStatus {
            game: self.game,
            server: self.server,
            local_version: self.local_version.clone(),
            remote_version: self.remote_version.clone(),
            update_available: self.update_available,
        }
    }
}

/// Whether a game is not at the version on the server.
pub open spec fn is_behind(local: Option<Seq<char>>, remote: Seq<char>) -> bool {
    local != Some(remote)
}

impl GameManager {
    /// The game runs on the server.
    pub open spec fn wf(&self) -> bool {
        config::entry_of(self.game, self.server) is Some
    }

    /// Opens a game folder. The local configuration tells which game it holds: there must be one,
    /// and its app id must be known.
    pub fn open(game_folder: String, config: Option<LocalConfig>) -> (r: Result<Self, Error>)
        ensures
            match r {
                Ok(m) => {
                    &&& m.wf()
                    &&& m.game_folder == game_folder
                    &&& config is Some
                    &&& config::entry_of(m.game, m.server)->0.app_id == config->0.app_id@
                },
                Err(e) => match config {
                    None => e.deep_view() == ErrorView::NoLocalConfig(game_folder@),
                    Some(c) => {
                        &&& e.deep_view() == ErrorView::UnknownAppId(c.app_id@)
                        &&& forall|g: Game, s: Server|
                            (#[trigger] config::entry_of(g, s)) is Some ==> config::entry_of(
                                g,
                                s,
                            )->0.app_id != c.app_id@
                    },
                },
            },
            r is Ok <==> config is Some && (config->0.app_id@ == "10003"@ || config->0.app_id@
                == "10004"@ || config->0.app_id@ == "50004"@ || config->0.app_id@ == "50015"@
                || config->0.app_id@ == "10012"@),
            r is Ok && config->0.app_id@ == "10003"@ ==> r->Ok_0.game == Game::WuWa
                && r->Ok_0.server == Server::Cn,
            r is Ok && config->0.app_id@ == "10004"@ ==> r->Ok_0.game == Game::WuWa
                && r->Ok_0.server == Server::Bilibili,
            r is Ok && config->0.app_id@ == "50004"@ ==> r->Ok_0.game == Game::WuWa
                && r->Ok_0.server == Server::Global,
            r is Ok && config->0.app_id@ == "50015"@ ==> r->Ok_0.game == Game::Pgr
                && r->Ok_0.server == Server::Global,
            r is Ok && config->0.app_id@ == "10012"@ ==> r->Ok_0.game == Game::Pgr
                && r->Ok_0.server == Server::Cn,
    {
        match config {
            None => Err(Error::NoLocalConfig(game_folder)),
            Some(c) => match config::game_server_by_app_id(c.app_id.as_str()) {
                Some((game, server)) => {
                    proof {
                        let _ = config::entry_of(game, server);
                    }
                    Ok(GameManager { game_folder, game, server })
                },
                None => Err(Error::UnknownAppId(c.app_id)),
            },
        }
    }

    /// The registry entry of the game on its server.
    pub fn server_entry(&self) -> (r: &'static ServerEntry)
        requires
            self.wf(),
        ensures
            Some(r.deep_view()) == config::entry_of(self.game, self.server),
    {
        config::server_entry(self.game, self.server).unwrap()
    }

    /// The installed version, where there is a local configuration.
    pub fn local_version(config: Option<LocalConfig>) -> (r: Option<String>)
        ensures
            r.deep_view() == match config {
                Some(c) => Some(c.version@),
                None => None,
            },
    {
        match config {
            Some(c) => Some(c.version),
            None => None,
        }
    }

    /// The installed version against the one on the server: an update is available unless they are
    /// the same.
    pub fn status(&self, local: Option<String>, remote: &str) -> (r: GameStatus)
        ensures
            r.game == self.game,
            r.server == self.server,
            r.local_version == local,
            r.remote_version@ == remote@,
            r.update_available == is_behind(local.deep_view(), remote@),
            r.update_available <==> local is None || local->0@ != remote@,
    {
        let update_available = match &local {
            Some(v) => !text::same_text(v.as_str(), remote),
            None => true,
        };
        GameStatus {
            game: self.game,
            server: self.server,
            local_version: local,
            remote_version: remote.to_owned(),
            update_available,
        }
    }
}

/// What an opened game folder is: its app id leads back to the game and the server that the
/// registry has it under.
pub proof fn law_open_finds_registered(m: GameManager, game: Game, server: Server)
    requires
        m.wf(),
        config::entry_of(game, server) is Some,
        config::entry_of(m.game, m.server)->0.app_id == config::entry_of(game, server)->0.app_id,
    ensures
        m.game == game,
        m.server == server,
{
    config::law_app_ids_differ(m.game, m.server, game, server);
}

}
