//! The registry of games and servers.
//!
//! Adding a game is adding an entry here: everything else is the same for all games.

use vstd::prelude::*;

use crate::error::{Error, ErrorView};
use crate::pgr_meta;
use crate::text;
use crate::tokens;

verus! {

/// The games with a launcher.
#[derive(Debug, Clone, Copy, PartialEq, Eq, Structural)]
pub enum Game {
    /// Wuthering Waves.
    WuWa,
    /// Punishing: Gray Raven.
    Pgr,
}

/// The servers that games run on.
#[derive(Debug, Clone, Copy, PartialEq, Eq, Structural)]
pub enum Server {
    /// Mainland, the publisher's own channel.
    Cn,
    /// Mainland, the Bilibili channel.
    Bilibili,
    /// International.
    Global,
}

/// The name of a game.
pub open spec fn game_name(game: Game) -> Seq<char> {
    match game {
        Game::WuWa => "wuthering-waves"@,
        Game::Pgr => "punishing-gray-raven"@,
    }
}

/// The name of a server.
pub open spec fn server_name(server: Server) -> Seq<char> {
    match server {
        Server::Cn => "cn"@,
        Server::Bilibili => "bilibili"@,
        Server::Global => "global"@,
    }
}

impl Game {
    /// The name of the game.
    pub fn to_string(&self) -> (r: String)
        ensures
            r@ == game_name(*self),
            *self == Game::WuWa ==> r@ == "wuthering-waves"@,
            *self == Game::Pgr ==> r@ == "punishing-gray-raven"@,
    {
        match self {
            Game::WuWa => "wuthering-waves".to_owned(),
            Game::Pgr => "punishing-gray-raven".to_owned(),
        }
    }
}

impl Server {
    /// The name of the server.
    pub fn to_string(&self) -> (r: String)
        ensures
            r@ == server_name(*self),
            *self == Server::Cn ==> r@ == "cn"@,
            *self == Server::Bilibili ==> r@ == "bilibili"@,
            *self == Server::Global ==> r@ == "global"@,
    {
        match self {
            Server::Cn => "cn".to_owned(),
            Server::Bilibili => "bilibili".to_owned(),
            Server::Global => "global".to_owned(),
        }
    }
}

/// Where to fetch the launcher index of a server, and which files differ between channels.
///
/// `api_url` is empty where the address holds a token that is only known at run time.
pub struct ServerEntry {
    pub api_url: &'static str,
    pub app_id: &'static str,
    /// Files that are specific to the channel.
    pub diff_files: &'static [&'static str],
}

/// The model of [`ServerEntry`].
#[verifier::ext_equal]
pub struct ServerEntryView {
    pub api_url: Seq<char>,
    pub app_id: Seq<char>,
    pub diff_files: Seq<Seq<char>>,
}

impl DeepView for ServerEntry {
    type V = ServerEntryView;

    open spec fn deep_view(&self) -> ServerEntryView {
        ServerEntryView {
            api_url: self.api_url@,
            app_id: self.app_id@,
            diff_files: Seq::new(self.diff_files@.len(), |i: int| self.diff_files@[i]@),
        }
    }
}


pub const WUWA_CN_URL: &'static str = "https://prod-cn-alicdn-gamestarter.kurogame.com/launcher/game/G152/10003_Y8xXrXk65DqFHEDgApn3cpK5lfczpFx5/index.json";

pub const WUWA_BILIBILI_URL: &'static str = "https://prod-cn-alicdn-gamestarter.kurogame.com/launcher/game/G152/10004_j5GWFuUFlb8N31Wi2uS3ZAVHcb7ZGN7y/index.json";

pub const WUWA_GLOBAL_URL: &'static str = "https://prod-alicdn-gamestarter.kurogame.com/launcher/game/G153/50004_obOHXFrFanqsaIEOmuKroCcbZkQRBC7c/index.json";

pub const PGR_CN_URL: &'static str = "https://TODO/pgr-cn-index.json";

/// The channel files of the publisher's own channels.
pub open spec fn wuwa_diff_files() -> Seq<Seq<char>> {
    seq![
        "Client/Binaries/Win64/kuro_login.dll"@,
        "Client/Content/Paks/pakchunk1-Kuro-Win64-Shipping.pak"@,
    ]
}

/// The channel files of the Bilibili channel.
pub open spec fn bilibili_diff_files() -> Seq<Seq<char>> {
    seq![
        "Client/Binaries/Win64/bilibili_sdk.dll"@,
        "Client/Content/Paks/pakchunk1-Bilibili-Win64-Shipping.pak"@,
    ]
}

/// The servers of a game, in the order of the registry.
pub open spec fn server_order(game: Game) -> Seq<Server> {
    match game {
        Game::WuWa => seq![Server::Cn, Server::Bilibili, Server::Global],
        Game::Pgr => seq![Server::Global, Server::Cn],
    }
}

/// What the registry holds of a server of a game, if anything.
pub open spec fn entry_of(game: Game, server: Server) -> Option<ServerEntryView> {
    match (game, server) {
        (Game::WuWa, Server::Cn) => Some(
            ServerEntryView {
                api_url: WUWA_CN_URL@,
                app_id: "10003"@,
                diff_files: wuwa_diff_files(),
            },
        ),
        (Game::WuWa, Server::Bilibili) => Some(
            ServerEntryView {
                api_url: WUWA_BILIBILI_URL@,
                app_id: "10004"@,
                diff_files: bilibili_diff_files(),
            },
        ),
        (Game::WuWa, Server::Global) => Some(
            ServerEntryView {
                api_url: WUWA_GLOBAL_URL@,
                app_id: "50004"@,
                diff_files: wuwa_diff_files(),
            },
        ),
        (Game::Pgr, Server::Global) => Some(
            ServerEntryView { api_url: ""@, app_id: "50015"@, diff_files: Seq::empty() },
        ),
        (Game::Pgr, Server::Cn) => Some(
            ServerEntryView { api_url: PGR_CN_URL@, app_id: "10012"@, diff_files: Seq::empty() },
        ),
        (Game::Pgr, Server::Bilibili) => None,
    }
}

/// The servers of a game, each with its name.
pub fn servers(game: Game) -> (r: &'static [(&'static str, ServerEntry)])
    ensures
        r@.len() == server_order(game).len(),
        forall|i: int|
            0 <= i < r@.len() ==> {
                &&& (#[trigger] r@[i]).0@ == server_name(server_order(game)[i])
                &&& entry_of(game, server_order(game)[i]) == Some(r@[i].1.deep_view())
            },
        game == Game::WuWa ==> {
            &&& r@.len() == 3
            &&& r@[0].0@ == "cn"@
            &&& r@[1].0@ == "bilibili"@
            &&& r@[2].0@ == "global"@
            &&& r@[0].1.app_id@ == "10003"@
            &&& r@[1].1.app_id@ == "10004"@
            &&& r@[2].1.app_id@ == "50004"@
            &&& r@[0].1.api_url@
                == "https://prod-cn-alicdn-gamestarter.kurogame.com/launcher/game/G152/10003_Y8xXrXk65DqFHEDgApn3cpK5lfczpFx5/index.json"@
            &&& r@[1].1.api_url@
                == "https://prod-cn-alicdn-gamestarter.kurogame.com/launcher/game/G152/10004_j5GWFuUFlb8N31Wi2uS3ZAVHcb7ZGN7y/index.json"@
            &&& r@[2].1.api_url@
                == "https://prod-alicdn-gamestarter.kurogame.com/launcher/game/G153/50004_obOHXFrFanqsaIEOmuKroCcbZkQRBC7c/index.json"@
            &&& r@[0].1.diff_files@.len() == 2
            &&& r@[0].1.diff_files@[0]@ == "Client/Binaries/Win64/kuro_login.dll"@
            &&& r@[0].1.diff_files@[1]@ == "Client/Content/Paks/pakchunk1-Kuro-Win64-Shipping.pak"@
            &&& r@[1].1.diff_files@.len() == 2
            &&& r@[1].1.diff_files@[0]@ == "Client/Binaries/Win64/bilibili_sdk.dll"@
            &&& r@[1].1.diff_files@[1]@
                == "Client/Content/Paks/pakchunk1-Bilibili-Win64-Shipping.pak"@
            &&& r@[2].1.diff_files@.len() == 2
            &&& r@[2].1.diff_files@[0]@ == "Client/Binaries/Win64/kuro_login.dll"@
            &&& r@[2].1.diff_files@[1]@ == "Client/Content/Paks/pakchunk1-Kuro-Win64-Shipping.pak"@
        },
        game == Game::Pgr ==> {
            &&& r@.len() == 2
            &&& r@[0].0@ == "global"@
            &&& r@[1].0@ == "cn"@
            &&& r@[0].1.app_id@ == "50015"@
            &&& r@[1].1.app_id@ == "10012"@
            &&& r@[0].1.api_url@ == ""@
            &&& r@[1].1.api_url@ == "https://TODO/pgr-cn-index.json"@
            &&& r@[0].1.diff_files@.len() == 0
            &&& r@[1].1.diff_files@.len() == 0
        },
{
    match game {
        Game::WuWa => &[
            (
                "cn",
                ServerEntry {
                    api_url: WUWA_CN_URL,
                    app_id: "10003",
                    diff_files: &[
                        "Client/Binaries/Win64/kuro_login.dll",
                        "Client/Content/Paks/pakchunk1-Kuro-Win64-Shipping.pak",
                    ],
                },
            ),
            (
                "bilibili",
                ServerEntry {
                    api_url: WUWA_BILIBILI_URL,
                    app_id: "10004",
                    diff_files: &[
                        "Client/Binaries/Win64/bilibili_sdk.dll",
                        "Client/Content/Paks/pakchunk1-Bilibili-Win64-Shipping.pak",
                    ],
                },
            ),
            (
                "global",
                ServerEntry {
                    api_url: WUWA_GLOBAL_URL,
                    app_id: "50004",
                    diff_files: &[
                        "Client/Binaries/Win64/kuro_login.dll",
                        "Client/Content/Paks/pakchunk1-Kuro-Win64-Shipping.pak",
                    ],
                },
            ),
        ],
        Game::Pgr => &[
            ("global", ServerEntry { api_url: "", app_id: "50015", diff_files: &[] }),
            ("cn", ServerEntry { api_url: PGR_CN_URL, app_id: "10012", diff_files: &[] }),
        ],
    }
}

proof fn lemma_server_names_differ(a: Server, b: Server)
    requires
        server_name(a) == server_name(b),
    ensures
        a == b,
{
    reveal_strlit("cn");
    reveal_strlit("bilibili");
    reveal_strlit("global");
    assert("bilibili"@[0] != "global"@[0]);
}

/// The entry of a server of a game, if the registry has one.
pub fn server_entry(game: Game, server: Server) -> (r: Option<&'static ServerEntry>)
    ensures
        match r {
            Some(e) => entry_of(game, server) == Some(e.deep_view()),
            None => entry_of(game, server) is None,
        },
        r is None <==> game == Game::Pgr && server == Server::Bilibili,
{
    let list = servers(game);
    let name = server.to_string();
    let mut i: usize = 0;
    while i < list.len()
        invariant
            name@ == server_name(server),
            list@.len() == server_order(game).len(),
            forall|j: int|
                0 <= j < list@.len() ==> {
                    &&& (#[trigger] list@[j]).0@ == server_name(server_order(game)[j])
                    &&& entry_of(game, server_order(game)[j]) == Some(list@[j].1.deep_view())
                },
            i <= list@.len(),
            forall|j: int| 0 <= j < i ==> server_order(game)[j] != server,
        decreases list@.len() - i,
    {
        if text::same_text(list[i].0, name.as_str()) {
            proof {
                lemma_server_names_differ(server_order(game)[i as int], server);
            }
            return Some(&list[i].1);
        }
        i = i + 1;
    }
    None
}

/// What the registry holds: the app ids, the addresses and the channel files of every server, and
/// which servers a game has.
pub proof fn law_registry(game: Game, server: Server)
    ensures
        entry_of(game, server) is None <==> game == Game::Pgr && server == Server::Bilibili,
        game == Game::WuWa && server == Server::Cn ==> {
            let e = entry_of(game, server)->0;
            &&& e.app_id == "10003"@
            &&& e.api_url
                == "https://prod-cn-alicdn-gamestarter.kurogame.com/launcher/game/G152/10003_Y8xXrXk65DqFHEDgApn3cpK5lfczpFx5/index.json"@
            &&& e.diff_files.len() == 2
            &&& e.diff_files[0] == "Client/Binaries/Win64/kuro_login.dll"@
            &&& e.diff_files[1] == "Client/Content/Paks/pakchunk1-Kuro-Win64-Shipping.pak"@
        },
        game == Game::WuWa && server == Server::Bilibili ==> {
            let e = entry_of(game, server)->0;
            &&& e.app_id == "10004"@
            &&& e.api_url
                == "https://prod-cn-alicdn-gamestarter.kurogame.com/launcher/game/G152/10004_j5GWFuUFlb8N31Wi2uS3ZAVHcb7ZGN7y/index.json"@
            &&& e.diff_files.len() == 2
            &&& e.diff_files[0] == "Client/Binaries/Win64/bilibili_sdk.dll"@
            &&& e.diff_files[1] == "Client/Content/Paks/pakchunk1-Bilibili-Win64-Shipping.pak"@
        },
        game == Game::WuWa && server == Server::Global ==> {
            let e = entry_of(game, server)->0;
            &&& e.app_id == "50004"@
            &&& e.api_url
                == "https://prod-alicdn-gamestarter.kurogame.com/launcher/game/G153/50004_obOHXFrFanqsaIEOmuKroCcbZkQRBC7c/index.json"@
            &&& e.diff_files.len() == 2
            &&& e.diff_files[0] == "Client/Binaries/Win64/kuro_login.dll"@
            &&& e.diff_files[1] == "Client/Content/Paks/pakchunk1-Kuro-Win64-Shipping.pak"@
        },
        game == Game::Pgr && server == Server::Global ==> {
            let e = entry_of(game, server)->0;
            &&& e.app_id == "50015"@
            &&& e.api_url == ""@
            &&& e.diff_files.len() == 0
        },
        game == Game::Pgr && server == Server::Cn ==> {
            let e = entry_of(game, server)->0;
            &&& e.app_id == "10012"@
            &&& e.api_url == "https://TODO/pgr-cn-index.json"@
            &&& e.diff_files.len() == 0
        },
{
}

/// No two entries of the registry share an app id.
pub proof fn law_app_ids_differ(g1: Game, s1: Server, g2: Game, s2: Server)
    requires
        entry_of(g1, s1) is Some,
        entry_of(g2, s2) is Some,
        entry_of(g1, s1)->0.app_id == entry_of(g2, s2)->0.app_id,
    ensures
        g1 == g2,
        s1 == s2,
{
    reveal_strlit("10003");
    reveal_strlit("10004");
    reveal_strlit("50004");
    reveal_strlit("50015");
    reveal_strlit("10012");
    assert("10003"@[4] == '3' && "10004"@[4] == '4' && "50004"@[4] == '4' && "50015"@[4] == '5'
        && "10012"@[4] == '2' && "10004"@[0] == '1' && "50004"@[0] == '5');
}

/// The game and the server that an app id stands for.
pub fn game_server_by_app_id(app_id: &str) -> (r: Option<(Game, Server)>)
    ensures
        forall|g: Game, s: Server|
            (#[trigger] entry_of(g, s)) is Some && entry_of(g, s)->0.app_id == app_id@ <==> r == Some((g, s)),
        r == Some((Game::WuWa, Server::Cn)) <==> app_id@ == "10003"@,
        r == Some((Game::WuWa, Server::Bilibili)) <==> app_id@ == "10004"@,
        r == Some((Game::WuWa, Server::Global)) <==> app_id@ == "50004"@,
        r == Some((Game::Pgr, Server::Global)) <==> app_id@ == "50015"@,
        r == Some((Game::Pgr, Server::Cn)) <==> app_id@ == "10012"@,
        r != Some((Game::Pgr, Server::Bilibili)),
{
    proof {
        law_registry(Game::WuWa, Server::Cn);
        law_registry(Game::WuWa, Server::Bilibili);
        law_registry(Game::WuWa, Server::Global);
        law_registry(Game::Pgr, Server::Global);
        law_registry(Game::Pgr, Server::Cn);
        law_registry(Game::Pgr, Server::Bilibili);
    }
    if let Some(s) = server_by_app_id(Game::WuWa, app_id) {
        proof {
            assert forall|g: Game, t: Server|
                (#[trigger] entry_of(g, t)) is Some && entry_of(g, t)->0.app_id == app_id@ implies g == Game::WuWa && t == s by {
                law_app_ids_differ(g, t, Game::WuWa, s);
            }
        }
        return Some((Game::WuWa, s));
    }
    if let Some(s) = server_by_app_id(Game::Pgr, app_id) {
        proof {
            assert forall|g: Game, t: Server|
                (#[trigger] entry_of(g, t)) is Some && entry_of(g, t)->0.app_id == app_id@ implies g == Game::Pgr && t == s by {
                law_app_ids_differ(g, t, Game::Pgr, s);
            }
        }
        return Some((Game::Pgr, s));
    }
    None
}

/// The server of `game` whose app id is `app_id`.
fn server_by_app_id(game: Game, app_id: &str) -> (r: Option<Server>)
    ensures
        match r {
            Some(s) => entry_of(game, s) is Some && entry_of(game, s)->0.app_id == app_id@,
            None => forall|s: Server|
                (#[trigger] entry_of(game, s)) is Some ==> entry_of(game, s)->0.app_id != app_id@,
        },
{
    let all = [Server::Cn, Server::Bilibili, Server::Global];
    let mut i: usize = 0;
    while i < 3
        invariant
            i <= 3,
            all@ == seq![Server::Cn, Server::Bilibili, Server::Global],
            forall|j: int|
                0 <= j < i && (#[trigger] entry_of(game, all@[j])) is Some ==> entry_of(
                    game,
                    all@[j],
                )->0.app_id != app_id@,
        decreases 3 - i,
    {
        if let Some(e) = server_entry(game, all[i]) {
            if text::same_text(e.app_id, app_id) {
                return Some(all[i]);
            }
        }
        i = i + 1;
    }
    proof {
        assert forall|s: Server| (#[trigger] entry_of(game, s)) is Some implies entry_of(game, s)->0.app_id
            != app_id@ by {
            assert(s == all@[0] || s == all@[1] || s == all@[2]);
        }
    }
    None
}

/// What to tell where no token is known.
pub open spec fn no_token() -> ErrorView {
    ErrorView::TokenMissing(
        "PGR global launcher token is not configured: set KURO_PGR_GLOBAL_TOKEN or add `[pgr] global = \"...\"` to ~/.config/kuro/tokens.toml"@,
    )
}

/// The token of the global launcher: the environment's, where it is not empty; else the one of
/// the tokens file.
pub open spec fn token_of(
    env_token: Option<Seq<char>>,
    tokens_file: Option<Seq<char>>,
) -> Result<Seq<char>, ErrorView> {
    if env_token is Some && env_token->0.len() > 0 {
        Ok(env_token->0)
    } else if tokens_file is Some && tokens::tokens_in(tokens_file->0).contains_key("pgr.global"@) {
        Ok(tokens::tokens_in(tokens_file->0)["pgr.global"@])
    } else {
        Err(no_token())
    }
}

/// The address of the launcher index of a server of a game.
pub open spec fn index_url_of(
    game: Game,
    server: Server,
    env_token: Option<Seq<char>>,
    tokens_file: Option<Seq<char>>,
) -> Result<Seq<char>, ErrorView> {
    match (game, server) {
        (Game::WuWa, _) => Ok(entry_of(game, server)->0.api_url),
        (Game::Pgr, Server::Global) => match token_of(env_token, tokens_file) {
            Ok(token) => Ok(
                pgr_meta::CDN_BASES_GLOBAL@[0]@ + "/launcher/game/G143/50015_"@ + token
                    + "/index.json"@,
            ),
            Err(e) => Err(e),
        },
        (Game::Pgr, Server::Cn) => Err(
            ErrorView::Unimplemented(
                "PGR CN launcher token has not been recovered (private SDK runtime flow)"@,
            ),
        ),
        (Game::Pgr, Server::Bilibili) => Err(
            ErrorView::UnknownAppId(game_name(game) + "/"@ + server_name(server)),
        ),
    }
}

/// A result by its model.
pub open spec fn text_result(r: Result<String, Error>) -> Result<Seq<char>, ErrorView> {
    match r {
        Ok(s) => Ok(s@),
        Err(e) => Err(e.deep_view()),
    }
}

/// The token of the global launcher, from the variable `KURO_PGR_GLOBAL_TOKEN` and the text of the
/// tokens file, as far as each could be read.
pub fn pgr_global_token(env_token: Option<String>, tokens_file: Option<String>) -> (r: Result<
    String,
    Error,
>)
    ensures
        text_result(r) == token_of(env_token.deep_view(), tokens_file.deep_view()),
        env_token is Some && env_token->0@.len() > 0 ==> r is Ok && r->Ok_0@ == env_token->0@,
        (env_token is None || env_token->0@.len() == 0) && tokens_file is None ==> r is Err,
        r is Err ==> r->Err_0.deep_view() is TokenMissing,
{
    if let Some(t) = env_token {
        if !t.as_str().is_empty() {
            return Ok(t);
        }
    }
    if let Some(f) = tokens_file {
        if let Some(t) = tokens::read_tokens_file(f.as_str()).get("pgr.global") {
            return Ok(t);
        }
    }
    Err(
        Error::TokenMissing(
            "PGR global launcher token is not configured: set KURO_PGR_GLOBAL_TOKEN or add `[pgr] global = \"...\"` to ~/.config/kuro/tokens.toml".to_owned(),
        ),
    )
}

/// The address of the launcher index of a server of a game. The tokens of Wuthering Waves are
/// public and part of the registry; the token of the global Punishing: Gray Raven launcher comes
/// from the environment or from the tokens file.
pub fn index_url(
    game: Game,
    server: Server,
    env_token: Option<String>,
    tokens_file: Option<String>,
) -> (r: Result<String, Error>)
    ensures
        text_result(r) == index_url_of(
            game,
            server,
            env_token.deep_view(),
            tokens_file.deep_view(),
        ),
        game == Game::WuWa ==> r is Ok,
        game == Game::WuWa && server == Server::Cn ==> r->Ok_0@
            == "https://prod-cn-alicdn-gamestarter.kurogame.com/launcher/game/G152/10003_Y8xXrXk65DqFHEDgApn3cpK5lfczpFx5/index.json"@,
        game == Game::WuWa && server == Server::Bilibili ==> r->Ok_0@
            == "https://prod-cn-alicdn-gamestarter.kurogame.com/launcher/game/G152/10004_j5GWFuUFlb8N31Wi2uS3ZAVHcb7ZGN7y/index.json"@,
        game == Game::WuWa && server == Server::Global ==> r->Ok_0@
            == "https://prod-alicdn-gamestarter.kurogame.com/launcher/game/G153/50004_obOHXFrFanqsaIEOmuKroCcbZkQRBC7c/index.json"@,
        game == Game::Pgr && server == Server::Global && env_token is Some && env_token->0@.len() > 0
            ==> r is Ok && r->Ok_0@
            == "https://prod-alicdn-gamestarter.kurogame.com"@ + "/launcher/game/G143/50015_"@
            + env_token->0@ + "/index.json"@,
        game == Game::Pgr && server != Server::Global ==> r is Err,
        game == Game::Pgr && server == Server::Cn ==> r->Err_0.deep_view() is Unimplemented,
        game == Game::Pgr && server == Server::Bilibili ==> r->Err_0.deep_view() is UnknownAppId,
{
    match (game, server) {
        (Game::WuWa, server) => match server_entry(game, server) {
            Some(entry) => Ok(entry.api_url.to_owned()),
            None => Err(unknown_server(game, server)),
        },
        (Game::Pgr, Server::Global) => match pgr_global_token(env_token, tokens_file) {
            Ok(token) => {
                let url = pgr_meta::CDN_BASES_GLOBAL[0].to_owned().concat(
                    "/launcher/game/G143/50015_",
                );
                Ok(url.concat(token.as_str()).concat("/index.json"))
            },
            Err(e) => Err(e),
        },
        (Game::Pgr, Server::Cn) => Err(
            Error::Unimplemented(
                "PGR CN launcher token has not been recovered (private SDK runtime flow)",
            ),
        ),
        (Game::Pgr, Server::Bilibili) => Err(unknown_server(game, server)),
    }
}

/// The failure that tells of a game that does not run on a server.
pub fn unknown_server(game: Game, server: Server) -> (r: Error)
    ensures
        r.deep_view() == ErrorView::UnknownAppId(game_name(game) + "/"@ + server_name(server)),
        game == Game::Pgr && server == Server::Bilibili ==> r.deep_view() == ErrorView::UnknownAppId(
            "punishing-gray-raven"@ + "/"@ + "bilibili"@,
        ),
{
    let server = server.to_string();
    Error::UnknownAppId(game.to_string().concat("/").concat(server.as_str()))
}

}
