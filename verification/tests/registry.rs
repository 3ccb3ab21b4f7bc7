//! The registry of games and servers, the addresses and the errors.

use kuro::client::ApiClient;
use kuro::config::{
    game_server_by_app_id, index_url, pgr_global_token, server_entry, servers, Game, Server,
};
use kuro::error::Error;
use kuro::game::GameManager;
use kuro::state;
use kuro::tokens::read_tokens_file;
use kuro::types::{
    CdnNode, DefaultSection, LauncherConfig, LauncherIndex, LocalConfig, PatchConfig,
};

fn local(app_id: &str) -> Option<LocalConfig> {
    Some(LocalConfig {
        version: "1.2.3".to_string(),
        app_id: app_id.to_string(),
        group: "default".to_string(),
    })
}

#[test]
fn every_registered_server_is_found_by_its_app_id() {
    let all = [Server::Cn, Server::Bilibili, Server::Global];
    let mut found = 0;
    for game in [Game::WuWa, Game::Pgr] {
        for server in all {
            if let Some(entry) = server_entry(game, server) {
                assert_eq!(game_server_by_app_id(entry.app_id), Some((game, server)));
                found += 1;
            }
        }
    }
    assert_eq!(found, 5);
    assert_eq!(game_server_by_app_id("99999"), None);
    assert!(server_entry(Game::Pgr, Server::Bilibili).is_none());
}

#[test]
fn registry_lists_servers_by_name() {
    let names: Vec<&str> = servers(Game::WuWa).iter().map(|(n, _)| *n).collect();
    assert_eq!(names, vec!["cn", "bilibili", "global"]);
    let names: Vec<&str> = servers(Game::Pgr).iter().map(|(n, _)| *n).collect();
    assert_eq!(names, vec!["global", "cn"]);
    assert_eq!(
        servers(Game::WuWa)[1].1.diff_files,
        [
            "Client/Binaries/Win64/bilibili_sdk.dll",
            "Client/Content/Paks/pakchunk1-Bilibili-Win64-Shipping.pak",
        ]
    );
    assert_eq!(Game::WuWa.to_string(), "wuthering-waves");
    assert_eq!(Server::Bilibili.to_string(), "bilibili");
}

#[test]
fn index_addresses() {
    let url = index_url(Game::WuWa, Server::Global, None, None).unwrap();
    assert!(url.ends_with("/launcher/game/G153/50004_obOHXFrFanqsaIEOmuKroCcbZkQRBC7c/index.json"));
    let url = index_url(Game::Pgr, Server::Global, Some("TOK".to_string()), None).unwrap();
    assert_eq!(
        url,
        "https://prod-alicdn-gamestarter.kurogame.com/launcher/game/G143/50015_TOK/index.json"
    );
    let err = index_url(Game::Pgr, Server::Cn, Some("TOK".to_string()), None).unwrap_err();
    assert!(matches!(err, Error::Unimplemented(_)));
    let err = index_url(Game::Pgr, Server::Bilibili, None, None).unwrap_err();
    assert!(matches!(err, Error::UnknownAppId(_)));
}

#[test]
fn token_comes_from_the_environment_then_from_the_file() {
    let file = "# tokens\n\n[pgr]\nglobal = \"from-file\"\ncn=x\r\n".to_string();
    let token = pgr_global_token(Some("from-env".to_string()), Some(file.clone())).unwrap();
    assert_eq!(token, "from-env");
    let token = pgr_global_token(Some(String::new()), Some(file.clone())).unwrap();
    assert_eq!(token, "from-file");
    let token = pgr_global_token(None, Some(file)).unwrap();
    assert_eq!(token, "from-file");
    let err = pgr_global_token(None, None).unwrap_err();
    assert!(err.to_string().starts_with("PGR global launcher token is not configured"));
    assert!(matches!(err, Error::TokenMissing(_)));
}

#[test]
fn tokens_file_is_read_by_sections() {
    let t = read_tokens_file("top = 1\n[ pgr ]\n  global = \" a b \"  \nnoise\n#x = y\nglobal = z=w\n[]\nlast = \"\"");
    assert_eq!(t.get("top").as_deref(), Some("1"));
    assert_eq!(t.get("pgr.global").as_deref(), Some("z=w"));
    assert_eq!(t.get("last").as_deref(), Some(""));
    assert_eq!(t.get("pgr.x"), None);
    assert_eq!(t.get("noise"), None);
}

#[test]
fn opening_a_folder() {
    let mgr = GameManager::open("/g".to_string(), local("10004")).unwrap();
    assert_eq!((mgr.game, mgr.server), (Game::WuWa, Server::Bilibili));
    assert_eq!(mgr.server_entry().app_id, "10004");
    let err = GameManager::open("/g".to_string(), None).unwrap_err();
    assert_eq!(
        err.to_string(),
        "local launcher config not found at /g; run with --path or set up the game first"
    );
    let err = GameManager::open("/g".to_string(), local("7")).unwrap_err();
    assert_eq!(err.to_string(), "unknown appId `7` — cannot map to a known game/server");
}

#[test]
fn status_compares_versions() {
    let mgr = GameManager::open("/g".to_string(), local("10003")).unwrap();
    let version = GameManager::local_version(local("10003"));
    assert_eq!(version.as_deref(), Some("1.2.3"));
    assert!(!mgr.status(version.clone(), "1.2.3").update_available);
    assert!(mgr.status(version, "1.2.4").update_available);
    assert!(mgr.status(GameManager::local_version(None), "1.2.3").update_available);
}

fn index(weights: &[u64]) -> LauncherIndex {
    LauncherIndex {
        default: DefaultSection {
            cdn_list: weights
                .iter()
                .enumerate()
                .map(|(i, p)| CdnNode { p: *p, k1: 0, k2: 0, url: format!("http://n{i}/") })
                .collect(),
            config: LauncherConfig {
                version: "2.0".to_string(),
                index_file: "/x/index.json".to_string(),
                index_file_md5: String::new(),
                base_url: "base".to_string(),
                size: 0,
                patch_type: String::new(),
                patch_config: vec![],
            },
            resources_base_path: String::new(),
            version: "2.0".to_string(),
        },
        predownload: None,
        predownload_switch: None,
    }
}

#[test]
fn servers_are_picked_by_weight() {
    let idx = index(&[0, 3, 0, 2]);
    assert!(ApiClient::weights_fit(&idx));
    let picked: Vec<String> = (10..15)
        .map(|n| ApiClient::pick_cdn(&idx, n).unwrap().url.clone())
        .collect();
    assert_eq!(
        picked,
        vec!["http://n1/", "http://n1/", "http://n1/", "http://n3/", "http://n3/"]
    );
    assert!(matches!(ApiClient::pick_cdn(&index(&[0, 0]), 5), Err(Error::NoCdnNode)));
    assert!(matches!(ApiClient::pick_cdn(&index(&[]), 5), Err(Error::NoCdnNode)));
    assert!(!ApiClient::weights_fit(&index(&[u64::MAX, 1])));
}

#[test]
fn addresses_have_single_slashes() {
    let patch = PatchConfig {
        version: String::new(),
        index_file: String::new(),
        base_url: "/p/q/".to_string(),
        size: 0,
    };
    assert_eq!(ApiClient::krpdiff_url("http://c/", &patch, "g.krpdiff"), "http://c/p/q/g.krpdiff");
    assert_eq!(ApiClient::resource_url("http://c//", "f/", "/a/b"), "http://c/f/a/b");
    assert_eq!(ApiClient::manifest_url("http://c/", "//i.json"), "http://c/i.json");
    let source = ApiClient::manifest_source(&index(&[1]), 0).unwrap();
    assert_eq!(source.url, "http://n0/x/index.json");
    assert_eq!(source.base_url, "base");
    assert_eq!(source.version, "2.0");
    assert!(matches!(ApiClient::manifest_source(&index(&[]), 0), Err(Error::NoCdnNode)));
}

#[test]
fn update_to_apply_is_decided() {
    let mgr = GameManager::open("/g".to_string(), local("10003")).unwrap();
    let idx = index(&[1]);
    let at = |v: &str| Some(v.to_string());
    assert!(matches!(mgr.apply(&at("2.0"), &idx, 0), Ok(kuro::apply::ApplyChoice::UpToDate)));
    assert!(matches!(mgr.apply(&at("1.0"), &idx, 0), Err(Error::MissingField(_))));
    assert!(matches!(mgr.apply(&at("1.0"), &index(&[]), 0), Err(Error::NoCdnNode)));
    assert!(matches!(mgr.apply(&None, &idx, 0), Err(Error::NoLocalConfig(_))));
}

#[test]
fn update_to_plan_is_decided() {
    let mgr = GameManager::open("/g".to_string(), local("10003")).unwrap();
    let mut idx = index(&[1]);
    let at = |v: &str| Some(v.to_string());
    assert!(matches!(
        mgr.plan_choice(&at("2.0"), &idx, 0),
        Ok(kuro::predownload::PlanChoice::UpToDate("2.0"))
    ));
    assert!(matches!(mgr.plan_choice(&at("2.0"), &index(&[]), 0), Err(Error::NoCdnNode)));
    assert!(matches!(mgr.plan_choice(&at("1.0"), &idx, 0), Err(Error::MissingField(_))));
    assert!(matches!(mgr.plan_choice(&None, &idx, 0), Err(Error::NoLocalConfig(_))));
    idx.default.config.patch_config.push(PatchConfig {
        version: "1.0".to_string(),
        index_file: "p.json".to_string(),
        base_url: String::new(),
        size: 0,
    });
    match mgr.plan_choice(&at("1.0"), &idx, 0) {
        Ok(kuro::predownload::PlanChoice::Update { from, cdn, patch }) => {
            assert_eq!((from, cdn, patch.index_file.as_str()), ("1.0", "http://n0/", "p.json"));
        }
        _ => panic!("no update"),
    }
}

#[test]
fn staging_layout() {
    assert_eq!(state::incremental_dir("/g"), "/g/.incremental_download");
    assert_eq!(state::cache_dir("/g/"), "/g/.kuro_cache");
    assert_eq!(state::staged_patch_path("/g", "a.krpdiff"), "/g/.incremental_download/a.krpdiff");
    assert_eq!(
        state::staged_resource_path("/g", "/x/y"),
        "/g/.incremental_download/resources/x/y"
    );
    assert_eq!(state::local_config_path("/g"), "/g/launcherDownloadConfig.json");
}

#[test]
fn errors_say_what_happened() {
    let s = |t: &str| t.to_string();
    let cases = vec![
        (Error::Http(s("x")), "HTTP request failed: x"),
        (Error::Json(s("x")), "JSON parse failed: x"),
        (Error::Io(s("x")), "I/O error: x"),
        (Error::NoCdnNode, "no usable CDN node in cdnList"),
        (Error::MissingField("f"), "missing required field `f`"),
        (
            Error::ChecksumMismatch { path: s("p"), expected: s("a"), actual: s("b") },
            "checksum mismatch for p: expected a, got b",
        ),
        (Error::Patch(s("x")), "patch error: x"),
        (Error::Unimplemented("x"), "unimplemented: x"),
        (Error::TokenMissing(s("x")), "x"),
    ];
    for (error, text) in cases {
        assert_eq!(error.clone().to_string(), text);
    }
}
