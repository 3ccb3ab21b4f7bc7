//! Launcher facts of Punishing: Gray Raven.
//!
//! The token of the global launcher changes over time and is never compiled in: it is found at
//! run time (see [`crate::config::index_url`]). The token of the mainland launcher is unknown.

use vstd::prelude::*;

verus! {

/// Platform id of the global game.
pub const GAME_ID_GLOBAL: &'static str = "G143";

/// App id of the global game.
pub const APP_ID_GLOBAL: &'static str = "50015";

/// Platform id of the mainland game.
pub const GAME_ID_CN: &'static str = "G148";

/// App id of the mainland game.
pub const APP_ID_CN: &'static str = "10012";

/// Servers of the global game, the main one first.
pub const CDN_BASES_GLOBAL: [&'static str; 3] = [
    "https://prod-alicdn-gamestarter.kurogame.com",
    "https://prod-volcdn-gamestarter.kurogame.net",
    "https://prod-tencentcdn-gamestarter.kurogame.net",
];

}
