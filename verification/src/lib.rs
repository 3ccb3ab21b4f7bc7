//! The logic of a native installer and updater for Kuro Games titles.
//!
//! Everything here is decided without touching the disk or the network: an operation that needs them
//! is a course of actions, each of which somebody performs and answers.

pub mod address_laws;
pub mod apply;
pub mod apply_disk;
pub mod apply_laws;
pub mod area;
pub mod atomic;
pub mod channel_laws;
pub mod checkout;
pub mod client;
pub mod config;
pub mod digest;
pub mod download;
pub mod error;
pub mod game;
pub mod install;
pub mod key_laws;
pub mod manifest;
pub mod merge;
pub mod merge_laws;
pub mod messages;
pub mod model_laws;
pub mod moves;
pub mod order;
pub mod path_laws;
pub mod paths;
pub mod pgr_meta;
pub mod plan_laws;
pub mod predownload;
pub mod progress;
pub mod screen;
pub mod screen_laws;
pub mod state;
pub mod steam;
pub mod steam_laws;
pub mod sweep;
pub mod sweep_laws;
pub mod sync;
pub mod sync_laws;
pub mod text;
pub mod text_laws;
pub mod token_laws;
pub mod tokens;
pub mod types;
pub mod ui;
pub mod ui_events;
pub mod ui_laws;
pub mod update_laws;
pub mod word_laws;
