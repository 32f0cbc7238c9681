//! The logic of a launcher for AzurLaneAutoScript.

pub mod text;
pub mod strings;
pub mod ranges;
pub mod sizes;
pub mod percentage;
pub mod splash;
pub mod output;
pub mod scripts;
pub mod locale;
pub mod args;
pub mod config;
pub mod backend;
pub mod setup;
pub mod versions;
pub mod digest;
pub mod download;
pub mod update;
pub mod silent_update;
pub mod time_bomb;
pub mod json;
pub mod encoding;
pub mod html;
pub mod titlebar;
pub mod error_page;
pub mod splash_page;
pub mod urls;
pub mod events;
pub mod lifecycle;
