use vstd::prelude::*;

pub mod api;
pub mod app_dirs;
pub mod attrs;
pub mod audio;
pub mod bookmarks;
pub mod browser;
pub mod bulk_text;
pub mod cache;
pub mod calc;
pub mod command;
pub mod config;
pub mod counter;
pub mod daemon;
pub mod desktop;
pub mod error;
pub mod events;
pub mod helpers;
pub mod ignore;
pub mod launchers;
pub mod loader;
pub mod lock;
pub mod nav;
pub mod num;
pub mod paths;
pub mod pipe;
pub mod process;
pub mod regex_match;
pub mod search;
pub mod text;
pub mod weather;
pub mod widgets;
