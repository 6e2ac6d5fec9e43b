//! The verified core of `clove`, a git-native work-item tracker.

pub mod cli;
pub mod clove_home;
pub mod cmd;
pub mod config;
pub mod context;
pub mod dispatch;
pub mod error;
pub mod exit;
pub mod item_json;
pub mod json;
pub mod json_text;
pub mod lines;
pub mod mux_help;
pub mod order;
pub mod output;
pub mod path;
pub mod plugin;
pub mod ranking;
pub mod registry;
pub mod text;
pub mod version;
pub mod view;
