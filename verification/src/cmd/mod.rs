//! The commands: what each decides, and what it prints.

pub mod agent_doc;
pub mod assign;
pub mod comments;
pub mod daemon;
pub mod dep;
pub mod doctor;
pub mod edit;
pub mod export;
pub mod import;
pub mod index_read;
pub mod init;
pub mod label;
pub mod listing;
pub mod ls;
pub mod mcp;
pub mod merge_driver;
pub mod new;
pub mod plugin;
pub mod plugin_flow;
pub mod plugin_install;
pub mod query;
pub mod ready;
pub mod reindex;
pub mod search;
pub mod serve;
pub mod setup;
pub mod show;
pub mod stats;
pub mod status;
pub mod sync;
pub mod version;
