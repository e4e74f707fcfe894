//! FAMP local-bus CLI: the verified core.
pub mod await_cmd;
pub mod hook;
pub mod json;
pub mod mailbox;
pub mod members;
pub mod text;
pub mod toml_tree;
pub mod args;
pub mod bus;
pub mod config;
pub mod daemon;
pub mod duration;
pub mod executable;
pub mod identity;
pub mod info;
pub mod init;
pub mod inspect;
pub mod install;
