//! Installing and removing the FAMP integration in host tools'
//! configuration documents.

pub mod stop_entry;
pub mod json_merge;
pub mod toml_merge;
pub mod codex;
pub mod claude_code;
pub mod codex_trust;
pub mod slash_commands;
pub mod grok;
pub mod shim;
