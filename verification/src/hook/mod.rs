//! Stop-hook logic shared by the host adapters.
pub mod emit;
pub mod stdin;
pub mod transcript;
pub mod lock;
pub mod pid_fallback;
pub mod codex_rollout;
pub mod codex_stop;
pub mod log;
