//! Inspection commands whose conclusions are computed locally.

pub mod wake;
pub mod table;
pub mod render;
