//! Codex threads and turns.
pub mod context;
pub mod input_laws;
pub mod items;
pub mod laws;
pub mod live;
pub mod notifications;
pub mod options;
pub mod session_laws;
pub mod sessions;
pub mod tool_laws;
pub mod tool_specs;
pub mod tools;
pub mod turn;
