//! Gateway logic between chat channels and Codex threads.
pub mod approval;
pub mod basics;
pub mod channels;
pub mod codex;
pub mod collections;
pub mod config;
pub mod flow;
pub mod gateway;
pub mod ids;
pub mod json;
pub mod markdown;
pub mod names;
pub mod numbers;
pub mod paths;
pub mod patterns;
pub mod service;
pub mod setup;
pub mod telegram;
pub mod text;
pub mod transcription;
pub mod user_dirs;
pub mod views;
