pub mod text;
pub mod learning;
pub mod config;
pub mod prompt;
pub mod ai_types;
pub mod providers;
pub mod models;
pub mod retry;
pub mod audio;
pub mod local_api;
pub mod history;
pub mod timing;
pub mod preview;
pub mod bubble;
pub mod backup;
pub mod commands;
