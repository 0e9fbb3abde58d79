//! Verified core of a terminal dashboard that keeps shell commands, shell
//! history and script gists at hand beside a live shell.

pub mod app;
pub mod cli;
pub mod color;
pub mod commands;
pub mod config;
pub mod gists;
pub mod github;
pub mod handlers;
pub mod history;
pub mod json;
pub mod keys;
pub mod labels;
pub mod listing;
pub mod messages;
pub mod prompt;
pub mod screen;
pub mod script;
pub mod shell;
pub mod stats;
pub mod text;
pub mod time;
pub mod ui;
