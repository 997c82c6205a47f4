//! A small site host: pages, apps and their accounts behind a sign-in.
pub mod accounts;
pub mod base_laws;
pub mod cli;
pub mod config;
pub mod config_laws;
pub mod content;
pub mod crypto;
pub mod encode;
pub mod order;
pub mod platform;
pub mod reply;
pub mod runtime;
pub mod table;
pub mod text;
pub mod text_laws;
pub mod ui;
