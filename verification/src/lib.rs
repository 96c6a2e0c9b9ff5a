//! An SSH-accessible bulletin board system: the rules, state machines and
//! screens. The programs around it live in `app/`.

pub mod admin;
pub mod auth;
pub mod boards;
pub mod chars;
pub mod chat;
pub mod content;
pub mod db;
pub mod laws;
pub mod mail;
pub mod server;
pub mod state;
pub mod sysop;
pub mod ui;
