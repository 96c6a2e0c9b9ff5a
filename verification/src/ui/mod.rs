//! The terminal UI: a state machine driven by keys and server responses,
//! and the layout of what it shows.

pub mod app;
pub mod boards;
pub mod chat;
pub mod compose;
pub mod input;
pub mod keys;
pub mod mail;
pub mod online;
pub mod paint;
pub mod password;
pub mod protocol;
pub mod register;
pub mod sysop;
pub mod text;

pub use app::{App, MenuItem};
pub use protocol::{
    Action, BoardInfo, KeyInfo, OnlineInfo, PageTarget, PostInfo, Request, Response, ThreadDetail,
    ThreadInfo,
};
