//! What holds of the library as a whole: what its functions do for those who
//! use them, stated over what goes in and what comes out, and how they work
//! together.

pub mod account;
pub mod administration;
pub mod app;
pub mod browsing;
pub mod characters;
pub mod chat;
pub mod cleaning;
pub mod compose;
pub mod content;
pub mod editing;
pub mod filling;
pub mod flow;
pub mod input;
pub mod letters;
pub mod limits;
pub mod login;
pub mod mailbox;
pub mod posting;
pub mod room;
pub mod routing;
pub mod screens;
pub mod server;
pub mod session;
pub mod state;
pub mod talking;
pub mod terminal;
pub mod text;
pub mod writing;
