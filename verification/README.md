# rust-bbs

A small BBS served over SSH: message boards, accounts and a terminal UI.
The rules, state machines and screens are a library whose behaviour is stated
in contracts and proved with Verus. The programs around it are ordinary Rust.

## Layout

- `src/` — the library
  - `chars.rs` — text as sequences of characters
  - `content.rs` — sanitising and limits for what people write
  - `auth.rs` — names, passwords and keys
  - `state.rs` — identities, rate limits, who is online
  - `chat.rs` — the chat room
  - `db.rs` — stored records, and what storage decides on them
  - `boards.rs`, `mail.rs`, `sysop.rs`, `server.rs` — what the server lets whom do
  - `admin.rs` — what the administration tool says and decides
  - `ui/` — the terminal UI; `app.rs` is the state machine over all screens
  - `laws/` — what holds of the library as a whole
- `tests/` — tests of the compiled library
- `app/` — the SSH server and, started as `bbsadmin`, the administration
  tool: `russh`, `ratatui`, SQLite

## What the server does not serve yet

The library also holds the rules and screens for mail, chat, read markers and
the message of the day, and the screens for who is online and for changing the
password. The server in `app/` answers those requests with an error: the
database has no tables for the first, no chat room runs in it, and what it
should check and answer for the last two is not settled.

## What is trusted

A few functions call other crates and are believed rather than proved: the
password hash (`argon2`), the OpenSSH key format (`russh`), display widths
(`unicode-width`), and of the standard library lower-casing, `char::from_u32`
and `String::push`. Each says in its doc comment what is claimed of the call.
