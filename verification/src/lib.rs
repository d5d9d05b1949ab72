//! WebTiles server core: configuration and game templates, the page
//! template engine, the wire protocol's batching and compression, login
//! (passwords, cookies, tokens), what starting and running a game needs
//! (launch plans, crash reports, lock files, ttyrec framing, control
//! messages, who may watch) and the lobby's decisions.

pub mod auth;
pub mod bridge;
pub mod codec;
pub mod config;
pub mod connection;
pub mod deflate;
pub mod error;
pub mod gamedata;
pub mod launch;
pub mod listen;
pub mod lobby;
pub mod numtext;
pub mod process;
pub mod protocol;
pub mod session;
pub mod table;
pub mod templates;
pub mod text;
pub mod userdb;
