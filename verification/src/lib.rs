//! Verified core of a local-first encrypted vault: the media container
//! format, credential records, session header rules and request parsing.

pub mod bytes;
pub mod clock;
pub mod commands;
pub mod container;
pub mod credential_search;
pub mod credentials;
pub mod crypto;
pub mod digest;
pub mod encoding;
pub mod env;
pub mod error;
pub mod gallery;
pub mod generator;
pub mod health;
pub mod ids;
pub mod media_server;
pub mod ordered;
pub mod paths;
pub mod protocol;
pub mod registry;
pub mod request_head;
pub mod session;
pub mod source;
pub mod state;
pub mod text;
pub mod thumbnail;
pub mod token;
pub mod trash_flow;
pub mod totp;
