//! Core of an offline scrobbler for Last.fm: request signing, reply
//! interpretation, the album timeline and the decisions of each command.

pub mod auth;
pub mod cli;
pub mod json;
pub mod lastfmapi;
pub mod scrobbler;
pub mod signature;
pub mod text;
pub mod utils;
pub mod xml;
