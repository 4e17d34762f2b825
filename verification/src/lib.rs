//! The decisions of a proxy between a game server's HTTP client and the GitHub API: who may ask,
//! which requests are well-formed, what is asked of GitHub, where a download may be written, and
//! what is answered. Reading from the network and writing to disk is left to the caller.
pub mod access;
pub mod background;
pub mod batch;
pub mod encode;
pub mod github;
pub mod links;
pub mod params;
pub mod paths;
pub mod pointer;
pub mod state;
pub mod status;
pub mod stream;
pub mod text;
pub mod validate;
pub mod write;
