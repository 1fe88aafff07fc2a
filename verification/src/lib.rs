//! Core of a small file-parity service: a client fetches the files of a directory that the server
//! designates (the parity root) over one byte stream per request.
//!
//! The crate holds the wire format, the directory catalog, the transfer bookkeeping and the
//! decisions of both peers. It never touches a connection or a file's contents: the caller moves
//! the bytes and reports what happened.
//!
//! Around that core stand the pieces of the two programs' command-line interface that decide
//! anything: the settings of a profile and their rules, the book of profiles and its file, the
//! menu with its screens, and the controller that runs its states.

pub mod app;
pub mod cli;
pub mod client;
pub mod config;
pub mod dispatcher;
pub mod error;
pub mod menu;
pub mod parity;
pub mod request;
pub mod server;
pub mod text;
pub mod transfer;
pub mod validated_values;
pub mod wire;
