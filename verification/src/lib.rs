pub mod cli;
pub mod config;
pub mod discover;
pub mod linker;
pub mod path;
pub mod sort;
pub mod text;
pub mod vcs;
pub mod session;
pub mod listing;
pub mod unlink;
pub mod init;
