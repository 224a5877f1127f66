pub mod ansi;
pub mod cli;
pub mod command;
pub mod config;
pub mod icons;
pub mod init;
pub mod job;
pub mod json;
pub mod kdl;
pub mod manifest;
pub mod mercy;
pub mod names;
pub mod paths;
pub mod pre_commit;
pub mod pre_push;
pub mod progress;
pub mod readme;
pub mod size;
pub mod staged;
pub mod stream;
pub mod text;
pub mod toml;
pub mod workspace;
