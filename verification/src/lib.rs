//! Local web-stack manager: the rules that keep the hosts file and the proxy
//! configuration in step with the watched and linked project directories.

pub mod cli;
pub mod config;
pub mod download;
pub mod hosts;
pub mod json;
pub mod link;
pub mod mysql;
pub mod nginx;
pub mod number;
pub mod path;
pub mod path_set;
pub mod php;
pub mod phpmyadmin;
pub mod setup;
pub mod text;
pub mod watch;
