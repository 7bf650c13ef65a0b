use vstd::prelude::*;

pub mod config;
pub mod dns_router;
pub mod engine;
pub mod executor;
pub mod helper;
pub mod i18n;
pub mod ipaddr;
pub mod laws;
pub mod manager;
pub mod models;
pub mod resolver;
pub mod text;
pub mod tray;
pub mod window;
