use vstd::prelude::*;

pub mod commands;
pub mod config;
pub mod fetch;
pub mod history;
pub mod imaging;
pub mod providers;
pub mod text;
