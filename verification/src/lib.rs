use vstd::prelude::*;

pub mod text;
pub mod field_map;
pub mod hex;
pub mod crypto;
pub mod device;
pub mod registry;
pub mod settings;
pub mod form;
pub mod birdui;
pub mod error;
pub mod auth;
pub mod app_settings;
pub mod discovery;
pub mod mock;
pub mod preview;
pub mod api;
pub mod config;
pub mod vault;
