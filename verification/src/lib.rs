//! Keeps a laptop awake while long-running work finishes.
pub mod ascending;
pub mod cli;
pub mod color;
pub mod color_names;
pub mod command;
pub mod config;
pub mod config_file;
pub mod controller;
pub mod controller_config;
pub mod controller_notes;
pub mod drawing;
pub mod escape;
pub mod icon;
pub mod lease;
pub mod login;
pub mod menu;
pub mod menu_refresh;
pub mod number;
pub mod parents;
pub mod path;
pub mod power;
pub mod process_menu;
pub mod process_tree;
pub mod quit;
pub mod registry;
pub mod sections;
pub mod service;
pub mod status;
pub mod system;
pub mod text;
pub mod time;
pub mod toml_document;
pub mod watchdog;
pub mod watchdog_notes;

pub use lease::{LeaseRecord, APP_ACTIVE_LEASE_PATH, CONTROLLER_RESET_REQUEST_PATH, LEASE_TIMEOUT_SECONDS};
