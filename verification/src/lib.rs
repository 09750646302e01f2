//! Power profiles and fan curves for desktop Linux: the decisions of the
//! daemon, its configuration checks and its command-line grammar.
pub mod curve;
pub mod text;
pub mod fan_config;
pub mod config_check;
pub mod fan;
pub mod matchers;
pub mod args;
pub mod watcher;
pub mod power;
pub mod errors;
pub mod radeon;
pub mod fan_detect;
pub mod fan_test;
pub mod client;
pub mod monitor;
pub mod graphics;
pub mod gui;
pub mod thermal;
