//! Turns keyboard key presses into MQTT messages.
//!
//! The crate holds the logic of the gateway: slugs and topics, the device
//! database and its file format, the Home Assistant payloads, the coordinator
//! that reacts to events, and the decisions of the tasks around it.

pub mod text;
pub mod textmap;
pub mod slug;
pub mod topics;
pub mod codes;
pub mod discovery;
pub mod db;
pub mod json;
pub mod config;
pub mod hass;
pub mod mqtt;
pub mod coordinator;
pub mod laws;
pub mod client;
pub mod monitor;
pub mod watcher;
pub mod cli;
pub mod toml_tree;
pub mod store;
pub mod daemon;
pub mod behaviour;
