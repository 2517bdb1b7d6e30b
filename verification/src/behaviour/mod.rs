//! What the operations do, told by what goes in and what comes out.
//!
//! Each law here speaks of the calls of an operation, whatever they were given and
//! whatever they returned, and of plain values.

pub mod bundle;
pub mod commands;
pub mod connection;
pub mod devices;
pub mod file;
pub mod keys;
pub mod listing;
pub mod settings;
pub mod topics;
pub mod views;
pub mod watching;
pub mod words;
