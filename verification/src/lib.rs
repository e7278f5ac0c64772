//! Verified core of a mouse-native terminal client for Asana.

pub mod app;
pub mod asana;
pub mod calendar;
pub mod cli;
pub mod config;
pub mod laws;
pub mod popups;
pub mod settings;
pub mod state;
pub mod table;
pub mod text;
pub mod ui;
pub mod zones;
