//! The logic of a push-to-talk daemon whose button the operating system
//! cannot see.
//!
//! A Logitech mouse is told over HID++ to stop reporting one of its buttons,
//! and to deliver that button's raw state as private notifications instead.
//! This crate holds everything the daemon decides; what it opens, reads,
//! writes and draws is done by the program around it.

pub mod action;
pub mod bytes;
pub mod config;
pub mod connect;
pub mod daemon;
pub mod device;
pub mod discord;
pub mod duties;
pub mod hidpp;
pub mod icon;
pub mod json;
pub mod log;
pub mod platform;
pub mod promises;
pub mod resource;
pub mod run;
pub mod startup;
pub mod text;
pub mod tokens;
pub mod tray;
