//! Verified core of a LAN controller for Govee LED strips.
//!
//! The modules hold the logic that decides what is sent to a strip and how
//! user input is read: the DreamView segment packets, address and colour
//! parsing, segment merging and mirroring, screen-frame colour extraction,
//! the day/night schedule, the theme registry and the terminal/GUI helpers.

pub mod address;
pub mod ambient;
pub mod cli;
pub mod colors;
pub mod discovery;
pub mod dreamview;
pub mod frame;
pub mod gui;
pub mod gui_state;
pub mod protocol;
pub mod sunlight;
pub mod text;
pub mod themes;
pub mod ui;
