//! The logic of an on-screen keyboard for wayland phones: layouts and their
//! keys, what touches do, and how submissions reach the compositor.
pub mod action_map;
pub mod decoder;
pub mod deserialized;
pub mod gesture;
pub mod grid_cells;
pub mod input_handler;
pub mod interaction;
pub mod interpreter;
pub mod key;
pub mod key_arrangement;
pub mod key_meta;
pub mod keyboard;
pub mod layout_meta;
pub mod locale;
pub mod str_map;
pub mod submission;
pub mod submitter;
pub mod text;
pub mod ui_manager;
pub mod vk_service;
