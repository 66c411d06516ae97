//! A recorder that turns speech into text: its sessions, its settings, and the screens it shows.
pub mod chips;
pub mod cli;
pub mod config;
pub mod display_laws;
pub mod error;
pub mod export;
pub mod geometry;
pub mod input;
pub mod input_laws;
pub mod interface;
pub mod ipc;
pub mod logo;
pub mod model;
pub mod palette;
pub mod paths;
pub mod protocol;
pub mod provider;
pub mod queue;
pub mod recorder_laws;
pub mod request_laws;
pub mod restore;
pub mod scene;
pub mod search;
pub mod selection;
pub mod service;
pub mod session;
pub mod settings_ui;
pub mod shortcuts;
pub mod tab_bar;
pub mod tab_laws;
pub mod tab_menu;
pub mod text;
pub mod transcribe;
pub mod tray;
pub mod work_laws;
