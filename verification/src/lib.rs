pub mod about;
pub mod cli;
pub mod color;
pub mod color_picker;
pub mod config;
pub mod display;
pub mod form;
pub mod history;
pub mod hyprconf;
pub mod hyprdeck;
pub mod hyprconf_laws;
pub mod hyprpaper;
pub mod hyprpaper_laws;
pub mod hyprsaver;
pub mod hyprsaver_laws;
pub mod ipc;
pub mod keymap;
pub mod layout;
pub mod palette;
pub mod panels;
pub mod preview;
pub mod registry;
pub mod text;
pub mod toml_model;
pub mod undo;
pub mod wayland;
pub mod widget;
