//! Verified core of `wgtui`, a keyboard-driven terminal interface for `winget`:
//! the state of the interface and what every key does to it, the jobs that run
//! in the background, the tables that `winget` prints, manifests, and the texts
//! on the screen.
//!
//! Nothing here runs a program or touches a file. The program around this crate
//! does that and hands plain values back and forth.

pub mod action;
pub mod app;
pub mod bootstrap;
pub mod command_line;
pub mod dirs;
pub mod elevation;
pub mod jobs;
pub mod key;
pub mod key_laws;
pub mod keys;
pub mod laws;
pub mod list;
pub mod manifest;
pub mod package;
pub mod rows;
pub mod selection;
pub mod tab;
pub mod table;
pub mod text;
pub mod view;
pub mod windows_update;
pub mod winget;

pub use app::App;
pub use bootstrap::{ensure_winget, manual_instructions, Bootstrap};
pub use elevation::elevation_warning;
pub use manifest::{find_package_json_files, load_export_packages, load_packages_from_file};
pub use package::{is_installed, JsonPackage, UpgradablePackage, WingetPackage};
pub use selection::Selection;
pub use tab::Tab;
pub use windows_update::{
    parse_windows_update_json, read_windows_update_result, windows_update_check_script,
    WindowsUpdateItem, WINDOWS_UPDATE_INSTALL_PS,
};
