//! The logic of ADB Bar, a tray app that keeps a list of Android devices and
//! connects to them with `adb` over the network: reading adb's output, the
//! saved devices and settings, the tray menu, the commands run for the UI,
//! tool discovery and installation, and the network scan.
pub mod text;
pub mod maps;
pub mod quote;
pub mod platform;
pub mod search;
pub mod adb;
pub mod commands;
pub mod store;
pub mod scrcpy;
pub mod locale;
pub mod download;
pub mod scanner;
pub mod tray;
pub mod notify;
