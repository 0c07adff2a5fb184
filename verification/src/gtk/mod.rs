pub mod config;
pub mod dbus;
pub mod module;
pub mod style;
