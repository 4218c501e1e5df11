//! Menu-bar helper library: hosts-file editing, configuration model,
//! Android proxy command planning and small text utilities.
pub mod actions;
pub mod android;
pub mod autostart;
pub mod canvas;
pub mod config;
pub mod hosts;
pub mod icons;
pub mod instance;
pub mod menu;
pub mod notify;
pub mod privileges;
pub mod status;
pub mod text;

