//! Corona's desktop-shell logic: icon resolution for desktop entries, the
//! audio graph state kept from PipeWire, Hyprland IPC events, notifications,
//! plugin capabilities and the small state machines around them.

pub mod text;
pub mod icons;
pub mod audio;
pub mod audio_state;
pub mod compositor;
pub mod hyprland;
pub mod events;
pub mod notifications;
pub mod clock;
pub mod manifest;
pub mod script;
pub mod platform;
pub mod panel;
