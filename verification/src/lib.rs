//! Host-side library of the connected-plant project: an emulator of the
//! PCD8544 character display, the serial command protocol spoken by the
//! Arduino, the TCP protocol of the companion server and the interactive
//! shell's command handling.

pub mod glyph;
pub mod charset;
pub mod pcd8544;
pub mod decimal;
pub mod plant_config;
pub mod text;
pub mod event;
pub mod wire;
pub mod server;
pub mod controller;
pub mod shell;
pub mod completion;
