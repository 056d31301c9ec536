//! The decisions of a liquid-argon data acquisition program: how the digitizer
//! boards are configured, how events are paired and suppressed, how runs are
//! numbered, started and ended. Everything here is computation on plain values;
//! talking to the boards, the disk, the terminal and the other threads is left
//! to the program around it.
pub mod acquisition;
pub mod config;
pub mod device;
pub mod event;
pub mod processing;
pub mod runs;
pub mod screen;
pub mod settings;
pub mod status;
pub mod text;
pub mod waveform;
