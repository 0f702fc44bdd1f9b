//! Verified core of a desktop quota island: language settings and tray
//! labels, menu dispatch, the usage-response mapping over a JSON model,
//! and the foreground-window geometry that decides immersive mode.

pub mod text;
pub mod json;
pub mod usage;
pub mod clock;
pub mod json_text;
pub mod language;
pub mod foreground;
pub mod refresh;
