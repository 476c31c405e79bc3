//! Verified core of a floating quota indicator for the Codex CLI: quota and
//! token-usage parsing, the calendar heatmap model, window geometry, and the
//! small state machines that drive refreshing and X11 input shaping.

pub mod calendar;
pub mod codex;
pub mod config;
pub mod daily;
pub mod json;
pub mod morph;
pub mod quota;
pub mod text;
pub mod ui;
pub mod usage;
pub mod worker;
pub mod x11;
