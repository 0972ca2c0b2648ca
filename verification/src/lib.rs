//! Session bookkeeping, text rendering and chart generation for a panel
//! applet that shows the context-window usage of coding-assistant sessions.
pub mod text;
pub mod model;
pub mod chart;
pub mod clock;
pub mod data;
pub mod display;
pub mod files;
pub mod popup;
pub mod laws;
