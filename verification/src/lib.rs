//! The simulation server's own logic: simulation time, the command line and
//! network settings, the pages served to the browser UI, the crash report,
//! configuration tables and a small seeded random number generator.
pub mod browser_ui;
pub mod cli;
pub mod config;
pub mod js_support;
pub mod network;
pub mod random;
pub mod text;
pub mod units;
