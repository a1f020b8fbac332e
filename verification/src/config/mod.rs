//! The configuration file: profiles of display settings.
pub mod parser;
