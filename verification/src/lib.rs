//! Verified core of TFL (Top For LLM): the state machines, parsers and
//! record builders of a terminal monitor for local LLM inference hosts.

pub mod text;
pub mod model;
pub mod collector;
pub mod theme;
pub mod app;
pub mod config;
pub mod ui;
