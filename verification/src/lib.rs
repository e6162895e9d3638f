//! The logic of the 360 Quake command-line client: the request bodies it
//! sends, the period and filters of a search, how API responses are read and
//! shown, the query files it reads and the lines it saves, and the
//! directives read out of an AI-written query. Each function states what it
//! returns in its contract; the HTTP exchange, files and the terminal are the
//! caller's.
pub mod text;
pub mod json;
pub mod models;
pub mod regex_ops;
pub mod ip_check;
pub mod display;
pub mod client;
pub mod persistence;
pub mod cli;
pub mod api;
pub mod laws;
