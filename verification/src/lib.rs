//! Verified core of the collaborator server: payload identifiers and
//! hostnames, DNS question parsing and answers, callback capture decisions,
//! API authorisation and rendering, and stored-row conversion.

pub mod text;
pub mod payloads;
pub mod models;
pub mod dns;
pub mod listeners;
pub mod api;
pub mod config;
pub mod database;
