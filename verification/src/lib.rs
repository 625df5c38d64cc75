//! Verified core of the Aerogram mail server: domain types, error
//! messages, configuration validation, webhook signing and DKIM signing
//! with relaxed canonicalization.

pub mod admin;
pub mod api;
pub mod auth;
pub mod base64;
pub mod cli;
pub mod config;
pub mod dkim;
pub mod dkim_canon;
pub mod events;
pub mod imap;
pub mod jmap;
pub mod model;
pub mod queue;
pub mod search;
pub mod server;
pub mod smtp;
pub mod spam;
pub mod spf_dmarc;
pub mod store;
pub mod text;
