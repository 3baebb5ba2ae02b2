//! A local router and control panel for model providers and accounts.
pub mod text;
pub mod json;
pub mod http;
pub mod digest;
pub mod router_error;
pub mod urls;
pub mod compression;
pub mod json_text;
pub mod bridge;
pub mod search;
pub mod registry;
pub mod compatibility;
pub mod ledger;
pub mod gate;
pub mod routes;
pub mod history;
pub mod forward;
pub mod multipart;
pub mod service;
pub mod providers;
pub mod discovery;
pub mod changes;
pub mod supervisor;
pub mod time;
pub mod tokens;
pub mod account;
pub mod records;
pub mod accounts;
pub mod saving;
pub mod usage;
pub mod refresh;
pub mod processes;
pub mod passwords;
pub mod limiter;
pub mod sessions;
pub mod panel;
pub mod panel_api;
pub mod pipeline;
