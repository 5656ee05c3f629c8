//! Verified core of the EmbyPanel reverse-proxy panel: text rules, logs,
//! client control and rate limiting.

pub mod activity_log;
pub mod auth;
pub mod backup_crypto;
pub mod block_log;
pub mod client_control;
pub mod config;
pub mod connectivity;
pub mod crypto_api;
pub mod db;
pub mod emby;
pub mod error;
pub mod file_log;
pub mod gateway;
pub mod internal_redirect;
pub mod ip_location;
pub mod monitoring;
pub mod openlist;
pub mod proxy;
pub mod proxy_manager;
pub mod queries;
pub mod rewrite;
pub mod settings_api;
pub mod strmap;
pub mod telemetry;
pub mod text;
pub mod url_mapping;
pub mod user_activity;
pub mod user_list;
pub mod urls;
pub mod users_api;
