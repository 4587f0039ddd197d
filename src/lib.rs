//! A dynamically configurable HTTP caching proxy: route and certificate stores, origin
//! selection with passive health tracking, and the decisions of the admin API.

pub mod route_config;
pub mod text;
pub mod route_store;
pub mod health;
pub mod utils;
pub mod app_config;
pub mod proxy;
pub mod cert_store;
pub mod config_api;
pub mod laws;
