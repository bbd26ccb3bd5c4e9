//! Verified core of a proxy-management service: share-link parsing,
//! configuration defaults, configuration-file rewriting and routing plans.

pub mod text;
pub mod num;
pub mod converter;
pub mod tun;
pub mod config;
pub mod logger;
pub mod nftables;
pub mod service;
pub mod files;
pub mod web;
