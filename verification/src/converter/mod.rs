//! Parsing of proxy share links and subscription documents.

pub mod types;
pub mod query;
pub mod encoding;
pub mod link;
pub mod trojan;
pub mod vless;
pub mod ss;
pub mod json;
pub mod vmess;
pub mod parser;
pub mod subscription;
