//! TALBot (Take A Look bot): a Telegram notifier and question bridge for coding agents.
//!
//! The library holds what the program decides and computes: message texts, the
//! permission-hook question and decision, how Telegram questions are checked, sent and
//! answered, how MCP requests are routed and answered, and what is kept on disk.
pub mod config;
pub mod conversation;
pub mod hook;
pub mod json;
pub mod mcp;
pub mod question;
pub mod telegram;
pub mod text;
