//! Verified core of the ACE tool: configuration resolution, prompt clean-up,
//! local keyword search text processing and the remote index bookkeeping.
pub mod config;
pub mod hashing;
pub mod text;
pub mod sorting;
pub mod ui;
pub mod utils;
pub mod index;
pub mod json;
pub mod logging;
pub mod mcp;
pub mod enhancer;
pub mod prompt_entry;
pub mod tool_entry;
