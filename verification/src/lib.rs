//! A Model Context Protocol server library that answers web searches through an
//! Azure AI Search knowledge base.
//!
//! - [`string_map`]: a map keyed by strings, the store behind tool metadata and the
//!   tool registry.
//! - [`error`]: the library's error type and its messages.
//! - [`tools`]: tool results, the tool context and the tool registry.
//! - [`json_text`]: JSON text for the values the library writes itself.
//! - [`web_search`]: the decisions and formats of the `web_search` tool.

pub mod error;
pub mod json_text;
pub mod string_map;
pub mod tools;
pub mod web_search;

pub use error::{BrowserError, Result};
pub use string_map::StringMap;
pub use tools::{ToolContext, ToolRegistry, ToolResult};
pub use web_search::{Reference, WebSearchParams, WebSearchTool};
