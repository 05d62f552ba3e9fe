//! Verified core of the kaomoji desktop widget: the length-prefixed message
//! protocol between the MCP bridge and the widget, the widget's command
//! handling, and the text the bridge hands back to its MCP client.

pub mod protocol;
pub mod text;
pub mod paths;
pub mod commands;
pub mod bridge;
pub mod settings;
pub mod tray;
pub mod monitors;
pub mod placement;
