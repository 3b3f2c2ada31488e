//! Names each tab of a terminal multiplexer after the title of its focused pane.
//!
//! The logic is a plain state machine: `TabNamer` is built from the plugin
//! configuration, is handed each event, and answers with the rename requests
//! that the host should carry out.

pub mod config;
pub mod host;
pub mod namer;
pub mod pane;
pub mod properties;

pub use config::{prefix_from_config, DEFAULT_PREFIX_TEXT, PREFIX_OPTION};
pub use host::{required_permissions, subscriptions, EventKind, Permission};
pub use namer::{Event, NamerState, RenameTab, TabNamer, UpdateOutcome, PLACEHOLDER};
pub use pane::{tab_name, PaneInfo, TabPanes};
