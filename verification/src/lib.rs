//! Verified core of a command-line client for a social-platform REST API:
//! paginated collection retrieval, merge/dedup of partitioned fetches,
//! client-side sorting and limiting, and rendering as plain lists,
//! Unicode-width-aware tables, or JSON.

pub mod auth_utils;
pub mod command_utils;
pub mod config;
pub mod display_options;
pub mod formatter;
pub mod friends;
pub mod json;
pub mod order;
pub mod output_options;
pub mod paginate;
pub mod strutil;
pub mod table;
pub mod text;
pub mod users;
pub mod utils;
pub mod world;
pub mod world_tags;
pub mod worlds;

pub use display_options::DisplayOptions;
pub use output_options::OutputOptions;
