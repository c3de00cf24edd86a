//! Invocation and orchestration layer for an external backup engine binary.
//!
//! The crate resolves repository locations from layered argument and
//! environment sources, derives the argument vector and environment for each
//! engine invocation, tracks in-flight engine processes by group for
//! cooperative cancellation, and decodes the engine's semi-structured output
//! into typed records.

pub mod app_state;
pub mod command;
pub mod group;
pub mod json;
pub mod location;
pub mod location_type;
pub mod program;
pub mod records;
pub mod text;

pub use app_state::{AppState, SharedAppState};
pub use command::ResticCommand;
pub use group::{
    add_command_to_group, process_was_terminated, remove_command_from_group,
    terminate_all_commands_in_group, CommandGroups, ExitInfo,
};
pub use location::{ArgPair, CommandLine, EnvValue, Location, SourcePlan, SourceTexts};
pub use location_type::{supported_location_types, LocationType, LocationTypeInfo};
pub use program::{Invocation, Program, Version};
pub use records::{collect_snapshot_ids, parse_file_listing, parse_snapshots, File, Snapshot};
