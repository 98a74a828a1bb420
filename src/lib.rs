//! Setup wizard library: a validated disk-partitioning plan, device naming,
//! the partitioning sequence as a state machine driven by a command runner,
//! and the decisions of the wifi, keymap and prompt collaborators.

pub mod common;
pub mod keymap;
pub mod orchestrator;
pub mod partition;
pub mod prompt;
pub mod text;
pub mod wifi;

pub use common::{CommandResult, SetupError};
pub use partition::PartitionConfig;
