//! Council: a multi-agent code review and repair orchestrator.
//!
//! The library holds the verified core: extraction and validation of the
//! structured blocks that the agents emit, path safety for patch payloads,
//! the run state machine that turns phase results into an event stream,
//! verification command planning, context-bundle construction rules,
//! artifact serialization, progress tracking and cleanup planning.
//! Process, filesystem and network work lives outside the library and
//! hands it plain values.

pub mod artifact;
pub mod cleanup;
pub mod cli;
pub mod client;
pub mod context;
pub mod parsing;
pub mod progress;
pub mod prompts;
pub mod runner;
pub mod text;
pub mod types;
pub mod verify;
pub mod worktree;

pub use parsing::Severity;
pub use parsing::looks_like_apply_patch;
pub use parsing::validate_patch_paths;
pub use types::CouncilConfig;
pub use types::CouncilEvent;
pub use types::CouncilMode;
pub use types::JobOutcome;
