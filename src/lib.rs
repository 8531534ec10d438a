//! Milestone-based crowdfunding: a decoder for the binary instruction format and
//! the project state machine that the instructions drive.
pub mod error;
pub mod instruction;
pub mod lifecycle;
pub mod project;

pub use error::ColabioError;
pub use instruction::ColabioInstruction;
pub use project::{Address, Contribution, Milestone, Project, ProjectStatus, Validation, Vote};
