//! Verified core of a project-scaffolding tool: classification of command-line
//! tokens, the registry of initialization actions, and the per-directory
//! provisioning decisions, with the laws they obey.

pub mod args;
pub mod laws;
pub mod pipeline;
pub mod registry;
pub mod templates;
pub mod text;
