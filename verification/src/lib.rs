//! Core rules of the ADR tooling: the ADR document model and its validation,
//! templates, Markdown export, naming rules for ADR files and remotes, the
//! problem-intake builder, and the normalisation of remote work items.

pub mod export;
pub mod export_lines;
pub mod install;
pub mod lifecycle;
pub mod listing;
pub mod naming;
pub mod problem;
pub mod remote;
pub mod schema;
pub mod tasks;
pub mod template;
pub mod text;
