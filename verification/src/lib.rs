//! Verified core of the burl file-based workflow orchestrator.

pub mod text;
pub mod keyed;
pub mod cli;
pub mod args;
pub mod error;
pub mod task;
pub mod paths;
pub mod strmap;
pub mod template;
pub mod context;
pub mod scope;
pub mod selection;
pub mod agent;
pub mod stamp;
pub mod workflow;
pub mod clean;
pub mod validation;
pub mod status;
pub mod doctor;
pub mod report;
pub mod naming;
pub mod approval;
pub mod init;
pub mod locks;
pub mod gates;
pub mod diff;
pub mod refs;
pub mod watch;
