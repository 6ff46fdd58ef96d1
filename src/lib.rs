//! Repository discovery, status, health scoring, suggestions and resolution
//! planning for workspaces that hold many Git repositories.

pub mod batch;
pub mod cache;
pub mod config;
pub mod discovery;
pub mod github;
pub mod health;
pub mod hooks;
pub mod ignore;
pub mod notifications;
pub mod resolution;
pub mod stats;
pub mod status;
pub mod suggestions;
pub mod text;
pub mod themes;
