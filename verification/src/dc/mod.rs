//! The DC helper: update checks, automatic updates, image clean-up and backups
//! through the Docker Copilot API.
pub mod action;
pub mod client;
pub mod response;
pub mod selection;
pub mod updates;
pub mod dashboard;
pub mod progress;
pub mod auto_update;
pub mod history;
pub mod notify;
pub mod run;
