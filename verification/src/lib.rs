//! Plugins for Mediary: the DC helper, which keeps Docker containers up to date
//! through Docker Copilot, and coming series on Douban.
pub mod text;
pub mod lists;
pub mod names;
pub mod json;
pub mod codec;
pub mod settings;
pub mod input;
pub mod clock;
pub mod dc;
pub mod douban;
pub mod laws;
