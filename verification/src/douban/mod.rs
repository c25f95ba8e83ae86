//! Coming series on Douban: those that many people want to watch are subscribed
//! to ahead of time, and the user is reminded before they air.
pub mod date;
pub mod now;
pub mod extract;
pub mod rss;
pub mod media;
pub mod history;
pub mod refresh;
